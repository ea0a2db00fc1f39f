use portfolio::consts::CV_URL;
use portfolio::page::{enabled_pages, navigation_columns, navigation_target, sync_with_location, LocationSync, Navigation, Page};
use portfolio::social::{enabled_socials, Social};

#[test]
fn page_labels() {
    assert_eq!(Page::Cv.title(), "CV");
    assert_eq!(Page::Cv.name(), "Cv");
    assert_eq!(Page::Research.description(), "Research endeavors");
    assert_eq!(Page::Cv.redirect_page(), Some(CV_URL));
    assert_eq!(Page::About.redirect_page(), None);
    assert_eq!(Page::default(), Page::About);
    assert_eq!(enabled_pages(), vec![Page::About, Page::Research, Page::Teaching]);
}

#[test]
fn resolve_ignores_case() {
    assert_eq!(Page::resolve("research"), Page::Research);
    assert_eq!(Page::resolve("TEACHING"), Page::Teaching);
    assert_eq!(Page::resolve("About"), Page::About);
}

#[test]
fn unknown_page_resolves_to_default() {
    assert_eq!(Page::resolve("nonexistent"), Page::About);
    assert_eq!(Page::resolve(""), Page::About);
    assert_eq!(Page::resolve("blog"), Page::About);
    assert_eq!(Page::resolve("researchx"), Page::About);
}

#[test]
fn location_fragment_selects_page() {
    assert_eq!(
        sync_with_location(Page::About, "#teaching"),
        LocationSync { page: Page::Teaching, navigate: None }
    );
}

#[test]
fn unknown_fragment_leads_to_default() {
    assert_eq!(
        sync_with_location(Page::Research, "#nowhere"),
        LocationSync { page: Page::Research, navigate: Some(Navigation { page: Page::About, same_tab: true }) }
    );
}

#[test]
fn missing_fragment_follows_current_page() {
    assert_eq!(
        sync_with_location(Page::Research, ""),
        LocationSync { page: Page::Research, navigate: Some(Navigation { page: Page::Research, same_tab: true }) }
    );
    assert_eq!(sync_with_location(Page::About, ""), LocationSync { page: Page::About, navigate: None });
}

#[test]
fn navigation_targets() {
    assert_eq!(navigation_target(Page::Research), "#Research");
    assert_eq!(navigation_target(Page::Cv), CV_URL);
}

#[test]
fn columns_fill_every_row() {
    assert_eq!(navigation_columns(5, 2), 2);
    assert_eq!(navigation_columns(1, 2), 1);
    assert_eq!(navigation_columns(3, 4), 2);
    assert_eq!(navigation_columns(0, 3), 1);
    assert_eq!(navigation_columns(6, 6), 6);
}

#[test]
fn social_links() {
    assert_eq!(enabled_socials().len(), 6);
    assert_eq!(Social::GitHub.url(), "https://github.com/AndrejOrsula");
    assert_eq!(Social::Email.icon(), "@");
    assert_eq!(Social::Orcid.description(), "View my ORCID profile");
    assert!(Social::GitHub.opens_in_new_tab(true));
    assert!(!Social::GitHub.opens_in_new_tab(false));
    assert!(!Social::Email.opens_in_new_tab(true));
}
