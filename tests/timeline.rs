use portfolio::text::{decimal_string, eq_ignore_ascii_case};
use portfolio::updates::{item_layout, spine, timeline_height, Side, TimelineStyle, UpdateDate, UpdateEntry, Updates};

fn entry(year: i32, month: u32, day: u32, title: &str) -> UpdateEntry {
    UpdateEntry {
        date: UpdateDate { year, month, day },
        title: title.to_string(),
        highlights: String::new(),
        description: String::new(),
        url: String::new(),
    }
}

#[test]
fn updates_newest_first_stable() {
    let u = Updates::from_entries(vec![
        entry(2022, 5, 1, "a"),
        entry(2023, 1, 9, "b"),
        entry(2022, 5, 1, "c"),
        entry(2022, 12, 31, "d"),
    ]);
    let titles: Vec<&str> = u.entries().iter().map(|e| e.title.as_str()).collect();
    assert_eq!(titles, ["b", "d", "a", "c"]);
    assert_eq!(u.len(), 4);
    assert!(!u.is_empty());
    assert!(Updates::from_entries(Vec::new()).is_empty());
}

fn style() -> TimelineStyle {
    TimelineStyle {
        circle_radius: 6,
        line_width: 2,
        vertical_spacing: 35,
        horizontal_line_length: 58,
        text_line_offset: 8,
        highlight_offset: 14,
    }
}

#[test]
fn timeline_items_alternate_sides() {
    let l0 = item_layout(style(), 100, 400, 0);
    assert_eq!(l0.side, Side::Left);
    assert_eq!((l0.center_x, l0.center_y), (400, 106));
    assert_eq!(l0.stub_end_x, 342);
    assert_eq!((l0.title_x, l0.title_y), (334, 106));
    assert_eq!((l0.highlight_x, l0.highlight_y), (334, 120));
    assert_eq!((l0.date_x, l0.date_y), (368, 104));
    assert_eq!((l0.marker_min_x, l0.marker_min_y, l0.marker_max_x, l0.marker_max_y), (394, 100, 406, 112));

    let l1 = item_layout(style(), 100, 400, 1);
    assert_eq!(l1.side, Side::Right);
    assert_eq!(l1.center_y, 141);
    assert_eq!(l1.stub_end_x, 458);
    assert_eq!(l1.title_x, 466);
    assert_eq!(l1.date_x, 432);
}

#[test]
fn timeline_spine_and_height() {
    assert_eq!(timeline_height(3, 35), 105);
    assert_eq!(spine(style(), 100, 3), Some((100, 170)));
    assert_eq!(spine(style(), 100, 1), Some((100, 100)));
    assert_eq!(spine(style(), 100, 0), None);
}

#[test]
fn decimal_and_case_helpers() {
    assert_eq!(decimal_string(2022), "2022");
    assert_eq!(decimal_string(0), "0");
    assert_eq!(decimal_string(-45), "-45");
    assert_eq!(decimal_string(i32::MIN), "-2147483648");
    assert!(eq_ignore_ascii_case("ReSearch", "research"));
    assert!(!eq_ignore_ascii_case("research", "researc"));
}
