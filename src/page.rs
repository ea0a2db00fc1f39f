use vstd::prelude::*;

use crate::text::{ascii_eq_ignore_case, eq_ignore_ascii_case};

verus! {

/// The pages of the portfolio.
#[derive(Clone, Copy, Debug, PartialEq, Eq, Structural, Hash)]
pub enum Page {
    About,
    Projects,
    Research,
    Teaching,
    Cv,
    Blog,
    Demos,
}

/// The pages that are shown, in the order of the navigation menu.
pub open spec fn enabled_pages_spec() -> Seq<Page> {
    seq![Page::About, Page::Research, Page::Teaching]
}

/// The pages that are shown, in the order of the navigation menu.
pub fn enabled_pages() -> (r: Vec<Page>)
    ensures
        r@ == enabled_pages_spec(),
{
    let r = vec![Page::About, Page::Research, Page::Teaching];
    assert(r@ =~= enabled_pages_spec());
    r
}

impl Page {
    pub open spec fn name_spec(self) -> Seq<char> {
        match self {
            Page::About => "About"@,
            Page::Projects => "Projects"@,
            Page::Research => "Research"@,
            Page::Teaching => "Teaching"@,
            Page::Cv => "Cv"@,
            Page::Blog => "Blog"@,
            Page::Demos => "Demos"@,
        }
    }

    pub open spec fn title_spec(self) -> Seq<char> {
        match self {
            Page::About => "About"@,
            Page::Projects => "Projects"@,
            Page::Research => "Research"@,
            Page::Teaching => "Teaching"@,
            Page::Cv => "CV"@,
            Page::Blog => "Blog"@,
            Page::Demos => "Demos"@,
        }
    }

    pub open spec fn description_spec(self) -> Seq<char> {
        match self {
            Page::About => "About me"@,
            Page::Projects => "Open source projects"@,
            Page::Research => "Research endeavors"@,
            Page::Teaching => "Teaching materials"@,
            Page::Cv => "Curriculum Vitae"@,
            Page::Blog => "Blog"@,
            Page::Demos => "Online demos"@,
        }
    }

    pub open spec fn redirect_spec(self) -> Option<Seq<char>> {
        match self {
            Page::Cv => Some(crate::consts::CV_URL@),
            _ => None,
        }
    }

    /// The identifier of the page, as it appears in a location fragment.
    pub fn name(self) -> (r: &'static str)
        ensures
            r@ == self.name_spec(),
    {
        match self {
            Page::About => "About",
            Page::Projects => "Projects",
            Page::Research => "Research",
            Page::Teaching => "Teaching",
            Page::Cv => "Cv",
            Page::Blog => "Blog",
            Page::Demos => "Demos",
        }
    }

    /// The label of the page in the navigation menu.
    pub fn title(self) -> (r: &'static str)
        ensures
            r@ == self.title_spec(),
    {
        match self {
            Page::About => "About",
            Page::Projects => "Projects",
            Page::Research => "Research",
            Page::Teaching => "Teaching",
            Page::Cv => "CV",
            Page::Blog => "Blog",
            Page::Demos => "Demos",
        }
    }

    /// A one-line description of the page, shown on hover.
    pub fn description(self) -> (r: &'static str)
        ensures
            r@ == self.description_spec(),
    {
        match self {
            Page::About => "About me",
            Page::Projects => "Open source projects",
            Page::Research => "Research endeavors",
            Page::Teaching => "Teaching materials",
            Page::Cv => "Curriculum Vitae",
            Page::Blog => "Blog",
            Page::Demos => "Online demos",
        }
    }

    /// The external address that a redirect page sends its visitors to, or
    /// `None` for a page with content of its own.
    pub fn redirect_page(self) -> (r: Option<&'static str>)
        ensures
            r matches Some(u) ==> self.redirect_spec() == Some(u@),
            r is None ==> self.redirect_spec() is None,
    {
        match self {
            Page::Cv => Some(crate::consts::CV_URL),
            _ => None,
        }
    }
}

impl Default for Page {
    fn default() -> (r: Page)
        ensures
            r == Page::About,
    {
        Page::About
    }
}

/// The first page of `pages` whose identifier equals `requested`, ignoring
/// ASCII case.
pub open spec fn find_page(pages: Seq<Page>, requested: Seq<char>) -> Option<Page>
    decreases pages.len(),
{
    if pages.len() == 0 {
        None
    } else if ascii_eq_ignore_case(pages[0].name_spec(), requested) {
        Some(pages[0])
    } else {
        find_page(pages.drop_first(), requested)
    }
}

/// The page that a requested identifier selects: the enabled page of that
/// name, or the default page for any other identifier.
pub open spec fn resolve_spec(requested: Seq<char>) -> Page {
    match find_page(enabled_pages_spec(), requested) {
        Some(p) => p,
        None => Page::About,
    }
}

/// Looks `requested` up among the enabled pages, ignoring ASCII case.
pub fn find_enabled_page(requested: &str) -> (r: Option<Page>)
    ensures
        r == find_page(enabled_pages_spec(), requested@),
{
    let pages = enabled_pages();
    let mut i: usize = 0;
    assert(pages@.skip(0) =~= pages@);
    while i < pages.len()
        invariant
            pages@ == enabled_pages_spec(),
            i <= pages.len(),
            find_page(enabled_pages_spec(), requested@) == find_page(pages@.skip(i as int), requested@),
        decreases pages.len() - i,
    {
        assert(pages@.skip(i as int).drop_first() =~= pages@.skip(i + 1));
        if eq_ignore_ascii_case(pages[i].name(), requested) {
            return Some(pages[i]);
        }
        i = i + 1;
    }
    None
}

impl Page {
    /// Resolves a requested page identifier. An identifier that names no
    /// enabled page falls back on the default page; this never fails.
    pub fn resolve(requested: &str) -> (r: Page)
        ensures
            r == resolve_spec(requested@),
            find_page(enabled_pages_spec(), requested@) is None ==> r == Page::About,
    {
        match find_enabled_page(requested) {
            Some(p) => p,
            None => Page::default(),
        }
    }
}

/// A navigation to perform: open `page`, in the same tab or a new one.
#[derive(Clone, Copy, Debug, PartialEq, Eq, Structural)]
pub struct Navigation {
    pub page: Page,
    pub same_tab: bool,
}

/// The outcome of reading the location: the page to show, and a navigation
/// to perform, if any.
#[derive(Clone, Copy, Debug, PartialEq, Eq, Structural)]
pub struct LocationSync {
    pub page: Page,
    pub navigate: Option<Navigation>,
}

/// What reading the location fragment `hash` decides while `current` is
/// shown. A fragment `#name` that names an enabled page selects it, and a
/// redirect page is then opened at once; a fragment naming no enabled page
/// leads to the default page. Without a fragment, the location is brought in
/// line with the current page, unless that is the default page.
pub open spec fn sync_spec(current: Page, hash: Seq<char>) -> LocationSync {
    if hash.len() > 0 && hash[0] == '#' {
        match find_page(enabled_pages_spec(), hash.drop_first()) {
            Some(p) => LocationSync {
                page: p,
                navigate: if p.redirect_spec() is Some { Some(Navigation { page: p, same_tab: true }) } else { None },
            },
            None => LocationSync { page: current, navigate: Some(Navigation { page: Page::About, same_tab: true }) },
        }
    } else if current != Page::About {
        LocationSync { page: current, navigate: Some(Navigation { page: current, same_tab: true }) }
    } else {
        LocationSync { page: current, navigate: None }
    }
}

/// Decides, from the location fragment, which page to show and where to
/// navigate.
pub fn sync_with_location(current: Page, hash: &str) -> (r: LocationSync)
    ensures
        r == sync_spec(current, hash@),
{
    let n = hash.unicode_len();
    if n > 0 && hash.get_char(0) == '#' {
        let requested = hash.substring_char(1, n);
        assert(requested@ =~= hash@.drop_first());
        match find_enabled_page(requested) {
            Some(p) => {
                let navigate = if p.redirect_page().is_some() {
                    Some(Navigation { page: p, same_tab: true })
                } else {
                    None
                };
                LocationSync { page: p, navigate }
            },
            None => LocationSync { page: current, navigate: Some(Navigation { page: Page::default(), same_tab: true }) },
        }
    } else if current != Page::About {
        LocationSync { page: current, navigate: Some(Navigation { page: current, same_tab: true }) }
    } else {
        LocationSync { page: current, navigate: None }
    }
}

/// The address that navigating to a page opens: the external address of a
/// redirect page, else the fragment `#` and the page's identifier.
pub open spec fn target_spec(page: Page) -> Seq<char> {
    match page.redirect_spec() {
        Some(u) => u,
        None => "#"@ + page.name_spec(),
    }
}

/// The address that navigating to a page opens.
pub fn navigation_target(page: Page) -> (r: String)
    ensures
        r@ == target_spec(page),
{
    match page.redirect_page() {
        Some(u) => String::from_str(u),
        None => {
            let mut r = String::from_str("#");
            r.append(page.name());
            r
        },
    }
}

/// The number of columns of a grid of `buttons` buttons when at most
/// `fit` fit across: the largest divisor of `buttons` that is at most
/// `fit`, and at least one.
pub open spec fn columns_spec(fit: int, buttons: int, c: int) -> bool {
    let bound = if fit < 1 { 1 } else if fit > buttons { buttons } else { fit };
    &&& 1 <= c <= bound
    &&& buttons % c == 0
    &&& forall|d: int| c < d <= bound ==> #[trigger] (buttons % d) != 0
}

/// The number of columns of a grid of `buttons` buttons when at most `fit`
/// fit across, chosen so that every row is full.
pub fn navigation_columns(fit: usize, buttons: usize) -> (r: usize)
    requires
        buttons >= 1,
    ensures
        columns_spec(fit as int, buttons as int, r as int),
{
    let bound = if fit < 1 { 1 } else if fit > buttons { buttons } else { fit };
    let mut c = bound;
    while buttons % c != 0
        invariant
            1 <= c <= bound,
            bound <= buttons,
            forall|d: int| c < d <= bound ==> #[trigger] ((buttons as int) % d) != 0,
        decreases c,
    {
        assert(c != 1) by {
            assert(buttons % 1 == 0);
        }
        c = c - 1;
    }
    c
}

} // verus!
