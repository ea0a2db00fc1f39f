//! The page objects: one per page, created at start-up and kept for the
//! lifetime of the portfolio. Pages without content of their own carry only
//! their (empty) configuration.
use vstd::prelude::*;

verus! {

/// Configuration of the blog page.
#[derive(Clone, Copy, Debug, PartialEq, Eq, Structural)]
pub struct BlogPageConfig {}

impl Default for BlogPageConfig {
    fn default() -> (r: BlogPageConfig)
        ensures
            r == (BlogPageConfig {}),
    {
        BlogPageConfig {}
    }
}

/// The blog page.
#[derive(Clone, Copy, Debug, PartialEq, Eq, Structural)]
pub struct BlogPage {
    pub cfg: BlogPageConfig,
}

impl Default for BlogPage {
    fn default() -> (r: BlogPage)
        ensures
            r == (BlogPage { cfg: BlogPageConfig {} }),
    {
        BlogPage { cfg: BlogPageConfig::default() }
    }
}

/// Configuration of the demos page.
#[derive(Clone, Copy, Debug, PartialEq, Eq, Structural)]
pub struct DemosPageConfig {}

impl Default for DemosPageConfig {
    fn default() -> (r: DemosPageConfig)
        ensures
            r == (DemosPageConfig {}),
    {
        DemosPageConfig {}
    }
}

/// The demos page.
#[derive(Clone, Copy, Debug, PartialEq, Eq, Structural)]
pub struct DemosPage {
    pub cfg: DemosPageConfig,
}

impl Default for DemosPage {
    fn default() -> (r: DemosPage)
        ensures
            r == (DemosPage { cfg: DemosPageConfig {} }),
    {
        DemosPage { cfg: DemosPageConfig::default() }
    }
}

/// Configuration of the projects page.
#[derive(Clone, Copy, Debug, PartialEq, Eq, Structural)]
pub struct ProjectsPageConfig {}

impl Default for ProjectsPageConfig {
    fn default() -> (r: ProjectsPageConfig)
        ensures
            r == (ProjectsPageConfig {}),
    {
        ProjectsPageConfig {}
    }
}

/// The projects page.
#[derive(Clone, Copy, Debug, PartialEq, Eq, Structural)]
pub struct ProjectsPage {
    pub cfg: ProjectsPageConfig,
}

impl Default for ProjectsPage {
    fn default() -> (r: ProjectsPage)
        ensures
            r == (ProjectsPage { cfg: ProjectsPageConfig {} }),
    {
        ProjectsPage { cfg: ProjectsPageConfig::default() }
    }
}

/// Configuration of the software page.
#[derive(Clone, Copy, Debug, PartialEq, Eq, Structural)]
pub struct SoftwarePageConfig {}

impl Default for SoftwarePageConfig {
    fn default() -> (r: SoftwarePageConfig)
        ensures
            r == (SoftwarePageConfig {}),
    {
        SoftwarePageConfig {}
    }
}

/// The software page.
#[derive(Clone, Copy, Debug, PartialEq, Eq, Structural)]
pub struct SoftwarePage {
    pub cfg: SoftwarePageConfig,
}

impl Default for SoftwarePage {
    fn default() -> (r: SoftwarePage)
        ensures
            r == (SoftwarePage { cfg: SoftwarePageConfig {} }),
    {
        SoftwarePage { cfg: SoftwarePageConfig::default() }
    }
}

/// The curriculum vitae page, which redirects to an external address.
#[derive(Clone, Copy, Debug, PartialEq, Eq, Structural)]
pub struct CvPage {}

impl Default for CvPage {
    fn default() -> (r: CvPage)
        ensures
            r == (CvPage {}),
    {
        CvPage {}
    }
}

} // verus!
