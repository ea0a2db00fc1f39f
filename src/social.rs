use vstd::prelude::*;

verus! {

/// The social profiles linked from the top bar.
#[derive(Clone, Copy, Debug, PartialEq, Eq, Structural, Hash)]
pub enum Social {
    Email,
    LinkedIn,
    Orcid,
    Scholar,
    YouTube,
    GitHub,
}

/// The profiles that are shown, in order.
pub open spec fn enabled_socials_spec() -> Seq<Social> {
    seq![Social::Email, Social::LinkedIn, Social::Orcid, Social::Scholar, Social::YouTube, Social::GitHub]
}

/// The profiles that are shown, in order.
pub fn enabled_socials() -> (r: Vec<Social>)
    ensures
        r@ == enabled_socials_spec(),
{
    let r = vec![
        Social::Email,
        Social::LinkedIn,
        Social::Orcid,
        Social::Scholar,
        Social::YouTube,
        Social::GitHub,
    ];
    assert(r@ =~= enabled_socials_spec());
    r
}

impl Social {
    pub open spec fn description_spec(self) -> Seq<char> {
        match self {
            Social::Email => "Write me an email"@,
            Social::LinkedIn => "Connect with me on LinkedIn"@,
            Social::Orcid => "View my ORCID profile"@,
            Social::Scholar => "See my publications on Google Scholar"@,
            Social::YouTube => "Watch my videos on YouTube"@,
            Social::GitHub => "Find my projects on GitHub"@,
        }
    }

    pub open spec fn url_spec(self) -> Seq<char> {
        match self {
            Social::Email => crate::consts::EMAIL_ADDRESS@,
            Social::LinkedIn => crate::consts::LINKEDIN_URL@,
            Social::Orcid => crate::consts::ORCID_URL@,
            Social::Scholar => crate::consts::SCHOLAR_URL@,
            Social::YouTube => crate::consts::YOUTUBE_URL@,
            Social::GitHub => crate::consts::GITHUB_URL@,
        }
    }

    pub open spec fn icon_spec(self) -> Seq<char> {
        match self {
            Social::Email => "@"@,
            Social::LinkedIn => "\u{f0e1}"@,
            Social::Orcid => "\u{f8d2}"@,
            Social::Scholar => "\u{e63b}"@,
            Social::YouTube => "\u{f167}"@,
            Social::GitHub => "\u{f09b}"@,
        }
    }

    /// The hover text of the profile's button.
    pub fn description(&self) -> (r: &'static str)
        ensures
            r@ == self.description_spec(),
    {
        match self {
            Social::Email => "Write me an email",
            Social::LinkedIn => "Connect with me on LinkedIn",
            Social::Orcid => "View my ORCID profile",
            Social::Scholar => "See my publications on Google Scholar",
            Social::YouTube => "Watch my videos on YouTube",
            Social::GitHub => "Find my projects on GitHub",
        }
    }

    /// The address that the profile's button opens.
    pub fn url(&self) -> (r: &'static str)
        ensures
            r@ == self.url_spec(),
    {
        match self {
            Social::Email => crate::consts::EMAIL_ADDRESS,
            Social::LinkedIn => crate::consts::LINKEDIN_URL,
            Social::Orcid => crate::consts::ORCID_URL,
            Social::Scholar => crate::consts::SCHOLAR_URL,
            Social::YouTube => crate::consts::YOUTUBE_URL,
            Social::GitHub => crate::consts::GITHUB_URL,
        }
    }

    /// The icon glyph of the profile's button.
    pub fn icon(&self) -> (r: &'static str)
        ensures
            r@ == self.icon_spec(),
    {
        match self {
            Social::Email => "@",
            Social::LinkedIn => "\u{f0e1}",
            Social::Orcid => "\u{f8d2}",
            Social::Scholar => "\u{e63b}",
            Social::YouTube => "\u{f167}",
            Social::GitHub => "\u{f09b}",
        }
    }

    /// Whether a click opens the profile in a new tab. A primary click stays
    /// in the same tab; a middle click opens a new one, except for the email
    /// link, which always stays.
    pub fn opens_in_new_tab(&self, middle_click: bool) -> (r: bool)
        ensures
            r == (middle_click && *self != Social::Email),
    {
        middle_click && !matches!(self, Social::Email)
    }
}

} // verus!
