use vstd::prelude::*;

verus! {

/// Full name of the portfolio's owner.
pub const AUTHOR_NAME_FULL: &'static str = "Andrej Orsula";

/// Short name of the owner, used in author lists.
pub const AUTHOR_NAME_SHORT: &'static str = "A Orsula";

/// Surname of the owner, used to find them in author lists.
pub const AUTHOR_SURNAME: &'static str = "Orsula";

/// First letter of the owner's given name, used to find them in author lists.
pub const AUTHOR_GIVEN_INITIAL: char = 'A';

/// Professional title shown under the owner's name.
pub const AUTHOR_TITLE: &'static str = "PhD Student in Space Robotics";

pub const EMAIL_ADDRESS: &'static str = "mailto:orsula.andrej@gmail.com";
pub const LINKEDIN_URL: &'static str = "https://linkedin.com/in/AndrejOrsula";
pub const ORCID_URL: &'static str = "https://orcid.org/0000-0003-0706-1191";
pub const SCHOLAR_URL: &'static str = "https://scholar.google.com/citations?user=sbQC2dAAAAAJ";
pub const YOUTUBE_URL: &'static str = "https://youtube.com/channel/UCqatO1yebNRswWSO2fxRWTg";
pub const GITHUB_URL: &'static str = "https://github.com/AndrejOrsula";

/// Where the curriculum vitae page sends its visitors.
pub const CV_URL: &'static str = "https://github.com/AndrejOrsula/cv";

} // verus!
