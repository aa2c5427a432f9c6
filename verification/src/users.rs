//! What users change about themselves.
use vstd::prelude::*;
use vstd::string::*;

use crate::ids::Uuid;

verus! {

/// The part of a user's profile that the user changes.
#[derive(Debug)]
pub struct Profile {
    pub user_id: Uuid,
    /// The language of the pages; `None` for that of the browser.
    pub language: Option<String>,
}

/// Changes the language of the pages.
pub fn set_language(profile: Profile, language: Option<String>) -> (changed: Profile)
    ensures
        changed == (Profile { user_id: profile.user_id, language }),
{
    Profile { user_id: profile.user_id, language }
}

} // verus!
