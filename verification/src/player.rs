//! Players and their profile data.

use vstd::prelude::*;

use crate::locale::Country;

verus! {

/// A player's avatar, by URL.
#[derive(Debug, Clone)]
pub struct Avatar {
    pub url: String,
}

/// A player profile: display name, optional avatar, optional country.
#[derive(Debug, Clone)]
pub struct Player {
    pub name: String,
    pub avatar: Option<Avatar>,
    pub country: Option<Country>,
}

impl Player {
    /// A bare profile holding only a name.
    pub fn blank_player(name: &str) -> (r: Player)
        ensures
            r.name@ == name@,
            r.avatar is None,
            r.country is None,
    {
        Player { name: name.to_owned(), avatar: None, country: None }
    }
}

} // verus!
