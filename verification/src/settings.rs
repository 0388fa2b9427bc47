//! What the user has set: the theme, the tags on offer and where backups go.

use vstd::prelude::*;

verus! {

/// The colours of the interface.
#[derive(Clone, Copy, Debug, PartialEq, Eq, Structural)]
pub enum Theme {
    System,
    Light,
    Dark,
}

impl Default for Theme {
    /// The dark theme.
    fn default() -> (r: Self)
        ensures
            r == Theme::Dark,
    {
        Theme::Dark
    }
}

/// The settings of one user.
#[derive(Debug)]
pub struct Settings {
    pub theme: Theme,
    pub tags: Vec<String>,
    pub backups_path: String,
}

impl Settings {
    /// The settings of a new user: the default theme, no tags, and backups
    /// under `backups_path`.
    pub fn new(backups_path: String) -> (r: Self)
        ensures
            r.theme == Theme::Dark,
            r.tags@.len() == 0,
            r.backups_path@ == backups_path@,
    {
        Settings { theme: Theme::default(), tags: Vec::new(), backups_path }
    }
}

} // verus!
