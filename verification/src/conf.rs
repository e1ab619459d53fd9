//! Window configuration handed to the host shell at start-up; the core
//! only carries the values.

use vstd::prelude::*;

verus! {

/// Title and icon of the window the host opens.
pub struct WindowSetup {
    pub title: String,
    pub icon: Option<String>,
}

impl WindowSetup {
    /// Replaces the window title.
    pub fn title(self, title: &str) -> (r: WindowSetup)
        ensures
            r.title@ == title@,
            r.icon == self.icon,
    {
        WindowSetup { title: title.to_owned(), icon: self.icon }
    }

    /// Chooses a window icon.
    pub fn icon(self, icon: &str) -> (r: WindowSetup)
        ensures
            r.title@ == self.title@,
            r.icon matches Some(i) && i@ == icon@,
    {
        WindowSetup { title: self.title, icon: Some(icon.to_owned()) }
    }
}

} // verus!
