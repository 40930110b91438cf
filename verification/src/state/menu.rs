//! Main-menu state: continue/new/delete against the single autosave slot,
//! plus the settings sub-screen. Whether the slot exists is read by the
//! caller and handed in.

use vstd::prelude::*;

verus! {

/// Which face of the menu is showing.
#[derive(Debug, Clone, Copy, PartialEq, Eq, Structural)]
pub enum MenuScreen {
    Main,
    Settings,
}

pub struct MenuState {
    pub save_exists: bool,
    pub screen: MenuScreen,
    /// A failed Continue attempt stays visible until the player starts over or
    /// deletes the damaged save, so recovery is not hidden in a short toast.
    pub load_error: Option<String>,
}

impl MenuState {
    /// The main face of the menu, with no load error, given whether the save
    /// slot currently exists.
    pub fn new(save_exists: bool) -> (r: Self)
        ensures
            r.save_exists == save_exists,
            r.screen == MenuScreen::Main,
            r.load_error is None,
    {
        MenuState { save_exists, screen: MenuScreen::Main, load_error: None }
    }

    /// Re-reads the slot's existence (after a delete) and clears any load
    /// error; the visible face is unchanged.
    pub fn refresh(&mut self, save_exists: bool)
        ensures
            final(self).save_exists == save_exists,
            final(self).screen == old(self).screen,
            final(self).load_error is None,
    {
        self.save_exists = save_exists;
        self.load_error = None;
    }

    /// Records a failed load; it stays until the next refresh.
    pub fn record_load_error(&mut self, error: String)
        ensures
            final(self).load_error == Some(error),
            final(self).save_exists == old(self).save_exists,
            final(self).screen == old(self).screen,
    {
        self.load_error = Some(error);
    }
}

} // verus!
