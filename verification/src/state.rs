//! Game state vocabulary: the transitions between the menu and a run, the
//! menu's own state, and the run-screen types that carry no economy values.

use vstd::prelude::*;

pub mod gameplay;
pub mod menu;

verus! {

/// A request to move between the menu and a run.
#[derive(Debug, Clone, PartialEq, Eq, Structural)]
pub enum StateTransition {
    /// Start a fresh save (overwrites nothing until the first autosave).
    NewGame,
    /// Load the existing save slot and apply offline progress.
    ContinueGame,
    /// Save and return to the main menu.
    BackToMenu,
}

} // verus!
