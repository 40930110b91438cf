//! Dragon's Den: the rules of an idle hoard-building game that do not depend
//! on floating-point economy values — catalog enums and labels, swatch
//! parsing, the rarity-weighted treasure roll, the recent-events log, menu
//! state, save-version checks and the integer text helpers the screens use.
#![allow(unused_imports)]

use vstd::prelude::*;

pub mod data;
pub mod exploration;
pub mod state;
pub mod save;
pub mod text;
pub mod ui;

verus! {

} // verus!
