//! The screens the host shell switches between.

use vstd::prelude::*;

verus! {

/// Which screen is active.
#[derive(Copy, Clone, PartialEq, Eq, Structural, Debug)]
pub enum StateID {
    Game,
    Menu,
}

} // verus!
