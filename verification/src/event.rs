//! Key identifiers and modifier flags of the input layer, as the
//! simulation core sees them.

use vstd::prelude::*;

verus! {

/// The keys the game binds: rotation, movement, drops, and the menu keys
/// the host shell reacts to.
#[derive(Copy, Clone, PartialEq, Eq, Structural, Debug)]
pub enum KeyCode {
    RControl,
    Y,
    Z,
    Up,
    X,
    Space,
    Left,
    Right,
    Down,
    Escape,
    F1,
    P,
    R,
}

/// Modifier-key state of a key event; not tracked by this engine.
#[derive(Copy, Clone, Debug)]
pub enum KeyMods {
    NotImplemented,
}

} // verus!
