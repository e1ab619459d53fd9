//! The polymorphic input source feeding discrete actions into a round: a
//! human player today; an AI or a network proxy would implement the same
//! interface later.

use vstd::prelude::*;

use crate::board::Board;
use crate::tetrimino::TileType;

pub mod player;

verus! {

/// The discrete actions an actor can assert for one tick.
#[derive(Copy, Clone, PartialEq, Eq, Structural, Debug)]
pub enum Action {
    RotateLeft,
    RotateRight,
    MoveLeft,
    MoveRight,
    SoftDrop,
    HardDrop,
    Drop,
}

/// An input source for a round.  All queries are discrete yes/no answers
/// for the current tick; the round never hands an actor anything mutable.
pub trait Actor {
    /// When true (the default for human play), the round drives gravity on
    /// its own timer; otherwise gravity fires only on an explicit `Drop`
    /// action, which supports deterministic replay and AI-driven stepping.
    fn is_auto_drop(&self) -> bool {
        true
    }

    /// Notification that a new piece spawned; the hook an AI would use to
    /// plan its next moves.
    fn on_spawn(
        &mut self,
        _map: &Board,
        _current: TileType,
        _next: TileType,
        _score: usize,
        _lines: usize,
        _level: usize,
    ) {
    }

    /// Whether the action is currently asserted.
    fn check(&mut self, action: Action) -> bool;

    /// Notification that the round consumed the action this tick.
    fn push(&mut self, _action: Action) {
    }

    /// Called once per tick, after all `check` queries for the tick, to let
    /// the actor refresh whatever edge state it keeps for debouncing.
    fn update(&mut self);
}

} // verus!
