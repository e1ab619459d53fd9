//! Board dimensions and the configuration options recognised at round
//! construction.

use vstd::prelude::*;

verus! {

/// Width of the board in cells.
pub const MAP_WIDTH: usize = 10;

/// Height of the board in cells; the top two rows are a hidden spawn buffer
/// that is never rendered.
pub const MAP_HEIGHT: usize = 22;

/// Number of cells of the board.
pub const MAP_TILE_COUNT: usize = MAP_WIDTH * MAP_HEIGHT;

/// The options recognised when a round is built: which piece generator to
/// run, the level to start at, and the two rule variants.
#[derive(Copy, Clone, Debug)]
pub struct Config {
    pub random_generator: crate::random::RandomGeneratorType,
    pub start_level: usize,
    pub wall_kicks_enabled: bool,
    pub hard_drop_enabled: bool,
}

} // verus!
