//! Board dimensions, scoring and timing parameters, and the piece catalog.

use vstd::prelude::*;

verus! {

/// Number of columns of the board.
pub const GRID_WIDTH: usize = 10;

/// Number of rows of the board, the hidden spawn buffer included.
pub const GRID_HEIGHT: usize = 24;

/// Number of hidden rows at the top of the board.  Pieces spawn inside
/// them; the visible play field starts at this row.
pub const BUFFER_ROWS: usize = 4;

/// Number of piece kinds.
pub const BLOCK_KINDS: usize = 7;

/// Points awarded for every spawned piece.
pub const SPAWN_BONUS: u32 = 5;

/// Points awarded for every cleared row.
pub const LINE_BONUS: u32 = 100;

/// Fall interval at the start of a game, in milliseconds.
pub const START_TICK: u64 = 400;

/// Fall interval while soft drop is on, in milliseconds.
pub const FAST_TICK: u64 = 100;

/// The fall interval never accelerates below this many milliseconds.
pub const TICK_FLOOR: u64 = 100;

/// Every cleared row shortens the fall interval by this many milliseconds.
pub const TICK_STEP: u64 = 10;

// Display colours, as (red, green, blue, alpha).

pub const YELLOW: (u8, u8, u8, u8) = (0xfa, 0xff, 0x00, 0xff);

pub const CYAN: (u8, u8, u8, u8) = (0x00, 0xe4, 0xff, 0xff);

pub const RED: (u8, u8, u8, u8) = (0xf6, 0x00, 0x00, 0xff);

pub const GREEN: (u8, u8, u8, u8) = (0x69, 0xb6, 0x25, 0xff);

pub const ORANGE: (u8, u8, u8, u8) = (0xff, 0x8d, 0x00, 0xff);

pub const PINK: (u8, u8, u8, u8) = (0xff, 0x51, 0xbc, 0xff);

pub const PURPLE: (u8, u8, u8, u8) = (0x9f, 0x00, 0x96, 0xff);

pub const BLACK: (u8, u8, u8, u8) = (0x00, 0x00, 0x00, 0xff);

// Spawn cells of each piece kind, as (column, row), all inside the buffer.

pub const IBLOCK: [(usize, usize); 4] = [(5, 0), (5, 1), (5, 2), (5, 3)];

pub const JBLOCK: [(usize, usize); 4] = [(5, 1), (5, 2), (4, 3), (5, 3)];

pub const LBLOCK: [(usize, usize); 4] = [(4, 1), (4, 2), (4, 3), (5, 3)];

pub const OBLOCK: [(usize, usize); 4] = [(4, 2), (5, 2), (4, 3), (5, 3)];

pub const SBLOCK: [(usize, usize); 4] = [(4, 1), (4, 2), (5, 2), (5, 3)];

pub const TBLOCK: [(usize, usize); 4] = [(4, 1), (4, 2), (5, 2), (4, 3)];

pub const ZBLOCK: [(usize, usize); 4] = [(5, 1), (4, 2), (5, 2), (4, 3)];

// Rotation centre of each piece kind at spawn; always one of its cells.

pub const IORIGIN: (usize, usize) = (5, 2);

pub const JORIGIN: (usize, usize) = (5, 2);

pub const LORIGIN: (usize, usize) = (4, 2);

pub const OORIGIN: (usize, usize) = (4, 3);

pub const SORIGIN: (usize, usize) = (5, 2);

pub const TORIGIN: (usize, usize) = (4, 2);

pub const ZORIGIN: (usize, usize) = (5, 2);

} // verus!
