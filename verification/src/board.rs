//! The mathematical model of the game: what a board is, when it is
//! well formed, and what each rule makes of it.

use vstd::prelude::*;
use crate::color::Color;
use crate::constants::{
    BUFFER_ROWS, FAST_TICK, GRID_HEIGHT, GRID_WIDTH, LINE_BONUS, SPAWN_BONUS, START_TICK,
    TICK_FLOOR, TICK_STEP,
};
use crate::tetrus::{Block, BlockType, Collision, Movement, Position, Tetrus};

verus! {

/// A board as the rules see it.
pub struct Board {
    /// The cells of the falling piece; empty while none is falling.
    pub active: Seq<Block>,
    /// The pile of locked cells.
    pub inactive: Seq<Block>,
    /// The rotation centre of the falling piece.
    pub origin: Position,
    /// The kind of the falling piece.
    pub block_id: BlockType,
    /// The normal fall interval, in milliseconds.
    pub tick: nat,
    /// The soft-drop fall interval, in milliseconds.
    pub fast_tick: nat,
    /// Whether soft drop is on.
    pub fast: bool,
    /// The points scored so far.
    pub score: nat,
}

impl View for Tetrus {
    type V = Board;

    open spec fn view(&self) -> Board {
        Board {
            active: self.active@,
            inactive: self.inactive@,
            origin: self.origin,
            block_id: self.block_id,
            tick: self.tick as nat,
            fast_tick: self.fast_tick as nat,
            fast: self.fast,
            score: self.score as nat,
        }
    }
}

/// Some block of `blocks` sits at column `x`, row `y`.
pub open spec fn holds(blocks: Seq<Block>, x: int, y: int) -> bool {
    exists|i: int|
        #![trigger blocks[i]]
        0 <= i < blocks.len() && blocks[i].position.x == x && blocks[i].position.y == y
}

/// Column `x`, row `y` is a cell of the board that no block of `pile` holds.
pub open spec fn free_cell(pile: Seq<Block>, x: int, y: int) -> bool {
    0 <= x < GRID_WIDTH && 0 <= y < GRID_HEIGHT && !holds(pile, x, y)
}

/// Every block of `blocks` lies on the board.
pub open spec fn within_board(blocks: Seq<Block>) -> bool {
    forall|i: int|
        #![trigger blocks[i]]
        0 <= i < blocks.len() ==> blocks[i].position.x < GRID_WIDTH && blocks[i].position.y
            < GRID_HEIGHT
}

/// No two blocks of `blocks` share a cell.
pub open spec fn distinct_cells(blocks: Seq<Block>) -> bool {
    forall|i: int, j: int|
        #![trigger blocks[i], blocks[j]]
        0 <= i < j < blocks.len() ==> blocks[i].position != blocks[j].position
}

/// No block of `a` shares a cell with a block of `b`.
pub open spec fn apart(a: Seq<Block>, b: Seq<Block>) -> bool {
    forall|i: int, j: int|
        #![trigger a[i], b[j]]
        0 <= i < a.len() && 0 <= j < b.len() ==> a[i].position != b[j].position
}

/// The block `b` carried `dx` columns to the right and `dy` rows down.
pub open spec fn translate(b: Block, dx: int, dy: int) -> Block {
    Block {
        position: Position { x: (b.position.x + dx) as usize, y: (b.position.y + dy) as usize },
        color: b.color,
    }
}

/// Every block of `blocks` carried `dx` columns to the right and `dy` rows
/// down, in the same order.
pub open spec fn shifted(blocks: Seq<Block>, dx: int, dy: int) -> Seq<Block> {
    Seq::new(blocks.len(), |i: int| translate(blocks[i], dx, dy))
}

/// The column that `p` reaches by a quarter turn about `pivot`: with the
/// offsets `(dx, dy) = (pivot.x - p.x, pivot.y - p.y)`, the turned cell is
/// `pivot + (dy, -dx)`.
pub open spec fn turned_x(pivot: Position, p: Position) -> int {
    pivot.x + (pivot.y - p.y)
}

/// The row that `p` reaches by a quarter turn about `pivot`.
pub open spec fn turned_y(pivot: Position, p: Position) -> int {
    pivot.y - (pivot.x - p.x)
}

/// The block `b` after a quarter turn about `pivot`.
pub open spec fn turn(pivot: Position, b: Block) -> Block {
    Block {
        position: Position {
            x: turned_x(pivot, b.position) as usize,
            y: turned_y(pivot, b.position) as usize,
        },
        color: b.color,
    }
}

/// The column and row by which a piece moves when it yields to `side`.
pub open spec fn step_towards(side: Collision) -> (int, int) {
    match side {
        Collision::Left => (-1, 0),
        Collision::Right => (1, 0),
        Collision::Down => (0, 1),
    }
}

/// The blocks that `cells` and `color` describe, in the same order.
pub open spec fn blocks_of(cells: Seq<(usize, usize)>, color: Color) -> Seq<Block> {
    Seq::new(cells.len(), |i: int| Block { position: Position::of(cells[i]), color })
}

/// The test that picks the blocks in row `row`.
pub open spec fn in_row(row: int) -> spec_fn(Block) -> bool {
    |b: Block| b.position.y == row
}

/// The test that picks the blocks outside row `row`.
pub open spec fn off_row(row: int) -> spec_fn(Block) -> bool {
    |b: Block| b.position.y != row
}

/// What becomes of a block when row `row` below it vanishes: a block above
/// the row sinks by one, any other stays.
pub open spec fn sink_onto(row: int) -> spec_fn(Block) -> Block {
    |b: Block| if b.position.y < row { translate(b, 0, 1) } else { b }
}

/// The number of blocks of `pile` in row `row`.
pub open spec fn row_count(pile: Seq<Block>, row: int) -> nat {
    pile.filter(in_row(row)).len()
}

/// Row `row` of `pile` holds as many blocks as the board has columns.
pub open spec fn row_full(pile: Seq<Block>, row: int) -> bool {
    row_count(pile, row) == GRID_WIDTH
}

/// The first full row of `pile` among the rows `from..GRID_HEIGHT`, or
/// `GRID_HEIGHT` if none of them is full.
pub open spec fn full_row_from(pile: Seq<Block>, from: int) -> int
    decreases GRID_HEIGHT - from,
{
    if from >= GRID_HEIGHT {
        GRID_HEIGHT as int
    } else if row_full(pile, from) {
        from
    } else {
        full_row_from(pile, from + 1)
    }
}

/// The topmost full visible row of `pile`, or `GRID_HEIGHT` if no visible
/// row is full.
pub open spec fn first_full_row(pile: Seq<Block>) -> int {
    full_row_from(pile, BUFFER_ROWS as int)
}

/// `pile` without the blocks of row `row`, the blocks above that row sunk
/// by one, the order of the blocks kept.
pub open spec fn clear_row(pile: Seq<Block>, row: int) -> Seq<Block> {
    pile.filter(off_row(row)).map_values(sink_onto(row))
}

/// The fall interval after `rows` rows were cleared, one after another,
/// starting from `tick`: each row takes `TICK_STEP` off an interval that
/// has not fallen under `TICK_FLOOR`, and never takes it below the floor.
pub open spec fn quickened(tick: nat, rows: nat) -> nat {
    if tick < TICK_FLOOR {
        tick
    } else if tick - rows * TICK_STEP >= TICK_FLOOR {
        (tick - rows * TICK_STEP) as nat
    } else {
        TICK_FLOOR as nat
    }
}

/// The number of rows that clearing takes off `pile`: the topmost full
/// visible row goes, then the topmost full visible row of what is left,
/// until no visible row is full.
pub open spec fn clears(pile: Seq<Block>) -> nat
    decreases pile.len(),
    via clearing_ends
{
    if first_full_row(pile) < GRID_HEIGHT {
        1 + clears(clear_row(pile, first_full_row(pile)))
    } else {
        0
    }
}

/// What clearing leaves of `pile`.
pub open spec fn settle(pile: Seq<Block>) -> Seq<Block>
    decreases pile.len(),
    via settling_ends
{
    if first_full_row(pile) < GRID_HEIGHT {
        settle(clear_row(pile, first_full_row(pile)))
    } else {
        pile
    }
}

#[via_fn]
proof fn clearing_ends(pile: Seq<Block>) {
    if first_full_row(pile) < GRID_HEIGHT {
        lemma_full_row_from(pile, BUFFER_ROWS as int);
        lemma_clear_row_shrinks(pile, first_full_row(pile));
    }
}

#[via_fn]
proof fn settling_ends(pile: Seq<Block>) {
    if first_full_row(pile) < GRID_HEIGHT {
        lemma_full_row_from(pile, BUFFER_ROWS as int);
        lemma_clear_row_shrinks(pile, first_full_row(pile));
    }
}

impl Board {
    /// The board a game starts from: empty, no points, the starting fall
    /// interval, soft drop off.
    pub open spec fn start() -> Board {
        Board {
            active: Seq::empty(),
            inactive: Seq::empty(),
            origin: Position { x: 0, y: 0 },
            block_id: BlockType::I,
            tick: START_TICK as nat,
            fast_tick: FAST_TICK as nat,
            fast: false,
            score: 0,
        }
    }

    /// The invariant of the game: the falling piece has four cells or
    /// none, every block lies on the board, no two blocks share a cell,
    /// and the rotation centre of a falling piece is one of its cells.
    pub open spec fn wf(self) -> bool {
        &&& self.active.len() == 0 || self.active.len() == 4
        &&& within_board(self.active)
        &&& within_board(self.inactive)
        &&& distinct_cells(self.active)
        &&& distinct_cells(self.inactive)
        &&& apart(self.active, self.inactive)
        &&& self.active.len() > 0 ==> holds(
            self.active,
            self.origin.x as int,
            self.origin.y as int,
        )
    }

    /// A piece is falling.
    pub open spec fn is_active(self) -> bool {
        self.active.len() > 0
    }

    /// A locked block lies in the hidden rows.
    pub open spec fn game_over(self) -> bool {
        exists|i: int|
            #![trigger self.inactive[i]]
            0 <= i < self.inactive.len() && self.inactive[i].position.y < BUFFER_ROWS
    }

    /// The fall interval in force.
    pub open spec fn tick_interval(self) -> nat {
        if self.fast {
            self.fast_tick
        } else {
            self.tick
        }
    }

    /// The board with soft drop switched: on if it was off, off if it was
    /// on.  Neither fall interval changes.
    pub open spec fn toggled(self) -> Board {
        Board { fast: !self.fast, ..self }
    }

    /// The falling piece cannot yield to `side`: the neighbour of one of
    /// its cells on that side is off the board or held by the pile.
    pub open spec fn blocked(self, side: Collision) -> bool {
        exists|i: int|
            #![trigger self.active[i]]
            0 <= i < self.active.len() && !free_cell(
                self.inactive,
                self.active[i].position.x + step_towards(side).0,
                self.active[i].position.y + step_towards(side).1,
            )
    }

    /// The board with the falling piece and its rotation centre carried
    /// `dx` columns to the right and `dy` rows down.
    pub open spec fn shift(self, dx: int, dy: int) -> Board {
        Board {
            active: shifted(self.active, dx, dy),
            origin: Position {
                x: (self.origin.x + dx) as usize,
                y: (self.origin.y + dy) as usize,
            },
            ..self
        }
    }

    /// The number of rows the falling piece can fall before it is blocked
    /// below.
    pub open spec fn fall_distance(self) -> nat
        decreases GRID_HEIGHT - self.active[0].position.y,
    {
        if self.active.len() == 0 || self.blocked(Collision::Down) {
            0
        } else {
            1 + self.shift(0, 1).fall_distance()
        }
    }

    /// Every cell of the falling piece can make a quarter turn about the
    /// rotation centre: it lands on the board and on no block of the pile.
    pub open spec fn can_turn(self) -> bool {
        forall|i: int|
            #![trigger self.active[i]]
            0 <= i < self.active.len() ==> free_cell(
                self.inactive,
                turned_x(self.origin, self.active[i].position),
                turned_y(self.origin, self.active[i].position),
            )
    }

    /// The board after a request to rotate a piece that is not an O: all
    /// four cells make a quarter turn about the rotation centre if all of
    /// them can, otherwise nothing moves.
    pub open spec fn turned(self) -> Board {
        if self.can_turn() {
            Board {
                active: Seq::new(self.active.len(), |i: int| turn(self.origin, self.active[i])),
                ..self
            }
        } else {
            self
        }
    }

    /// The board after the player's request `direction`.  A request to
    /// move sideways shifts the piece one column unless it is blocked on
    /// that side; a request to drop lets it fall as far as it can; a
    /// request to rotate turns any piece but an O.  While no piece is
    /// falling a request changes nothing.
    pub open spec fn moved(self, direction: Movement) -> Board {
        if !self.is_active() {
            self
        } else {
            match direction {
                Movement::Left => if self.blocked(Collision::Left) {
                    self
                } else {
                    self.shift(-1, 0)
                },
                Movement::Right => if self.blocked(Collision::Right) {
                    self
                } else {
                    self.shift(1, 0)
                },
                Movement::Drop => self.shift(0, self.fall_distance() as int),
                Movement::Rotate => if self.block_id == BlockType::O {
                    self
                } else {
                    self.turned()
                },
            }
        }
    }

    /// The board with four more falling blocks, at `cells` and in `color`,
    /// which make a piece of kind `id`.
    pub open spec fn with_piece(self, color: Color, cells: Seq<(usize, usize)>, id: BlockType)
        -> Board {
        Board {
            active: self.active + blocks_of(cells, color),
            origin: Position::of(id.spawn_origin()),
            block_id: id,
            ..self
        }
    }

    /// The board after a piece of kind `id` has spawned.
    pub open spec fn spawned(self, id: BlockType) -> Board {
        Board {
            score: (self.score + SPAWN_BONUS) as nat,
            ..self.with_piece(Color::of(id.rgba()), id.spawn_cells()@, id)
        }
    }

    /// The board with the falling piece locked: its blocks join the pile,
    /// the last one first.
    pub open spec fn locked(self) -> Board {
        Board {
            active: Seq::empty(),
            inactive: self.inactive + self.active.reverse(),
            ..self
        }
    }

    /// The board with the topmost full visible row cleared, if there is
    /// one.
    pub open spec fn cleared(self) -> Board {
        let row = first_full_row(self.inactive);
        if row < GRID_HEIGHT {
            Board { inactive: clear_row(self.inactive, row), ..self }
        } else {
            self
        }
    }

    /// The board with one more cleared row paid for: points, and a
    /// shorter fall interval.
    pub open spec fn rewarded(self) -> Board {
        Board { score: (self.score + LINE_BONUS) as nat, tick: quickened(self.tick, 1), ..self }
    }

    /// The board once clearing is over: full visible rows have gone one
    /// after another, topmost first, and each of them has been paid for.
    pub open spec fn settled(self) -> Board {
        let rows = clears(self.inactive);
        Board {
            inactive: settle(self.inactive),
            score: (self.score + LINE_BONUS * rows) as nat,
            tick: quickened(self.tick, rows),
            ..self
        }
    }

    /// The board after gravity has acted on a falling piece: the piece
    /// falls one row if it can; otherwise it locks and the pile settles.
    pub open spec fn fallen(self) -> Board {
        if self.blocked(Collision::Down) {
            self.locked().settled()
        } else {
            self.shift(0, 1)
        }
    }

    /// The points on the board after one tick.
    pub open spec fn tick_score(self) -> nat {
        if self.is_active() {
            self.fallen().score
        } else {
            self.score + SPAWN_BONUS as nat
        }
    }

    /// The board after one tick, if a piece of kind `id` is the one to
    /// spawn: a board without a falling piece gets one, any other feels
    /// gravity.
    pub open spec fn ticked(self, id: BlockType) -> Board {
        if self.is_active() {
            self.fallen()
        } else {
            self.spawned(id)
        }
    }
}

/// The blocks of a sequence split into those in a row and those outside it.
pub proof fn lemma_row_split(pile: Seq<Block>, row: int)
    ensures
        pile.filter(in_row(row)).len() + pile.filter(off_row(row)).len() == pile.len(),
    decreases pile.len(),
{
    reveal(Seq::filter);
    if pile.len() > 0 {
        lemma_row_split(pile.drop_last(), row);
    }
}

/// A full row found by the scan is a visible row, it is full, and no
/// scanned row before it is.
pub proof fn lemma_full_row_from(pile: Seq<Block>, from: int)
    requires
        0 <= from <= GRID_HEIGHT,
    ensures
        from <= full_row_from(pile, from) <= GRID_HEIGHT,
        full_row_from(pile, from) < GRID_HEIGHT ==> row_full(pile, full_row_from(pile, from)),
        forall|r: int| from <= r < full_row_from(pile, from) ==> !row_full(pile, r),
    decreases GRID_HEIGHT - from,
{
    if from < GRID_HEIGHT && !row_full(pile, from) {
        lemma_full_row_from(pile, from + 1);
    }
}

/// Clearing a full row leaves `GRID_WIDTH` blocks fewer.
pub proof fn lemma_clear_row_shrinks(pile: Seq<Block>, row: int)
    requires
        row_full(pile, row),
    ensures
        clear_row(pile, row).len() + GRID_WIDTH == pile.len(),
{
    lemma_row_split(pile, row);
}

} // verus!
