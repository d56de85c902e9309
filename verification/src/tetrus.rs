//! The data of the game: cells, blocks, piece kinds and the board state.

use vstd::prelude::*;
use rand::rngs::ThreadRng;
use crate::board::{
    blocks_of, first_full_row, free_cell, lemma_clear_row_shrinks, quickened, row_full,
    step_towards, translate, turn, turned_x, turned_y, Board,
};
use crate::color::Color;
use crate::constants::{
    BLACK, BLOCK_KINDS, BUFFER_ROWS, CYAN, FAST_TICK, GREEN, GRID_HEIGHT, GRID_WIDTH, IBLOCK,
    IORIGIN, JBLOCK, JORIGIN, LBLOCK, LINE_BONUS, LORIGIN, OBLOCK, OORIGIN, ORANGE, PINK,
    PURPLE, RED, SBLOCK, SORIGIN, SPAWN_BONUS, START_TICK, TBLOCK, TICK_FLOOR, TICK_STEP,
    TORIGIN, YELLOW, ZBLOCK, ZORIGIN,
};
use crate::grid::{
    all_distinct, clear_of, count_row, neighbour, occupies, on_board, stepped, turn_cell,
    without_row,
};
use crate::laws::{
    fallen_by, lemma_cleared_wf, lemma_fallen_wf, lemma_full_row_found, lemma_locked_wf,
    lemma_pivot_block, lemma_shift_down_again, lemma_shift_wf, lemma_spawned_wf,
    lemma_turned_wf, lemma_unblocked,
};
use crate::random::draw_below;

verus! {

/// What a player can ask of the falling piece.
#[derive(Clone, Copy, Debug, PartialEq, Eq, Structural)]
pub enum Movement {
    Left,
    Right,
    Drop,
    Rotate,
}

/// A side on which the falling piece can be obstructed.
#[derive(Clone, Copy, Debug, PartialEq, Eq, Structural)]
pub enum Collision {
    Left,
    Right,
    Down,
}

/// The seven piece kinds.
#[derive(Clone, Copy, Debug, PartialEq, Eq, Structural)]
pub enum BlockType {
    I,
    J,
    L,
    O,
    S,
    T,
    Z,
}

/// A cell of the board: column `x`, row `y`, row 0 at the top.
#[derive(Clone, Copy, Debug, PartialEq, Eq, Structural)]
pub struct Position {
    pub x: usize,
    pub y: usize,
}

/// One cell of a piece, with the colour it is drawn in.
#[derive(Clone, Copy, Debug, PartialEq, Eq, Structural)]
pub struct Block {
    pub position: Position,
    pub color: Color,
}

/// The state of one game.
///
/// `tick` is the normal fall interval and `fast_tick` the soft-drop
/// interval, both in milliseconds; `fast` says which of the two is in
/// force.  `origin` is the rotation centre of the falling piece and means
/// nothing while no piece is falling.
pub struct Tetrus {
    pub active: Vec<Block>,
    pub inactive: Vec<Block>,
    pub origin: Position,
    pub block_id: BlockType,
    pub tick: u64,
    pub fast_tick: u64,
    pub fast: bool,
    pub score: u32,
    pub rng: ThreadRng,
}

impl Position {
    /// The cell at column `pos.0`, row `pos.1`.
    pub open spec fn of(pos: (usize, usize)) -> Position {
        Position { x: pos.0, y: pos.1 }
    }

    /// The cell at column `pos.0`, row `pos.1`.
    pub fn new(pos: (usize, usize)) -> (p: Self)
        ensures
            p == Position::of(pos),
    {
        Position { x: pos.0, y: pos.1 }
    }
}

impl Default for Position {
    fn default() -> (p: Self)
        ensures
            p == Position::of((0, 0)),
    {
        Position { x: 0, y: 0 }
    }
}

impl Default for Block {
    fn default() -> (b: Self)
        ensures
            b.position == Position::of((0, 0)),
            b.color == Color::of(BLACK),
    {
        Block { position: Position::default(), color: Color::new(BLACK) }
    }
}

impl BlockType {
    /// The four cells a piece of this kind occupies when it spawns.
    pub open spec fn spawn_cells(self) -> [(usize, usize); 4] {
        match self {
            BlockType::I => IBLOCK,
            BlockType::J => JBLOCK,
            BlockType::L => LBLOCK,
            BlockType::O => OBLOCK,
            BlockType::S => SBLOCK,
            BlockType::T => TBLOCK,
            BlockType::Z => ZBLOCK,
        }
    }

    /// The rotation centre of a piece of this kind when it spawns.
    pub open spec fn spawn_origin(self) -> (usize, usize) {
        match self {
            BlockType::I => IORIGIN,
            BlockType::J => JORIGIN,
            BlockType::L => LORIGIN,
            BlockType::O => OORIGIN,
            BlockType::S => SORIGIN,
            BlockType::T => TORIGIN,
            BlockType::Z => ZORIGIN,
        }
    }

    /// The colour pieces of this kind are drawn in.
    pub open spec fn rgba(self) -> (u8, u8, u8, u8) {
        match self {
            BlockType::I => CYAN,
            BlockType::J => PINK,
            BlockType::L => ORANGE,
            BlockType::O => YELLOW,
            BlockType::S => RED,
            BlockType::T => PURPLE,
            BlockType::Z => GREEN,
        }
    }

    /// The kind that the selector `index` stands for, counting the kinds
    /// from 0 in the order I, J, L, O, S, T, Z.
    pub open spec fn of_index(index: int) -> BlockType {
        if index == 0 {
            BlockType::I
        } else if index == 1 {
            BlockType::J
        } else if index == 2 {
            BlockType::L
        } else if index == 3 {
            BlockType::O
        } else if index == 4 {
            BlockType::S
        } else if index == 5 {
            BlockType::T
        } else {
            BlockType::Z
        }
    }

    /// The kind that the selector `index` stands for.
    pub fn from_index(index: usize) -> (id: Self)
        requires
            index < BLOCK_KINDS,
        ensures
            id == BlockType::of_index(index as int),
    {
        if index == 0 {
            BlockType::I
        } else if index == 1 {
            BlockType::J
        } else if index == 2 {
            BlockType::L
        } else if index == 3 {
            BlockType::O
        } else if index == 4 {
            BlockType::S
        } else if index == 5 {
            BlockType::T
        } else {
            BlockType::Z
        }
    }

    /// The four cells a piece of this kind occupies when it spawns.
    pub fn blocks(self) -> (cells: [(usize, usize); 4])
        ensures
            cells == self.spawn_cells(),
    {
        match self {
            BlockType::I => IBLOCK,
            BlockType::J => JBLOCK,
            BlockType::L => LBLOCK,
            BlockType::O => OBLOCK,
            BlockType::S => SBLOCK,
            BlockType::T => TBLOCK,
            BlockType::Z => ZBLOCK,
        }
    }

    /// The rotation centre of a piece of this kind when it spawns.
    pub fn origin(self) -> (pivot: (usize, usize))
        ensures
            pivot == self.spawn_origin(),
    {
        match self {
            BlockType::I => IORIGIN,
            BlockType::J => JORIGIN,
            BlockType::L => LORIGIN,
            BlockType::O => OORIGIN,
            BlockType::S => SORIGIN,
            BlockType::T => TORIGIN,
            BlockType::Z => ZORIGIN,
        }
    }

    /// The colour pieces of this kind are drawn in.
    pub fn color(self) -> (color: Color)
        ensures
            color == Color::of(self.rgba()),
    {
        match self {
            BlockType::I => Color::new(CYAN),
            BlockType::J => Color::new(PINK),
            BlockType::L => Color::new(ORANGE),
            BlockType::O => Color::new(YELLOW),
            BlockType::S => Color::new(RED),
            BlockType::T => Color::new(PURPLE),
            BlockType::Z => Color::new(GREEN),
        }
    }
}

impl Tetrus {
    /// A fresh game: an empty board, no points, the starting fall
    /// interval, soft drop off.
    pub fn new() -> (game: Self)
        ensures
            game@ == Board::start(),
            game@.wf(),
    {
        Tetrus {
            active: Vec::new(),
            inactive: Vec::new(),
            origin: Position::new((0, 0)),
            block_id: BlockType::I,
            tick: START_TICK,
            fast_tick: FAST_TICK,
            fast: false,
            score: 0,
            rng: rand::thread_rng(),
        }
    }

    /// Whether a piece is falling.
    pub fn is_active(&self) -> (active: bool)
        ensures
            active == self@.is_active(),
    {
        if self.active.is_empty() {
            return false;
        }
        true
    }

    /// Whether the game is over: a locked block lies in the hidden rows.
    pub fn is_game_over(&self) -> (over: bool)
        ensures
            over == self@.game_over(),
    {
        let mut i: usize = 0;
        while i < self.inactive.len()
            invariant
                i <= self.inactive.len(),
                forall|k: int|
                    #![trigger self.inactive@[k]]
                    0 <= k < i ==> self.inactive@[k].position.y >= BUFFER_ROWS,
            decreases self.inactive.len() - i,
        {
            if self.inactive[i].position.y < BUFFER_ROWS {
                assert(self@.inactive[i as int].position.y < BUFFER_ROWS);
                return true;
            }
            i += 1;
        }
        false
    }

    /// The points scored so far.
    pub fn score(&self) -> (points: u32)
        ensures
            points == self@.score,
    {
        self.score
    }

    /// The fall interval in force, in milliseconds: the soft-drop interval
    /// while soft drop is on, the normal interval otherwise.
    pub fn tick_interval(&self) -> (millis: u64)
        ensures
            millis == self@.tick_interval(),
    {
        if self.fast {
            self.fast_tick
        } else {
            self.tick
        }
    }

    /// Whether the board is well formed: the falling piece has four
    /// blocks or none, every block lies on the board, no two blocks share
    /// a cell, and the rotation centre of a falling piece is one of its
    /// cells.
    pub fn is_well_formed(&self) -> (valid: bool)
        ensures
            valid == self@.wf(),
    {
        (self.active.len() == 0 || self.active.len() == 4) && on_board(&self.active)
            && on_board(&self.inactive) && all_distinct(&self.active) && all_distinct(
            &self.inactive,
        ) && clear_of(&self.active, &self.inactive) && (self.active.len() == 0 || occupies(
            &self.active,
            self.origin,
        ))
    }

    /// Switches soft drop on if it is off, and off if it is on.  Neither
    /// fall interval changes.
    pub fn swap_tick(&mut self)
        ensures
            final(self)@ == old(self)@.toggled(),
            final(self).rng == old(self).rng,
    {
        self.fast = !self.fast;
    }

    /// Adds four falling blocks at `blocks`, in `color`, and makes `id` the
    /// kind of the falling piece, with the rotation centre of that kind.
    pub fn create_block(&mut self, color: Color, blocks: [(usize, usize); 4], id: BlockType)
        ensures
            final(self)@ == old(self)@.with_piece(color, blocks@, id),
            final(self).rng == old(self).rng,
    {
        let ghost before = self@;
        let mut i: usize = 0;
        while i < 4
            invariant
                before == old(self)@,
                self.rng == old(self).rng,
                i <= 4,
                self@ == (Board { active: self@.active, ..before }),
                self.active@ == before.active + blocks_of(blocks@, color).take(i as int),
            decreases 4 - i,
        {
            let position = Position::new(blocks[i]);
            self.active.push(Block { position, color });
            proof {
                assert(self.active@ =~= before.active + blocks_of(blocks@, color).take(i + 1));
            }
            i += 1;
        }
        self.block_id = id;
        self.origin = Position::new(id.origin());
        proof {
            assert(blocks_of(blocks@, color).take(4) =~= blocks_of(blocks@, color));
        }
    }

    /// Makes a piece of kind `id` the falling piece, at the spawn cells of
    /// its kind, and scores `SPAWN_BONUS` points.  The board stays well
    /// formed unless the game is over, when a locked block may already
    /// hold a spawn cell.
    pub fn spawn_kind(&mut self, id: BlockType)
        requires
            !old(self)@.is_active(),
            old(self)@.score + SPAWN_BONUS <= u32::MAX,
        ensures
            final(self)@ == old(self)@.spawned(id),
            old(self)@.wf() && !old(self)@.game_over() ==> final(self)@.wf(),
            final(self).rng == old(self).rng,
    {
        proof {
            if self@.wf() && !self@.game_over() {
                lemma_spawned_wf(self@, id);
            }
        }
        self.create_block(id.color(), id.blocks(), id);
        self.score += SPAWN_BONUS;
    }

    /// Makes a piece of a kind drawn at random the falling piece, and
    /// scores `SPAWN_BONUS` points.  Whatever kind is drawn, the board is
    /// the one that spawning a piece of that kind gives.
    pub fn spawn_block(&mut self)
        requires
            !old(self)@.is_active(),
            old(self)@.score + SPAWN_BONUS <= u32::MAX,
        ensures
            final(self)@ == old(self)@.spawned(final(self).block_id),
            old(self)@.wf() && !old(self)@.game_over() ==> final(self)@.wf(),
    {
        let index = draw_below(&mut self.rng, BLOCK_KINDS);
        self.spawn_kind(BlockType::from_index(index));
    }

    /// Whether the falling piece is obstructed on the side `collision`: the
    /// neighbour of one of its cells on that side is off the board or held
    /// by a locked block.  The board is not touched.
    pub fn check_collision(&self, collision: Collision) -> (hit: bool)
        ensures
            hit == self@.blocked(collision),
    {
        let mut i: usize = 0;
        while i < self.active.len()
            invariant
                i <= self.active.len(),
                forall|k: int|
                    #![trigger self.active@[k]]
                    0 <= k < i ==> free_cell(
                        self.inactive@,
                        self.active@[k].position.x + step_towards(collision).0,
                        self.active@[k].position.y + step_towards(collision).1,
                    ),
            decreases self.active.len() - i,
        {
            let ghost at = self@.active[i as int];
            match neighbour(self.active[i].position, collision) {
                None => {
                    assert(self@.blocked(collision)) by {
                        assert(at == self.active@[i as int]);
                    }
                    return true;
                },
                Some(cell) => {
                    if occupies(&self.inactive, cell) {
                        assert(self@.blocked(collision)) by {
                            assert(at == self.active@[i as int]);
                        }
                        return true;
                    }
                },
            }
            i += 1;
        }
        false
    }

    /// Carries the falling piece and its rotation centre one cell towards
    /// `side`, where nothing stands in the way.
    fn slide(&mut self, side: Collision)
        requires
            old(self)@.wf(),
            old(self)@.is_active(),
            !old(self)@.blocked(side),
        ensures
            final(self)@ == old(self)@.shift(step_towards(side).0, step_towards(side).1),
            final(self)@.wf(),
            final(self).rng == old(self).rng,
    {
        let ghost before = self@;
        let mut carried: Vec<Block> = Vec::new();
        let mut i: usize = 0;
        while i < self.active.len()
            invariant
                self@ == before,
                !before.blocked(side),
                i <= self.active.len(),
                carried.len() == i,
                forall|k: int|
                    #![trigger carried@[k]]
                    0 <= k < i ==> carried@[k] == translate(
                        before.active[k],
                        step_towards(side).0,
                        step_towards(side).1,
                    ),
            decreases self.active.len() - i,
        {
            let block = self.active[i];
            proof {
                lemma_unblocked(before, side, i as int);
            }
            carried.push(Block { position: stepped(block.position, side), color: block.color });
            i += 1;
        }
        proof {
            lemma_shift_wf(before, side);
            let k = choose|k: int|
                #![trigger before.active[k]]
                0 <= k < before.active.len() && before.active[k].position.x == before.origin.x
                    && before.active[k].position.y == before.origin.y;
            lemma_unblocked(before, side, k);
        }
        self.origin = stepped(self.origin, side);
        self.active = carried;
        proof {
            let after = before.shift(step_towards(side).0, step_towards(side).1);
            assert(self@.active =~= after.active);
            assert(self@ == after);
        }
    }

    /// Lets the falling piece fall one row, where nothing stands in the
    /// way below.
    pub fn move_active(&mut self)
        requires
            old(self)@.wf(),
            old(self)@.is_active(),
            !old(self)@.blocked(Collision::Down),
        ensures
            final(self)@ == old(self)@.shift(0, 1),
            final(self)@.wf(),
            final(self).rng == old(self).rng,
    {
        self.slide(Collision::Down);
    }

    /// Turns the falling piece a quarter turn about its rotation centre,
    /// all four cells or none: if one of the turned cells would leave the
    /// board or land on a locked block, the board stays as it is.
    pub fn rotate_block(&mut self)
        requires
            old(self)@.wf(),
        ensures
            final(self)@ == old(self)@.turned(),
            final(self)@.wf(),
            final(self).rng == old(self).rng,
    {
        let ghost before = self@;
        let mut active_rotated: Vec<Block> = Vec::new();
        let mut i: usize = 0;
        while i < self.active.len()
            invariant
                self@ == before,
                before.wf(),
                i <= self.active.len(),
                active_rotated.len() == i,
                forall|k: int|
                    #![trigger before.active[k]]
                    0 <= k < i ==> free_cell(
                        before.inactive,
                        turned_x(before.origin, before.active[k].position),
                        turned_y(before.origin, before.active[k].position),
                    ),
                forall|k: int|
                    #![trigger active_rotated@[k]]
                    0 <= k < i ==> active_rotated@[k] == turn(before.origin, before.active[k]),
            decreases self.active.len() - i,
        {
            let block = self.active[i];
            proof {
                let k = lemma_pivot_block(before);
                assert(before.active[i as int] == block);
            }
            match turn_cell(self.origin, block.position) {
                None => {
                    assert(!before.can_turn()) by {
                        assert(before.active[i as int] == block);
                    }
                    return ;
                },
                Some(cell) => {
                    if occupies(&self.inactive, cell) {
                        assert(!before.can_turn()) by {
                            assert(before.active[i as int] == block);
                        }
                        return ;
                    }
                    active_rotated.push(Block { position: cell, color: block.color });
                },
            }
            i += 1;
        }
        self.active = active_rotated;
        proof {
            lemma_turned_wf(before);
            assert(before.can_turn());
            assert(self@.active =~= before.turned().active);
            assert(self@ == before.turned());
        }
    }

    /// Carries out the player's request `direction` on the falling piece.
    ///
    /// `Left` and `Right` move the piece one column unless it is
    /// obstructed on that side.  `Drop` lets it fall until it is obstructed
    /// below, and leaves it falling: the next tick locks it.  `Rotate`
    /// turns every piece but the O a quarter turn, or not at all.  A
    /// request that cannot be met leaves the board as it is, and so does
    /// any request while no piece is falling.
    pub fn player_move(&mut self, direction: Movement)
        requires
            old(self)@.wf(),
        ensures
            final(self)@ == old(self)@.moved(direction),
            final(self)@.wf(),
            final(self).rng == old(self).rng,
    {
        let ghost before = self@;
        if !self.is_active() {
            return ;
        }
        match direction {
            Movement::Left => {
                if !self.check_collision(Collision::Left) {
                    self.slide(Collision::Left);
                }
            },
            Movement::Right => {
                if !self.check_collision(Collision::Right) {
                    self.slide(Collision::Right);
                }
            },
            Movement::Drop => {
                let ghost mut rows: nat = 0;
                proof {
                    assert(before.shift(0, 0).active =~= before.active);
                    let k = lemma_pivot_block(before);
                }
                while !self.check_collision(Collision::Down)
                    invariant
                        before.is_active(),
                        self@ == before.shift(0, rows as int),
                        self@.wf(),
                        fallen_by(before, rows),
                        self.rng == old(self).rng,
                        rows + self@.fall_distance() == before.fall_distance(),
                    decreases self@.fall_distance(),
                {
                    proof {
                        let here = self@;
                        lemma_shift_down_again(before, rows);
                        assert forall|i: int| 0 <= i < before.active.len() implies
                            #[trigger] before.active[i].position.y + rows + 1
                            < GRID_HEIGHT by {
                            lemma_unblocked(here, Collision::Down, i);
                        }
                        let k = lemma_pivot_block(here);
                        lemma_unblocked(here, Collision::Down, k);
                    }
                    self.move_active();
                    proof {
                        rows = rows + 1;
                    }
                }
            },
            Movement::Rotate => {
                if self.block_id != BlockType::O {
                    self.rotate_block();
                }
            },
        }
    }

    /// Locks the falling piece: its blocks leave the active set for the
    /// pile, the last one first.
    pub fn change_status(&mut self)
        ensures
            final(self)@ == old(self)@.locked(),
            old(self)@.wf() ==> final(self)@.wf(),
            final(self).rng == old(self).rng,
    {
        let ghost before = self@;
        while self.active.len() > 0
            invariant
                before == old(self)@,
                self.rng == old(self).rng,
                self@ == (Board { active: self@.active, inactive: self@.inactive, ..before }),
                self.active.len() <= before.active.len(),
                self.active@ == before.active.take(self.active.len() as int),
                self.inactive@ == before.inactive + before.active.skip(
                    self.active.len() as int,
                ).reverse(),
            decreases self.active.len(),
        {
            let ghost left = self.active.len() as int;
            let block = self.active.pop().unwrap();
            self.inactive.push(block);
            proof {
                assert(self.active@ =~= before.active.take(left - 1));
                assert(self.inactive@ =~= before.inactive + before.active.skip(
                    left - 1,
                ).reverse());
            }
        }
        proof {
            assert(self@.active =~= before.locked().active);
            assert(self@.inactive =~= before.locked().inactive);
            if before.wf() {
                lemma_locked_wf(before);
            }
        }
    }

    /// Clears the topmost full visible row, if there is one, and says
    /// whether it did: the blocks of that row go, the blocks above it sink
    /// by one row, the blocks below it stay.
    pub fn check_clear(&mut self) -> (cleared: bool)
        ensures
            cleared == (first_full_row(old(self)@.inactive) < GRID_HEIGHT),
            final(self)@ == old(self)@.cleared(),
            cleared ==> final(self)@.inactive.len() + GRID_WIDTH == old(self)@.inactive.len(),
            old(self)@.wf() && !old(self)@.is_active() ==> final(self)@.wf(),
            final(self).rng == old(self).rng,
    {
        let ghost before = self@;
        let mut i: usize = BUFFER_ROWS;
        while i < GRID_HEIGHT
            invariant
                before == old(self)@,
                self@ == before,
                self.rng == old(self).rng,
                BUFFER_ROWS <= i <= GRID_HEIGHT,
                forall|r: int| BUFFER_ROWS <= r < i ==> !row_full(before.inactive, r),
            decreases GRID_HEIGHT - i,
        {
            let count = count_row(&self.inactive, i);
            if count == GRID_WIDTH {
                proof {
                    assert(row_full(before.inactive, i as int));
                    lemma_full_row_found(before.inactive, BUFFER_ROWS as int, i as int);
                    lemma_clear_row_shrinks(before.inactive, i as int);
                    if before.wf() && !before.is_active() {
                        lemma_cleared_wf(before);
                    }
                }
                self.inactive = without_row(&self.inactive, i);
                assert(self@ == before.cleared());
                return true;
            }
            i += 1;
        }
        proof {
            lemma_full_row_found(before.inactive, BUFFER_ROWS as int, GRID_HEIGHT as int);
        }
        false
    }

    /// Shortens the normal fall interval for one cleared row: by
    /// `TICK_STEP`, but not below `TICK_FLOOR`; an interval already under
    /// the floor stays as it is.
    pub fn update_tick(&mut self)
        ensures
            final(self)@ == (Board { tick: quickened(old(self)@.tick, 1), ..old(self)@ }),
            final(self).rng == old(self).rng,
    {
        if self.tick >= TICK_FLOOR {
            if self.tick - TICK_FLOOR >= TICK_STEP {
                self.tick -= TICK_STEP;
            } else {
                self.tick = TICK_FLOOR;
            }
        }
    }

    /// Lets gravity act on the falling piece.  A piece that can fall falls
    /// one row.  A piece that cannot locks; then full visible rows are
    /// cleared one at a time, topmost first, until none is left, and every
    /// cleared row scores `LINE_BONUS` points and shortens the fall
    /// interval.
    pub fn update_active(&mut self)
        requires
            old(self)@.wf(),
            old(self)@.is_active(),
            old(self)@.fallen().score <= u32::MAX,
        ensures
            final(self)@ == old(self)@.fallen(),
            final(self)@.wf(),
            final(self).rng == old(self).rng,
    {
        let ghost before = self@;
        if !self.check_collision(Collision::Down) {
            self.move_active();
        } else {
            self.change_status();
            while self.check_clear()
                invariant
                    before == old(self)@,
                    self.rng == old(self).rng,
                    self@.wf(),
                    !self@.is_active(),
                    self@.settled() == before.fallen(),
                    before.fallen().score <= u32::MAX,
                decreases self.inactive.len(),
            {
                self.update_tick();
                self.score += LINE_BONUS;
            }
            proof {
                lemma_fallen_wf(before);
            }
        }
    }

    /// One tick of the game clock: a board without a falling piece gets
    /// one, of a kind drawn at random; on any other, gravity acts on the
    /// falling piece.
    pub fn tick(&mut self)
        requires
            old(self)@.wf(),
            old(self)@.tick_score() <= u32::MAX,
        ensures
            final(self)@ == old(self)@.ticked(final(self).block_id),
            old(self)@.is_active() || !old(self)@.game_over() ==> final(self)@.wf(),
    {
        if !self.is_active() {
            self.spawn_block();
        } else {
            self.update_active();
        }
    }
}

} // verus!
