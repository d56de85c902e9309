//! What holds of the rules: every rule keeps a well-formed board well
//! formed, and the consequences of the rules that players rely on.

use vstd::prelude::*;
use crate::board::{
    apart, blocks_of, clear_row, clears, distinct_cells, first_full_row, free_cell,
    full_row_from, holds, lemma_clear_row_shrinks, lemma_full_row_from, off_row, quickened,
    row_full, settle, step_towards, turned_x, turned_y, within_board, Board,
};
use crate::color::Color;
use crate::constants::{BUFFER_ROWS, GRID_HEIGHT, GRID_WIDTH, LINE_BONUS};
use crate::tetrus::{Block, BlockType, Collision, Movement, Position};

verus! {

/// Carried `rows` rows down, the falling piece of `b` and its rotation
/// centre are still on the board.
pub open spec fn fallen_by(b: Board, rows: nat) -> bool {
    &&& b.origin.y + rows < GRID_HEIGHT
    &&& forall|i: int|
        #![trigger b.active[i]]
        0 <= i < b.active.len() ==> b.active[i].position.y + rows < GRID_HEIGHT
}

/// A block of the falling piece sits at the rotation centre; the lemma
/// hands back the place of one such block in the active set.
pub proof fn lemma_pivot_block(b: Board) -> (k: int)
    requires
        b.wf(),
        b.is_active(),
    ensures
        0 <= k < b.active.len(),
        b.active[k].position == b.origin,
{
    choose|k: int|
        #![trigger b.active[k]]
        0 <= k < b.active.len() && b.active[k].position.x == b.origin.x
            && b.active[k].position.y == b.origin.y
}

/// On a board whose falling piece is not blocked on `side`, the neighbour
/// of each of its cells on that side is a free cell of the board.
pub proof fn lemma_unblocked(b: Board, side: Collision, i: int)
    requires
        !b.blocked(side),
        0 <= i < b.active.len(),
    ensures
        free_cell(
            b.inactive,
            b.active[i].position.x + step_towards(side).0,
            b.active[i].position.y + step_towards(side).1,
        ),
{
}

/// The cell `p` lies on the edge of the board on `side`.
pub open spec fn at_edge(p: Position, side: Collision) -> bool {
    match side {
        Collision::Left => p.x == 0,
        Collision::Right => p.x == GRID_WIDTH - 1,
        Collision::Down => p.y == GRID_HEIGHT - 1,
    }
}

/// The cell that a locked block at `c` bars to a piece coming from the
/// far side of `side`: the cell one step from `c` against `side`, with a
/// step off the first row or column staying where it is.
pub open spec fn barred_by(c: Position, side: Collision) -> Position {
    match side {
        Collision::Left => Position { x: (c.x + 1) as usize, y: c.y },
        Collision::Right => Position {
            x: if c.x == 0 {
                0
            } else {
                (c.x - 1) as usize
            },
            y: c.y,
        },
        Collision::Down => Position {
            x: c.x,
            y: if c.y == 0 {
                0
            } else {
                (c.y - 1) as usize
            },
        },
    }
}

/// The cell `p` lies on the edge of the board on `side`, or is barred on
/// that side by a block of `pile`.
pub open spec fn touching(pile: Seq<Block>, p: Position, side: Collision) -> bool {
    at_edge(p, side) || exists|j: int|
        #![trigger pile[j]]
        0 <= j < pile.len() && barred_by(pile[j].position, side) == p
}

/// On a board whose blocks lie on the board and whose falling piece
/// shares no cell with the pile, the piece is blocked on a side exactly
/// if one of its cells lies on that edge of the board or is barred on
/// that side by a locked block.
pub proof fn lemma_blocked_is_touching(b: Board, side: Collision)
    requires
        within_board(b.active),
        within_board(b.inactive),
        apart(b.active, b.inactive),
    ensures
        b.blocked(side) <==> exists|i: int|
            #![trigger b.active[i]]
            0 <= i < b.active.len() && touching(b.inactive, b.active[i].position, side),
{
    let (dx, dy) = step_towards(side);
    assert forall|i: int| 0 <= i < b.active.len() implies (!free_cell(
        b.inactive,
        b.active[i].position.x + dx,
        b.active[i].position.y + dy,
    ) <==> touching(b.inactive, #[trigger] b.active[i].position, side)) by {
        let p = b.active[i].position;
        if touching(b.inactive, p, side) && !at_edge(p, side) {
            let j = choose|j: int|
                #![trigger b.inactive[j]]
                0 <= j < b.inactive.len() && barred_by(b.inactive[j].position, side) == p;
            assert(b.active[i].position != b.inactive[j].position);
            assert(b.inactive[j].position.x == p.x + dx && b.inactive[j].position.y == p.y
                + dy);
        }
        if holds(b.inactive, p.x + dx, p.y + dy) {
            let j = choose|j: int|
                #![trigger b.inactive[j]]
                0 <= j < b.inactive.len() && b.inactive[j].position.x == p.x + dx
                    && b.inactive[j].position.y == p.y + dy;
            assert(barred_by(b.inactive[j].position, side) == p);
        }
    }
    if b.blocked(side) {
        let i = choose|i: int|
            #![trigger b.active[i]]
            0 <= i < b.active.len() && !free_cell(
                b.inactive,
                b.active[i].position.x + dx,
                b.active[i].position.y + dy,
            );
        assert(touching(b.inactive, b.active[i].position, side));
    }
}

/// A piece that is not blocked on a side can yield to that side: the
/// shifted board is well formed.
pub proof fn lemma_shift_wf(b: Board, side: Collision)
    requires
        b.wf(),
        !b.blocked(side),
    ensures
        b.shift(step_towards(side).0, step_towards(side).1).wf(),
{
    let (dx, dy) = step_towards(side);
    let s = b.shift(dx, dy);
    assert forall|i: int| 0 <= i < b.active.len() implies {
        &&& s.active[i].position.x == b.active[i].position.x + dx
        &&& s.active[i].position.y == b.active[i].position.y + dy
        &&& free_cell(b.inactive, s.active[i].position.x as int, s.active[i].position.y as int)
    } by {
        lemma_unblocked(b, side, i);
    }
    assert(within_board(s.active));
    assert(distinct_cells(s.active));
    assert(apart(s.active, s.inactive));
    if b.active.len() > 0 {
        let k = lemma_pivot_block(b);
        assert(s.active[k].position == s.origin);
    }
}

/// A piece that has fallen `rows` rows without leaving the board falls
/// one more row to where a fall of `rows + 1` rows takes it.
pub proof fn lemma_shift_down_again(b: Board, rows: nat)
    requires
        b.is_active(),
        b.shift(0, rows as int).wf(),
        fallen_by(b, rows),
    ensures
        b.shift(0, rows as int).shift(0, 1) == b.shift(0, rows as int + 1),
{
    let once = b.shift(0, rows as int);
    assert(once.shift(0, 1).active =~= b.shift(0, rows as int + 1).active);
}

/// The scan for a full row finds `row` where no row from `from` up to
/// `row` is full and `row` itself is full or past the last row.
pub proof fn lemma_full_row_found(pile: Seq<Block>, from: int, row: int)
    requires
        0 <= from <= row <= GRID_HEIGHT,
        forall|r: int| from <= r < row ==> !row_full(pile, r),
        row < GRID_HEIGHT ==> row_full(pile, row),
    ensures
        full_row_from(pile, from) == row,
    decreases row - from,
{
    if from < row {
        lemma_full_row_found(pile, from + 1, row);
    }
}

/// A selection of blocks that share no cell shares no cell, and lies on
/// the board if the blocks it was selected from do.
pub proof fn lemma_filter_keeps(pile: Seq<Block>, pred: spec_fn(Block) -> bool)
    ensures
        within_board(pile) ==> within_board(pile.filter(pred)),
        distinct_cells(pile) ==> distinct_cells(pile.filter(pred)),
        forall|i: int|
            #![trigger pile.filter(pred)[i]]
            0 <= i < pile.filter(pred).len() ==> pred(pile.filter(pred)[i]) && pile.contains(
                pile.filter(pred)[i],
            ),
    decreases pile.len(),
{
    reveal(Seq::filter);
    let kept = pile.filter(pred);
    if pile.len() > 0 {
        let front = pile.drop_last();
        lemma_filter_keeps(front, pred);
        let kept_front = front.filter(pred);
        assert forall|i: int| 0 <= i < kept.len() implies pred(#[trigger] kept[i])
            && pile.contains(kept[i]) by {
            if i < kept_front.len() {
                assert(kept[i] == kept_front[i]);
                assert(front.contains(kept_front[i]));
                let k = choose|k: int| 0 <= k < front.len() && front[k] == kept_front[i];
                assert(pile[k] == kept[i]);
            } else {
                assert(pile[pile.len() - 1] == kept[i]);
            }
        }
        if within_board(pile) {
            assert forall|i: int| 0 <= i < front.len() implies #[trigger] front[i].position.x
                < GRID_WIDTH && front[i].position.y < GRID_HEIGHT by {
                assert(front[i] == pile[i]);
            }
            assert forall|i: int| 0 <= i < kept.len() implies #[trigger] kept[i].position.x
                < GRID_WIDTH && kept[i].position.y < GRID_HEIGHT by {
                let k = choose|k: int| 0 <= k < pile.len() && pile[k] == kept[i];
                assert(pile[k].position.x < GRID_WIDTH);
            }
        }
        if distinct_cells(pile) {
            assert forall|i: int, j: int| 0 <= i < j < front.len() implies #[trigger] front[i]
                .position != #[trigger] front[j].position by {
                assert(front[i] == pile[i] && front[j] == pile[j]);
            }
            assert forall|i: int, j: int| 0 <= i < j < kept.len() implies #[trigger] kept[i]
                .position != #[trigger] kept[j].position by {
                if j < kept_front.len() {
                    assert(kept[i] == kept_front[i] && kept[j] == kept_front[j]);
                } else {
                    assert(kept[i] == kept_front[i]);
                    assert(front.contains(kept_front[i]));
                    let k = choose|k: int| 0 <= k < front.len() && front[k] == kept_front[i];
                    assert(pile[k] == kept[i]);
                    assert(pile[pile.len() - 1] == kept[j]);
                }
            }
        }
    }
}

/// Clearing a row of the board leaves the blocks on the board and apart.
pub proof fn lemma_clear_row_keeps(pile: Seq<Block>, row: int)
    requires
        within_board(pile),
        distinct_cells(pile),
        0 <= row < GRID_HEIGHT,
    ensures
        within_board(clear_row(pile, row)),
        distinct_cells(clear_row(pile, row)),
{
    lemma_filter_keeps(pile, off_row(row));
    let kept = pile.filter(off_row(row));
    let sunk = clear_row(pile, row);
    assert forall|i: int| 0 <= i < sunk.len() implies #[trigger] sunk[i].position.x
        < GRID_WIDTH && sunk[i].position.y < GRID_HEIGHT by {
        assert(kept[i].position.x < GRID_WIDTH);
    }
    assert forall|i: int, j: int| 0 <= i < j < sunk.len() implies #[trigger] sunk[i].position
        != #[trigger] sunk[j].position by {
        assert(kept[i].position != kept[j].position);
        assert(kept[i].position.y < GRID_HEIGHT && kept[j].position.y < GRID_HEIGHT);
    }
}

/// Clearing the topmost full row of a well-formed board on which no
/// piece is falling leaves it well formed.
pub proof fn lemma_cleared_wf(b: Board)
    requires
        b.wf(),
        !b.is_active(),
    ensures
        b.cleared().wf(),
{
    lemma_full_row_from(b.inactive, BUFFER_ROWS as int);
    let row = first_full_row(b.inactive);
    if row < GRID_HEIGHT {
        lemma_clear_row_keeps(b.inactive, row);
    }
}

/// Locking the falling piece of a well-formed board leaves it well
/// formed.
pub proof fn lemma_locked_wf(b: Board)
    requires
        b.wf(),
    ensures
        b.locked().wf(),
{
    let pile = b.locked().inactive;
    let n = b.inactive.len() as int;
    let m = b.active.len() as int;
    assert forall|i: int| 0 <= i < pile.len() implies #[trigger] pile[i].position.x
        < GRID_WIDTH && pile[i].position.y < GRID_HEIGHT by {
        if i < n {
            assert(pile[i] == b.inactive[i]);
        } else {
            assert(pile[i] == b.active[m - 1 - (i - n)]);
        }
    }
    assert forall|i: int, j: int| 0 <= i < j < pile.len() implies #[trigger] pile[i].position
        != #[trigger] pile[j].position by {
        if j < n {
            assert(pile[i] == b.inactive[i] && pile[j] == b.inactive[j]);
        } else if i < n {
            assert(pile[i] == b.inactive[i] && pile[j] == b.active[m - 1 - (j - n)]);
        } else {
            assert(pile[i] == b.active[m - 1 - (i - n)] && pile[j] == b.active[m - 1 - (j
                - n)]);
        }
    }
}

/// One cleared row after another: `rows` rows shorten the fall interval
/// as one row after `rows - 1` rows does.
pub proof fn lemma_quickened_again(tick: nat, rows: nat)
    ensures
        quickened(quickened(tick, 1), rows) == quickened(tick, rows + 1),
        quickened(tick, 0) == tick,
{
}

/// What clearing comes to.  Every cleared row takes `GRID_WIDTH` blocks
/// off the pile, and when clearing is over no visible row is full.
pub proof fn lemma_settle(pile: Seq<Block>)
    ensures
        settle(pile).len() + GRID_WIDTH * clears(pile) == pile.len(),
        first_full_row(settle(pile)) == GRID_HEIGHT,
    decreases pile.len(),
{
    lemma_full_row_from(pile, BUFFER_ROWS as int);
    let row = first_full_row(pile);
    if row < GRID_HEIGHT {
        let next = clear_row(pile, row);
        lemma_clear_row_shrinks(pile, row);
        lemma_settle(next);
        assert(GRID_WIDTH * clears(pile) == GRID_WIDTH + GRID_WIDTH * clears(next));
    }
}

/// Clearing goes row by row: while a visible row is full, settling the
/// board is clearing its topmost full row, paying for that row, and
/// settling what is left; once none is full, the board is settled.
pub proof fn lemma_settled_by_rows(b: Board)
    ensures
        first_full_row(b.inactive) < GRID_HEIGHT ==> b.settled()
            == b.cleared().rewarded().settled(),
        first_full_row(b.inactive) >= GRID_HEIGHT ==> b.settled() == b,
{
    let row = first_full_row(b.inactive);
    if row < GRID_HEIGHT {
        let next = b.cleared().rewarded();
        lemma_quickened_again(b.tick, clears(next.inactive));
        assert(LINE_BONUS * clears(b.inactive) == LINE_BONUS + LINE_BONUS * clears(
            next.inactive,
        ));
    } else {
        lemma_quickened_again(b.tick, 0);
    }
}

/// Clearing leaves the blocks of a pile on the board and apart.
pub proof fn lemma_settle_keeps(pile: Seq<Block>)
    requires
        within_board(pile),
        distinct_cells(pile),
    ensures
        within_board(settle(pile)),
        distinct_cells(settle(pile)),
    decreases pile.len(),
{
    lemma_full_row_from(pile, BUFFER_ROWS as int);
    let row = first_full_row(pile);
    if row < GRID_HEIGHT {
        lemma_clear_row_shrinks(pile, row);
        lemma_clear_row_keeps(pile, row);
        lemma_settle_keeps(clear_row(pile, row));
    }
}

/// Clearing a well-formed board on which no piece is falling leaves it
/// well formed.
pub proof fn lemma_settled_wf(b: Board)
    requires
        b.wf(),
        !b.is_active(),
    ensures
        b.settled().wf(),
{
    lemma_settle_keeps(b.inactive);
}

/// Gravity leaves a well-formed board well formed, whether the piece
/// falls a row or locks and rows are cleared.
pub proof fn lemma_fallen_wf(b: Board)
    requires
        b.wf(),
    ensures
        b.fallen().wf(),
{
    if b.blocked(Collision::Down) {
        lemma_locked_wf(b);
        lemma_settled_wf(b.locked());
    } else {
        lemma_shift_wf(b, Collision::Down);
    }
}

/// Every piece kind spawns as four cells inside the hidden rows, no two
/// of them the same, with its rotation centre among them.
pub proof fn lemma_catalog(id: BlockType)
    ensures
        id.spawn_cells()@.len() == 4,
        forall|i: int|
            #![trigger id.spawn_cells()@[i]]
            0 <= i < 4 ==> id.spawn_cells()@[i].0 < GRID_WIDTH && id.spawn_cells()@[i].1
                < BUFFER_ROWS,
        forall|i: int, j: int|
            #![trigger id.spawn_cells()@[i], id.spawn_cells()@[j]]
            0 <= i < j < 4 ==> id.spawn_cells()@[i] != id.spawn_cells()@[j],
        exists|i: int|
            #![trigger id.spawn_cells()@[i]]
            0 <= i < 4 && id.spawn_cells()@[i] == id.spawn_origin(),
{
    let cells = id.spawn_cells()@;
    assert(cells[0] == id.spawn_cells()[0]);
    assert(cells[1] == id.spawn_cells()[1]);
    assert(cells[2] == id.spawn_cells()[2]);
    assert(cells[3] == id.spawn_cells()[3]);
    match id {
        BlockType::J | BlockType::L | BlockType::T => {
            assert(cells[1] == id.spawn_origin());
        },
        _ => {
            assert(cells[2] == id.spawn_origin());
        },
    }
}

/// Spawning on a well-formed board on which no piece is falling and the
/// game is not over leaves it well formed, with a piece of four blocks.
pub proof fn lemma_spawned_wf(b: Board, id: BlockType)
    requires
        b.wf(),
        !b.is_active(),
        !b.game_over(),
    ensures
        b.spawned(id).wf(),
        b.spawned(id).active.len() == 4,
{
    lemma_catalog(id);
    let s = b.spawned(id);
    let cells = id.spawn_cells()@;
    assert(s.active =~= blocks_of(cells, Color::of(id.rgba())));
    assert forall|i: int| 0 <= i < 4 implies #[trigger] s.active[i].position == Position::of(
        cells[i],
    ) by {}
    assert(within_board(s.active));
    assert(distinct_cells(s.active));
    assert forall|i: int, j: int| 0 <= i < s.active.len() && 0 <= j < s.inactive.len() implies
        #[trigger] s.active[i].position != #[trigger] s.inactive[j].position by {
        assert(s.inactive[j] == b.inactive[j]);
        assert(b.inactive[j].position.y >= BUFFER_ROWS);
    }
    let k = choose|k: int|
        #![trigger cells[k]]
        0 <= k < 4 && cells[k] == id.spawn_origin();
    assert(s.active[k].position == s.origin);
}

/// A hard drop leaves a well-formed board well formed, and leaves the
/// piece where it cannot fall any further, so that the next tick locks
/// it.
pub proof fn lemma_drop_lands(b: Board)
    requires
        b.wf(),
        b.is_active(),
    ensures
        b.moved(Movement::Drop).wf(),
        b.moved(Movement::Drop).blocked(Collision::Down),
        b.moved(Movement::Drop).is_active(),
    decreases b.fall_distance(),
{
    if b.blocked(Collision::Down) {
        assert(b.shift(0, 0).active =~= b.active);
        assert(b.shift(0, 0) == b);
    } else {
        let once = b.shift(0, 1);
        lemma_shift_wf(b, Collision::Down);
        lemma_drop_lands(once);
        assert forall|i: int| 0 <= i < b.active.len() implies #[trigger] b.active[i].position.y
            + 1 < GRID_HEIGHT by {
            lemma_unblocked(b, Collision::Down, i);
        }
        let k = lemma_pivot_block(b);
        assert(b.origin.y + 1 < GRID_HEIGHT);
        let rest = once.fall_distance() as int;
        assert(b.shift(0, 1 + rest).active =~= once.shift(0, rest).active);
        assert(b.shift(0, 1 + rest) == once.shift(0, rest));
    }
}

/// On a board with an empty pile a hard drop takes the piece to the
/// floor: its lowest block comes to lie in the last row.
pub proof fn lemma_drop_to_floor(b: Board)
    requires
        b.wf(),
        b.is_active(),
        b.inactive.len() == 0,
    ensures
        exists|i: int|
            #![trigger b.moved(Movement::Drop).active[i]]
            0 <= i < b.moved(Movement::Drop).active.len() && b.moved(
                Movement::Drop,
            ).active[i].position.y == GRID_HEIGHT - 1,
{
    lemma_drop_lands(b);
    let landed = b.moved(Movement::Drop);
    let i = choose|i: int|
        #![trigger landed.active[i]]
        0 <= i < landed.active.len() && !free_cell(
            landed.inactive,
            landed.active[i].position.x + step_towards(Collision::Down).0,
            landed.active[i].position.y + step_towards(Collision::Down).1,
        );
    assert(landed.active[i].position.y == GRID_HEIGHT - 1);
}

/// Whatever the player asks of the falling piece, a well-formed board
/// stays well formed.
pub proof fn lemma_moved_wf(b: Board, direction: Movement)
    requires
        b.wf(),
    ensures
        b.moved(direction).wf(),
        b.moved(direction).is_active() == b.is_active(),
        b.moved(direction).inactive == b.inactive,
        b.moved(direction).score == b.score,
{
    if b.is_active() {
        match direction {
            Movement::Left => {
                if !b.blocked(Collision::Left) {
                    lemma_shift_wf(b, Collision::Left);
                }
            },
            Movement::Right => {
                if !b.blocked(Collision::Right) {
                    lemma_shift_wf(b, Collision::Right);
                }
            },
            Movement::Drop => {
                lemma_drop_lands(b);
            },
            Movement::Rotate => {
                lemma_turned_wf(b);
            },
        }
    }
}

/// A tick leaves a well-formed board well formed, whatever kind of
/// piece spawns, as long as the game is not over when a piece spawns.
pub proof fn lemma_ticked_wf(b: Board, id: BlockType)
    requires
        b.wf(),
        b.is_active() || !b.game_over(),
    ensures
        b.ticked(id).wf(),
{
    if b.is_active() {
        lemma_fallen_wf(b);
    } else {
        lemma_spawned_wf(b, id);
    }
}

/// A game ends only when a piece locks: a request of the player never
/// ends it, nor does a tick that spawns a piece or lets one fall.
pub proof fn lemma_game_ends_at_a_lock(b: Board, direction: Movement, id: BlockType)
    requires
        !b.game_over(),
    ensures
        !b.moved(direction).game_over(),
        !b.toggled().game_over(),
        b.ticked(id).game_over() ==> b.is_active() && b.blocked(Collision::Down),
{
    let after = b.moved(direction);
    if after.game_over() {
        let i = choose|i: int|
            #![trigger after.inactive[i]]
            0 <= i < after.inactive.len() && after.inactive[i].position.y < BUFFER_ROWS;
        assert(b.inactive[i].position.y < BUFFER_ROWS);
    }
    let switched = b.toggled();
    if switched.game_over() {
        let i = choose|i: int|
            #![trigger switched.inactive[i]]
            0 <= i < switched.inactive.len() && switched.inactive[i].position.y < BUFFER_ROWS;
        assert(b.inactive[i].position.y < BUFFER_ROWS);
    }
    let next = b.ticked(id);
    if next.game_over() && !(b.is_active() && b.blocked(Collision::Down)) {
        let i = choose|i: int|
            #![trigger next.inactive[i]]
            0 <= i < next.inactive.len() && next.inactive[i].position.y < BUFFER_ROWS;
        assert(b.inactive[i].position.y < BUFFER_ROWS);
    }
}

/// Switching soft drop twice brings back the board as it was, and with
/// it the fall interval in force; switching it once puts the other of the
/// two intervals in force.
pub proof fn lemma_toggled_twice(b: Board)
    ensures
        b.toggled().toggled() == b,
        b.toggled().tick_interval() == if b.fast {
            b.tick
        } else {
            b.fast_tick
        },
{
}

/// A request to rotate never moves an O piece.
pub proof fn lemma_o_piece_stays(b: Board)
    requires
        b.block_id == BlockType::O,
    ensures
        b.moved(Movement::Rotate) == b,
{
}

/// Rotation is all or nothing.  If one cell of the piece cannot make the
/// quarter turn, the board stays exactly as it was.  If all can, each
/// block goes to its turned cell and keeps its colour, and nothing else
/// changes: not the pile, and not the rotation centre.
pub proof fn lemma_turn_all_or_nothing(b: Board)
    ensures
        !b.can_turn() ==> b.turned() == b,
        b.can_turn() ==> b.turned() == (Board { active: b.turned().active, ..b }),
        b.can_turn() ==> b.turned().active.len() == b.active.len(),
        b.can_turn() ==> forall|i: int|
            #![trigger b.turned().active[i]]
            0 <= i < b.active.len() ==> {
                &&& b.turned().active[i].position.x == turned_x(b.origin, b.active[i].position)
                &&& b.turned().active[i].position.y == turned_y(b.origin, b.active[i].position)
                &&& b.turned().active[i].color == b.active[i].color
            },
{
    if b.can_turn() {
        assert forall|i: int| 0 <= i < b.active.len() implies {
            &&& #[trigger] b.turned().active[i].position.x == turned_x(
                b.origin,
                b.active[i].position,
            )
            &&& b.turned().active[i].position.y == turned_y(b.origin, b.active[i].position)
            &&& b.turned().active[i].color == b.active[i].color
        } by {
            assert(free_cell(
                b.inactive,
                turned_x(b.origin, b.active[i].position),
                turned_y(b.origin, b.active[i].position),
            ));
        }
    }
}

/// What clearing a row does to the cells of the board: a cell below the
/// cleared row holds a block exactly if it did before, and any other cell
/// holds one exactly if the cell above it did.
pub proof fn lemma_clear_row_cells(pile: Seq<Block>, row: int, x: int, y: int)
    requires
        0 <= row < GRID_HEIGHT,
    ensures
        holds(clear_row(pile, row), x, y) <==> if y > row {
            holds(pile, x, y)
        } else {
            holds(pile, x, y - 1)
        },
{
    lemma_filter_keeps(pile, off_row(row));
    let kept = pile.filter(off_row(row));
    let sunk = clear_row(pile, row);
    if holds(sunk, x, y) {
        let i = choose|i: int|
            #![trigger sunk[i]]
            0 <= i < sunk.len() && sunk[i].position.x == x && sunk[i].position.y == y;
        assert(pile.contains(kept[i]));
        let k = choose|k: int| 0 <= k < pile.len() && pile[k] == kept[i];
        if y > row {
            assert(pile[k].position.x == x && pile[k].position.y == y);
        } else {
            assert(pile[k].position.x == x && pile[k].position.y == y - 1);
        }
    }
    let above = if y > row {
        y
    } else {
        y - 1
    };
    if holds(pile, x, above) {
        let k = choose|k: int|
            #![trigger pile[k]]
            0 <= k < pile.len() && pile[k].position.x == x && pile[k].position.y == above;
        pile.lemma_filter_contains(off_row(row), k);
        let i = choose|i: int| 0 <= i < kept.len() && kept[i] == pile[k];
        assert(sunk[i].position.x == x && sunk[i].position.y == y);
    }
}

/// A rotation request leaves a well-formed board well formed, whether the
/// piece turns or stays.
pub proof fn lemma_turned_wf(b: Board)
    requires
        b.wf(),
    ensures
        b.turned().wf(),
{
    if b.can_turn() {
        let t = b.turned();
        assert forall|i: int| 0 <= i < b.active.len() implies {
            &&& t.active[i].position.x == turned_x(b.origin, b.active[i].position)
            &&& t.active[i].position.y == turned_y(b.origin, b.active[i].position)
            &&& free_cell(
                b.inactive,
                t.active[i].position.x as int,
                t.active[i].position.y as int,
            )
        } by {
            assert(free_cell(
                b.inactive,
                turned_x(b.origin, b.active[i].position),
                turned_y(b.origin, b.active[i].position),
            ));
        }
        assert(within_board(t.active));
        assert(distinct_cells(t.active));
        assert(apart(t.active, t.inactive));
        if b.active.len() > 0 {
            let k = lemma_pivot_block(b);
            assert(t.active[k].position == t.origin);
        }
    }
}

} // verus!
