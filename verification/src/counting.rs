//! How many blocks a board can hold, and what follows for the rows a
//! lock can clear and the points a tick can score.

use vstd::prelude::*;
use vstd::set_lib::{lemma_int_range, lemma_len_subset, lemma_subset_equality, set_int_range};
use crate::board::{
    clear_row, clears, distinct_cells, first_full_row, holds, in_row, lemma_clear_row_shrinks,
    lemma_full_row_from, off_row, quickened, row_count, row_full, sink_onto, within_board,
    Board,
};
use crate::constants::{BUFFER_ROWS, GRID_HEIGHT, GRID_WIDTH, LINE_BONUS};
use crate::game::{lemma_heard_wf, Input, Session};
use crate::laws::{lemma_filter_keeps, lemma_locked_wf, lemma_settle};
use crate::tetrus::{Block, Collision};

verus! {

/// The number of the cell at column `x`, row `y`, counting row by row.
pub open spec fn cell_number(b: Block) -> int {
    b.position.y * GRID_WIDTH + b.position.x
}

/// Blocks that lie on the board and share no cell are no more than the
/// board has cells.
pub proof fn lemma_capacity(pile: Seq<Block>)
    requires
        within_board(pile),
        distinct_cells(pile),
    ensures
        pile.len() <= GRID_WIDTH * GRID_HEIGHT,
{
    let numbers = Seq::new(pile.len(), |i: int| cell_number(pile[i]));
    assert forall|i: int, j: int|
        0 <= i < numbers.len() && 0 <= j < numbers.len() && i != j implies numbers[i]
        != numbers[j] by {
        let a = pile[i];
        let b = pile[j];
        if i < j {
            assert(a.position != b.position);
        } else {
            assert(b.position != a.position);
        }
        assert(a.position.x != b.position.x || a.position.y != b.position.y);
    }
    numbers.unique_seq_to_set();
    let cells = set_int_range(0, GRID_WIDTH * GRID_HEIGHT);
    lemma_int_range(0, GRID_WIDTH * GRID_HEIGHT);
    assert forall|n: int| numbers.to_set().contains(n) implies cells.contains(n) by {
        let i = choose|i: int| 0 <= i < numbers.len() && numbers[i] == n;
        assert(pile[i].position.x < GRID_WIDTH && pile[i].position.y < GRID_HEIGHT);
    }
    lemma_len_subset(numbers.to_set(), cells);
}

/// Among blocks that lie on the board and share no cell, a row holds no
/// more blocks than the board has columns, and it is full exactly if
/// every one of its cells holds a block.
pub proof fn lemma_full_row_covered(pile: Seq<Block>, row: int)
    requires
        within_board(pile),
        distinct_cells(pile),
    ensures
        row_count(pile, row) <= GRID_WIDTH,
        row_full(pile, row) <==> forall|x: int| 0 <= x < GRID_WIDTH ==> holds(pile, x, row),
{
    lemma_filter_keeps(pile, in_row(row));
    let kept = pile.filter(in_row(row));
    let columns = Seq::new(kept.len(), |i: int| kept[i].position.x as int);
    assert forall|i: int, j: int|
        0 <= i < columns.len() && 0 <= j < columns.len() && i != j implies columns[i]
        != columns[j] by {
        if i < j {
            assert(kept[i].position != kept[j].position);
        } else {
            assert(kept[j].position != kept[i].position);
        }
        assert(kept[i].position.y == row && kept[j].position.y == row);
    }
    columns.unique_seq_to_set();
    let all = set_int_range(0, GRID_WIDTH as int);
    lemma_int_range(0, GRID_WIDTH as int);
    assert forall|x: int| columns.to_set().contains(x) implies all.contains(x) by {
        let i = choose|i: int| 0 <= i < columns.len() && columns[i] == x;
        assert(kept[i].position.x < GRID_WIDTH);
    }
    lemma_len_subset(columns.to_set(), all);
    if row_full(pile, row) {
        lemma_subset_equality(columns.to_set(), all);
        assert forall|x: int| 0 <= x < GRID_WIDTH implies holds(pile, x, row) by {
            assert(all.contains(x));
            assert(columns.to_set().contains(x));
            let i = choose|i: int| 0 <= i < columns.len() && columns[i] == x;
            assert(pile.contains(kept[i]));
            let k = choose|k: int| 0 <= k < pile.len() && pile[k] == kept[i];
            assert(pile[k].position.x == x && pile[k].position.y == row);
        }
    }
    if forall|x: int| 0 <= x < GRID_WIDTH ==> holds(pile, x, row) {
        assert forall|x: int| all.contains(x) implies columns.to_set().contains(x) by {
            assert(holds(pile, x, row));
            let k = choose|k: int|
                #![trigger pile[k]]
                0 <= k < pile.len() && pile[k].position.x == x && pile[k].position.y == row;
            pile.lemma_filter_contains(in_row(row), k);
            let i = choose|i: int| 0 <= i < kept.len() && kept[i] == pile[k];
            assert(columns[i] == x);
        }
        assert(columns.to_set() =~= all);
    }
}

/// Clearing takes no more rows off a pile than the board has rows.
pub proof fn lemma_clears_bounded(pile: Seq<Block>)
    requires
        within_board(pile),
        distinct_cells(pile),
    ensures
        clears(pile) <= GRID_HEIGHT,
{
    lemma_capacity(pile);
    lemma_settle(pile);
    let rows = clears(pile);
    if rows > GRID_HEIGHT {
        assert(GRID_WIDTH * rows >= GRID_WIDTH * (GRID_HEIGHT + 1)) by (nonlinear_arith)
            requires
                rows >= GRID_HEIGHT + 1,
        ;
    }
}

/// One tick adds no more points to a well-formed board than clearing
/// every row of the board would.
pub proof fn lemma_tick_score_bounded(b: Board)
    requires
        b.wf(),
    ensures
        b.score <= b.tick_score() <= b.score + LINE_BONUS * GRID_HEIGHT,
{
    if b.is_active() && b.blocked(Collision::Down) {
        lemma_locked_wf(b);
        lemma_clears_bounded(b.locked().inactive);
    }
}

/// The number of full rows of `pile` among the rows `from..to`.
pub open spec fn full_rows(pile: Seq<Block>, from: int, to: int) -> nat
    decreases to - from,
{
    if from >= to {
        0
    } else if row_full(pile, from) {
        1 + full_rows(pile, from + 1, to)
    } else {
        full_rows(pile, from + 1, to)
    }
}

/// No hidden row of `pile` is full.
pub open spec fn buffer_not_full(pile: Seq<Block>) -> bool {
    forall|y: int| 0 <= y < BUFFER_ROWS ==> !row_full(pile, y)
}

/// The full rows among `from..to`, split at `mid`.
pub proof fn lemma_full_rows_split(pile: Seq<Block>, from: int, mid: int, to: int)
    requires
        from <= mid <= to,
    ensures
        full_rows(pile, from, to) == full_rows(pile, from, mid) + full_rows(pile, mid, to),
    decreases mid - from,
{
    if from < mid {
        lemma_full_rows_split(pile, from + 1, mid, to);
    }
}

/// Two piles of which the same rows among `from..to` are full have as
/// many full rows there.
pub proof fn lemma_full_rows_alike(pile: Seq<Block>, other: Seq<Block>, from: int, to: int)
    requires
        forall|y: int| from <= y < to ==> row_full(pile, y) == row_full(other, y),
    ensures
        full_rows(pile, from, to) == full_rows(other, from, to),
    decreases to - from,
{
    if from < to {
        lemma_full_rows_alike(pile, other, from + 1, to);
    }
}

/// Rows of which none is full count no full row.
pub proof fn lemma_full_rows_none(pile: Seq<Block>, from: int, to: int)
    requires
        forall|y: int| from <= y < to ==> !row_full(pile, y),
    ensures
        full_rows(pile, from, to) == 0,
    decreases to - from,
{
    if from < to {
        lemma_full_rows_none(pile, from + 1, to);
    }
}

/// What clearing a row does to the number of blocks in each row: a row
/// below the cleared one keeps its blocks, any other gets those of the
/// row above it.
pub proof fn lemma_clear_row_counts(pile: Seq<Block>, row: int, y: int)
    requires
        0 <= row < GRID_HEIGHT,
    ensures
        row_count(clear_row(pile, row), y) == row_count(
            pile,
            if y > row {
                y
            } else {
                y - 1
            },
        ),
    decreases pile.len(),
{
    reveal(Seq::filter);
    let above = if y > row {
        y
    } else {
        y - 1
    };
    if pile.len() > 0 {
        let front = pile.drop_last();
        let last = pile.last();
        lemma_clear_row_counts(front, row, y);
        assert(pile =~= front.push(last));
        front.lemma_filter_push(last, off_row(row));
        front.lemma_filter_push(last, in_row(above));
        if last.position.y != row {
            let sunk = sink_onto(row)(last);
            assert(clear_row(pile, row) =~= clear_row(front, row).push(sunk));
            clear_row(front, row).lemma_filter_push(sunk, in_row(y));
        }
    }
}

/// Clearing goes through the full visible rows and no others: while no
/// hidden row is full, it takes exactly as many rows as are full among
/// the visible ones.  So it makes no difference whether the search for a
/// full row starts again from the top after every cleared row or goes on
/// downwards.
pub proof fn lemma_clears_full_rows(pile: Seq<Block>)
    requires
        buffer_not_full(pile),
    ensures
        clears(pile) == full_rows(pile, BUFFER_ROWS as int, GRID_HEIGHT as int),
    decreases pile.len(),
{
    let top = BUFFER_ROWS as int;
    let end = GRID_HEIGHT as int;
    lemma_full_row_from(pile, top);
    let row = first_full_row(pile);
    if row < end {
        let rest = clear_row(pile, row);
        lemma_clear_row_shrinks(pile, row);
        assert forall|y: int| 0 <= y <= row implies !row_full(rest, y) by {
            lemma_clear_row_counts(pile, row, y);
            if y == 0 {
                lemma_no_row_above(pile);
            } else {
                assert(!row_full(pile, y - 1));
            }
        }
        assert forall|y: int| row < y < end implies row_full(rest, y) == row_full(pile, y) by {
            lemma_clear_row_counts(pile, row, y);
        }
        lemma_clears_full_rows(rest);
        lemma_full_rows_split(rest, top, row + 1, end);
        lemma_full_rows_none(rest, top, row + 1);
        lemma_full_rows_alike(rest, pile, row + 1, end);
        lemma_full_rows_split(pile, top, row, end);
        lemma_full_rows_none(pile, top, row);
    } else {
        lemma_full_rows_none(pile, top, end);
    }
}

/// No block lies in a row above the board.
pub proof fn lemma_no_row_above(pile: Seq<Block>)
    ensures
        row_count(pile, -1) == 0,
    decreases pile.len(),
{
    reveal(Seq::filter);
    if pile.len() > 0 {
        lemma_no_row_above(pile.drop_last());
    }
}

/// A row holds no more blocks than the pile has, and none if no block
/// of the pile lies in it.
pub proof fn lemma_row_count_bounds(pile: Seq<Block>, y: int)
    ensures
        row_count(pile, y) <= pile.len(),
        (forall|i: int| 0 <= i < pile.len() ==> (#[trigger] pile[i]).position.y != y)
            ==> row_count(pile, y) == 0,
    decreases pile.len(),
{
    reveal(Seq::filter);
    if pile.len() > 0 {
        let front = pile.drop_last();
        lemma_row_count_bounds(front, y);
        assert forall|i: int| 0 <= i < front.len() implies front[i] == pile[i] by {}
        if forall|i: int| 0 <= i < pile.len() ==> (#[trigger] pile[i]).position.y != y {
            assert forall|i: int| 0 <= i < front.len() implies (#[trigger] front[i]).position.y
                != y by {
                assert(front[i] == pile[i]);
            }
            assert(pile[pile.len() - 1].position.y != y);
        }
    }
}

/// When a piece locks on a board on which the game is not over, the
/// rows that go are the visible rows that are full at that moment, and
/// each of them scores `LINE_BONUS` points: four full rows score four
/// times the bonus, and a single full row scores it once.
pub proof fn lemma_lock_scores_full_rows(b: Board)
    requires
        b.wf(),
        b.is_active(),
        !b.game_over(),
        b.blocked(Collision::Down),
    ensures
        b.fallen().score == b.score + LINE_BONUS * full_rows(
            b.locked().inactive,
            BUFFER_ROWS as int,
            GRID_HEIGHT as int,
        ),
        b.fallen().tick == quickened(
            b.tick,
            full_rows(b.locked().inactive, BUFFER_ROWS as int, GRID_HEIGHT as int),
        ),
{
    let pile = b.locked().inactive;
    assert forall|y: int| 0 <= y < BUFFER_ROWS implies !row_full(pile, y) by {
        let fresh = b.active.reverse();
        Seq::filter_distributes_over_add(b.inactive, fresh, in_row(y));
        lemma_row_count_bounds(b.inactive, y);
        lemma_row_count_bounds(fresh, y);
        assert forall|i: int| 0 <= i < b.inactive.len() implies (#[trigger] b.inactive[i])
            .position.y != y by {}
    }
    lemma_clears_full_rows(pile);
}

/// A frame fits the score counter if the counter has room for the points
/// of every row of the board.
pub proof fn lemma_frame_fits(s: Session, input: Input)
    requires
        s.wf(),
        s.board.score + LINE_BONUS * GRID_HEIGHT <= u32::MAX,
    ensures
        s.fits(input),
{
    lemma_heard_wf(s.board, input);
    lemma_tick_score_bounded(s.board.heard(input));
}

} // verus!
