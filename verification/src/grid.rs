//! Cells and sets of blocks: the questions the rules ask of them, and the
//! steps and turns that take one cell to another.

use vstd::prelude::*;
use crate::board::{
    apart, clear_row, distinct_cells, holds, in_row, off_row, row_count, sink_onto,
    step_towards, turned_x, turned_y, within_board,
};
use crate::constants::{GRID_HEIGHT, GRID_WIDTH};
use crate::tetrus::{Block, Collision, Position};

verus! {

/// Whether some block of `pile` sits at `cell`.
pub fn occupies(pile: &Vec<Block>, cell: Position) -> (found: bool)
    ensures
        found == holds(pile@, cell.x as int, cell.y as int),
{
    let mut j: usize = 0;
    while j < pile.len()
        invariant
            j <= pile.len(),
            forall|k: int|
                #![trigger pile@[k]]
                0 <= k < j ==> !(pile@[k].position.x == cell.x && pile@[k].position.y == cell.y),
        decreases pile.len() - j,
    {
        if pile[j].position == cell {
            return true;
        }
        j += 1;
    }
    false
}

/// Whether every block of `blocks` lies on the board.
pub fn on_board(blocks: &Vec<Block>) -> (all: bool)
    ensures
        all == within_board(blocks@),
{
    let mut i: usize = 0;
    while i < blocks.len()
        invariant
            i <= blocks.len(),
            forall|k: int|
                #![trigger blocks@[k]]
                0 <= k < i ==> blocks@[k].position.x < GRID_WIDTH && blocks@[k].position.y
                    < GRID_HEIGHT,
        decreases blocks.len() - i,
    {
        if blocks[i].position.x >= GRID_WIDTH || blocks[i].position.y >= GRID_HEIGHT {
            return false;
        }
        i += 1;
    }
    true
}

/// Whether no block of `blocks` shares a cell with a block of `pile`.
pub fn clear_of(blocks: &Vec<Block>, pile: &Vec<Block>) -> (none: bool)
    ensures
        none == apart(blocks@, pile@),
{
    let mut i: usize = 0;
    while i < blocks.len()
        invariant
            i <= blocks.len(),
            forall|k: int, j: int|
                #![trigger blocks@[k], pile@[j]]
                0 <= k < i && 0 <= j < pile.len() ==> blocks@[k].position != pile@[j].position,
        decreases blocks.len() - i,
    {
        if occupies(pile, blocks[i].position) {
            proof {
                let at = blocks@[i as int].position;
                let j = choose|j: int|
                    #![trigger pile@[j]]
                    0 <= j < pile.len() && pile@[j].position.x == at.x && pile@[j].position.y
                        == at.y;
                assert(blocks@[i as int].position == pile@[j].position);
            }
            return false;
        }
        i += 1;
    }
    true
}

/// Whether no two blocks of `blocks` share a cell.
pub fn all_distinct(blocks: &Vec<Block>) -> (all: bool)
    ensures
        all == distinct_cells(blocks@),
{
    let mut j: usize = 0;
    while j < blocks.len()
        invariant
            j <= blocks.len(),
            forall|i: int, k: int|
                #![trigger blocks@[i], blocks@[k]]
                0 <= i < k < j ==> blocks@[i].position != blocks@[k].position,
        decreases blocks.len() - j,
    {
        let mut i: usize = 0;
        while i < j
            invariant
                i <= j < blocks.len(),
                forall|h: int|
                    #![trigger blocks@[h]]
                    0 <= h < i ==> blocks@[h].position != blocks@[j as int].position,
            decreases j - i,
        {
            if blocks[i].position == blocks[j].position {
                assert(blocks@[i as int].position == blocks@[j as int].position);
                return false;
            }
            i += 1;
        }
        j += 1;
    }
    true
}

/// The neighbour of `cell` on `side`, unless that neighbour is off the
/// board.
pub fn neighbour(cell: Position, side: Collision) -> (next: Option<Position>)
    ensures
        match next {
            Some(p) => p.x == cell.x + step_towards(side).0 && p.y == cell.y + step_towards(
                side,
            ).1 && p.x < GRID_WIDTH && p.y < GRID_HEIGHT,
            None => !(0 <= cell.x + step_towards(side).0 < GRID_WIDTH && 0 <= cell.y
                + step_towards(side).1 < GRID_HEIGHT),
        },
{
    match side {
        Collision::Left => if 0 < cell.x && cell.x <= GRID_WIDTH && cell.y < GRID_HEIGHT {
            Some(Position { x: cell.x - 1, y: cell.y })
        } else {
            None
        },
        Collision::Right => if cell.x < GRID_WIDTH - 1 && cell.y < GRID_HEIGHT {
            Some(Position { x: cell.x + 1, y: cell.y })
        } else {
            None
        },
        Collision::Down => if cell.x < GRID_WIDTH && cell.y < GRID_HEIGHT - 1 {
            Some(Position { x: cell.x, y: cell.y + 1 })
        } else {
            None
        },
    }
}

/// The number of blocks of `pile` in row `row`.
pub fn count_row(pile: &Vec<Block>, row: usize) -> (count: usize)
    ensures
        count == row_count(pile@, row as int),
{
    let mut count: usize = 0;
    let mut j: usize = 0;
    proof {
        reveal(Seq::filter);
        assert(pile@.take(0).len() == 0);
    }
    while j < pile.len()
        invariant
            j <= pile.len(),
            count <= j,
            count == row_count(pile@.take(j as int), row as int),
        decreases pile.len() - j,
    {
        proof {
            let seen = pile@.take(j as int);
            assert(pile@.take(j + 1) =~= seen.push(pile@[j as int]));
            seen.lemma_filter_push(pile@[j as int], in_row(row as int));
        }
        if pile[j].position.y == row {
            count += 1;
        }
        j += 1;
    }
    proof {
        assert(pile@.take(pile.len() as int) =~= pile@);
    }
    count
}

/// The blocks of `pile` once row `row` has vanished: those of that row
/// are gone, those above it have sunk by one, the others stay, all in
/// their old order.
pub fn without_row(pile: &Vec<Block>, row: usize) -> (rest: Vec<Block>)
    ensures
        rest@ == clear_row(pile@, row as int),
{
    let mut rest: Vec<Block> = Vec::new();
    let mut j: usize = 0;
    proof {
        reveal(Seq::filter);
        assert(pile@.take(0).len() == 0);
        assert(rest@ =~= clear_row(pile@.take(0), row as int));
    }
    while j < pile.len()
        invariant
            j <= pile.len(),
            rest@ == clear_row(pile@.take(j as int), row as int),
        decreases pile.len() - j,
    {
        let block = pile[j];
        proof {
            let seen = pile@.take(j as int);
            assert(pile@.take(j + 1) =~= seen.push(block));
            seen.lemma_filter_push(block, off_row(row as int));
            if block.position.y != row {
                assert(clear_row(seen.push(block), row as int) =~= clear_row(seen, row as int).push(
                    sink_onto(row as int)(block),
                ));
            }
        }
        if block.position.y < row {
            rest.push(
                Block {
                    position: Position { x: block.position.x, y: block.position.y + 1 },
                    color: block.color,
                },
            );
        } else if block.position.y > row {
            rest.push(block);
        }
        j += 1;
    }
    proof {
        assert(pile@.take(pile.len() as int) =~= pile@);
    }
    rest
}

/// The cell that `cell` reaches by a quarter turn about `pivot`, unless it
/// leaves the board.
pub fn turn_cell(pivot: Position, cell: Position) -> (next: Option<Position>)
    requires
        pivot.x + pivot.y <= usize::MAX,
        pivot.y + cell.x <= usize::MAX,
    ensures
        match next {
            Some(p) => p.x == turned_x(pivot, cell) && p.y == turned_y(pivot, cell) && p.x
                < GRID_WIDTH && p.y < GRID_HEIGHT,
            None => !(0 <= turned_x(pivot, cell) < GRID_WIDTH && 0 <= turned_y(pivot, cell)
                < GRID_HEIGHT),
        },
{
    let across = pivot.x + pivot.y;
    let down = pivot.y + cell.x;
    if across < cell.y || down < pivot.x {
        None
    } else if across - cell.y < GRID_WIDTH && down - pivot.x < GRID_HEIGHT {
        Some(Position { x: across - cell.y, y: down - pivot.x })
    } else {
        None
    }
}

/// The cell next to `cell` on `side`.
pub fn stepped(cell: Position, side: Collision) -> (next: Position)
    requires
        0 <= cell.x + step_towards(side).0 <= usize::MAX,
        0 <= cell.y + step_towards(side).1 <= usize::MAX,
    ensures
        next.x == cell.x + step_towards(side).0,
        next.y == cell.y + step_towards(side).1,
{
    match side {
        Collision::Left => Position { x: cell.x - 1, y: cell.y },
        Collision::Right => Position { x: cell.x + 1, y: cell.y },
        Collision::Down => Position { x: cell.x, y: cell.y + 1 },
    }
}

} // verus!
