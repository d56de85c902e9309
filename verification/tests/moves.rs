use tetrus::color::Color;
use tetrus::constants::{GRID_HEIGHT, GRID_WIDTH, RED};
use tetrus::grid::{all_distinct, clear_of, neighbour, occupies, on_board, stepped, turn_cell};
use tetrus::tetrus::{Block, BlockType, Collision, Movement, Position, Tetrus};

fn block(x: usize, y: usize) -> Block {
    Block { position: Position { x, y }, color: Color::new(RED) }
}

fn cells(blocks: &[Block]) -> Vec<(usize, usize)> {
    blocks.iter().map(|b| (b.position.x, b.position.y)).collect()
}

fn with_piece(kind: BlockType) -> Tetrus {
    let mut game = Tetrus::new();
    game.spawn_kind(kind);
    game
}

#[test]
fn neighbour_cells() {
    let p = Position { x: 3, y: 7 };
    assert_eq!(neighbour(p, Collision::Left), Some(Position { x: 2, y: 7 }));
    assert_eq!(neighbour(p, Collision::Right), Some(Position { x: 4, y: 7 }));
    assert_eq!(neighbour(p, Collision::Down), Some(Position { x: 3, y: 8 }));
    assert_eq!(neighbour(Position { x: 0, y: 7 }, Collision::Left), None);
    assert_eq!(neighbour(Position { x: 9, y: 7 }, Collision::Right), None);
    assert_eq!(neighbour(Position { x: 3, y: 23 }, Collision::Down), None);
    assert_eq!(neighbour(Position { x: 8, y: 0 }, Collision::Right), Some(Position { x: 9, y: 0 }));
    assert_eq!(neighbour(Position { x: 0, y: 22 }, Collision::Down), Some(Position { x: 0, y: 23 }));
}

#[test]
fn steps_from_a_cell() {
    let p = Position { x: 3, y: 7 };
    assert_eq!(stepped(p, Collision::Left), Position { x: 2, y: 7 });
    assert_eq!(stepped(p, Collision::Right), Position { x: 4, y: 7 });
    assert_eq!(stepped(p, Collision::Down), Position { x: 3, y: 8 });
}

#[test]
fn quarter_turn_of_a_cell() {
    let pivot = Position { x: 5, y: 2 };
    assert_eq!(turn_cell(pivot, Position { x: 5, y: 0 }), Some(Position { x: 7, y: 2 }));
    assert_eq!(turn_cell(pivot, Position { x: 5, y: 1 }), Some(Position { x: 6, y: 2 }));
    assert_eq!(turn_cell(pivot, Position { x: 5, y: 2 }), Some(Position { x: 5, y: 2 }));
    assert_eq!(turn_cell(pivot, Position { x: 5, y: 3 }), Some(Position { x: 4, y: 2 }));
    assert_eq!(turn_cell(pivot, Position { x: 4, y: 3 }), Some(Position { x: 4, y: 1 }));
    assert_eq!(turn_cell(Position { x: 0, y: 2 }, Position { x: 0, y: 3 }), None);
    assert_eq!(turn_cell(Position { x: 9, y: 5 }, Position { x: 9, y: 4 }), None);
    assert_eq!(turn_cell(Position { x: 4, y: 0 }, Position { x: 3, y: 0 }), None);
    assert_eq!(turn_cell(Position { x: 4, y: 23 }, Position { x: 5, y: 23 }), None);
}

#[test]
fn four_quarter_turns_bring_a_cell_back() {
    let pivot = Position { x: 4, y: 10 };
    let start = Position { x: 5, y: 12 };
    let mut cell = start;
    for _ in 0..4 {
        cell = turn_cell(pivot, cell).unwrap();
    }
    assert_eq!(cell, start);
}

#[test]
fn occupancy_of_a_pile() {
    let pile = vec![block(1, 20), block(2, 21)];
    assert!(occupies(&pile, Position { x: 1, y: 20 }));
    assert!(occupies(&pile, Position { x: 2, y: 21 }));
    assert!(!occupies(&pile, Position { x: 2, y: 20 }));
    assert!(!occupies(&pile, Position { x: 20, y: 1 }));
    assert!(!occupies(&Vec::new(), Position { x: 1, y: 20 }));
}

#[test]
fn checks_on_sets_of_blocks() {
    let pile = vec![block(1, 20), block(2, 21)];
    assert!(on_board(&pile));
    assert!(on_board(&Vec::new()));
    assert!(!on_board(&vec![block(GRID_WIDTH, 0)]));
    assert!(!on_board(&vec![block(0, GRID_HEIGHT)]));
    assert!(on_board(&vec![block(GRID_WIDTH - 1, GRID_HEIGHT - 1)]));
    assert!(all_distinct(&pile));
    assert!(!all_distinct(&vec![block(1, 20), block(2, 21), block(1, 20)]));
    assert!(clear_of(&pile, &vec![block(1, 21), block(2, 20)]));
    assert!(!clear_of(&pile, &vec![block(3, 3), block(2, 21)]));
    assert!(clear_of(&pile, &Vec::new()));
}

#[test]
fn nothing_falling_collides_with_nothing() {
    let game = Tetrus::new();
    assert!(!game.check_collision(Collision::Left));
    assert!(!game.check_collision(Collision::Right));
    assert!(!game.check_collision(Collision::Down));
}

#[test]
fn walls_and_floor_block() {
    let mut game = Tetrus::new();
    game.active = vec![block(0, 10), block(1, 10), block(0, 11), block(1, 11)];
    game.origin = Position { x: 0, y: 11 };
    assert!(game.is_well_formed());
    assert!(game.check_collision(Collision::Left));
    assert!(!game.check_collision(Collision::Right));
    assert!(!game.check_collision(Collision::Down));
    game.active = vec![block(8, 22), block(9, 22), block(8, 23), block(9, 23)];
    game.origin = Position { x: 8, y: 23 };
    assert!(!game.check_collision(Collision::Left));
    assert!(game.check_collision(Collision::Right));
    assert!(game.check_collision(Collision::Down));
}

#[test]
fn the_pile_blocks() {
    let mut game = with_piece(BlockType::O);
    assert!(!game.check_collision(Collision::Left));
    assert!(!game.check_collision(Collision::Right));
    assert!(!game.check_collision(Collision::Down));
    game.inactive = vec![block(3, 3)];
    assert!(game.check_collision(Collision::Left));
    assert!(!game.check_collision(Collision::Right));
    assert!(!game.check_collision(Collision::Down));
    game.inactive = vec![block(6, 2)];
    assert!(!game.check_collision(Collision::Left));
    assert!(game.check_collision(Collision::Right));
    assert!(!game.check_collision(Collision::Down));
    game.inactive = vec![block(5, 4)];
    assert!(!game.check_collision(Collision::Left));
    assert!(!game.check_collision(Collision::Right));
    assert!(game.check_collision(Collision::Down));
    game.inactive = vec![block(3, 4), block(6, 4), block(3, 1), block(6, 1), block(4, 5)];
    assert!(!game.check_collision(Collision::Left));
    assert!(!game.check_collision(Collision::Right));
    assert!(!game.check_collision(Collision::Down));
}

#[test]
fn a_locked_block_in_the_top_row_does_not_upset_the_check_below() {
    let mut game = with_piece(BlockType::O);
    game.inactive = vec![block(0, 0), block(9, 0)];
    assert!(!game.check_collision(Collision::Down));
    assert!(!game.check_collision(Collision::Left));
    assert!(!game.check_collision(Collision::Right));
}

#[test]
fn requests_without_a_falling_piece_change_nothing() {
    let mut game = Tetrus::new();
    game.inactive = vec![block(0, 23)];
    game.origin = Position { x: 0, y: 5 };
    for request in [Movement::Left, Movement::Right, Movement::Drop, Movement::Rotate] {
        game.player_move(request);
        assert!(game.active.is_empty());
        assert_eq!(game.origin, Position { x: 0, y: 5 });
        assert_eq!(cells(&game.inactive), vec![(0, 23)]);
        assert_eq!(game.score, 0);
    }
}

#[test]
fn moves_left_until_the_wall() {
    let mut game = with_piece(BlockType::I);
    for step in 1..=5 {
        game.player_move(Movement::Left);
        assert_eq!(
            cells(&game.active),
            vec![(5 - step, 0), (5 - step, 1), (5 - step, 2), (5 - step, 3)]
        );
        assert_eq!(game.origin, Position { x: 5 - step, y: 2 });
        assert!(game.is_well_formed());
    }
    game.player_move(Movement::Left);
    assert_eq!(cells(&game.active), vec![(0, 0), (0, 1), (0, 2), (0, 3)]);
    assert_eq!(game.origin, Position { x: 0, y: 2 });
    assert_eq!(game.score, 5);
    assert!(game.inactive.is_empty());
}

#[test]
fn moves_right_until_the_wall() {
    let mut game = with_piece(BlockType::O);
    for step in 1..=4 {
        game.player_move(Movement::Right);
        assert_eq!(
            cells(&game.active),
            vec![(4 + step, 2), (5 + step, 2), (4 + step, 3), (5 + step, 3)]
        );
        assert_eq!(game.origin, Position { x: 4 + step, y: 3 });
    }
    game.player_move(Movement::Right);
    assert_eq!(cells(&game.active), vec![(8, 2), (9, 2), (8, 3), (9, 3)]);
    assert_eq!(game.origin, Position { x: 8, y: 3 });
    assert!(game.is_well_formed());
}

#[test]
fn a_move_into_the_pile_changes_nothing() {
    let mut game = with_piece(BlockType::T);
    game.inactive = vec![block(3, 2), block(6, 2)];
    let before = cells(&game.active);
    let origin = game.origin;
    game.player_move(Movement::Left);
    assert_eq!(cells(&game.active), before);
    assert_eq!(game.origin, origin);
    game.player_move(Movement::Right);
    assert_eq!(cells(&game.active), before);
    assert_eq!(game.origin, origin);
    assert_eq!(cells(&game.inactive), vec![(3, 2), (6, 2)]);
}

#[test]
fn moves_keep_colours_and_order() {
    let mut game = with_piece(BlockType::S);
    let colour = BlockType::S.color();
    game.player_move(Movement::Left);
    game.player_move(Movement::Drop);
    game.player_move(Movement::Rotate);
    assert!(game.active.iter().all(|b| b.color == colour));
    assert_eq!(game.block_id, BlockType::S);
}

#[test]
fn move_active_falls_one_row() {
    let mut game = with_piece(BlockType::L);
    game.move_active();
    assert_eq!(cells(&game.active), vec![(4, 2), (4, 3), (4, 4), (5, 4)]);
    assert_eq!(game.origin, Position { x: 4, y: 3 });
    assert_eq!(game.score, 5);
}

#[test]
fn i_piece_turns_about_its_centre() {
    let mut game = with_piece(BlockType::I);
    game.player_move(Movement::Rotate);
    assert_eq!(cells(&game.active), vec![(7, 2), (6, 2), (5, 2), (4, 2)]);
    assert_eq!(game.origin, Position { x: 5, y: 2 });
    game.player_move(Movement::Rotate);
    assert_eq!(cells(&game.active), vec![(5, 4), (5, 3), (5, 2), (5, 1)]);
    game.player_move(Movement::Rotate);
    assert_eq!(cells(&game.active), vec![(3, 2), (4, 2), (5, 2), (6, 2)]);
    game.player_move(Movement::Rotate);
    assert_eq!(cells(&game.active), vec![(5, 0), (5, 1), (5, 2), (5, 3)]);
    assert_eq!(game.origin, Position { x: 5, y: 2 });
    assert!(game.is_well_formed());
}

#[test]
fn t_piece_turns_about_its_centre() {
    let mut game = with_piece(BlockType::T);
    game.rotate_block();
    assert_eq!(cells(&game.active), vec![(5, 2), (4, 2), (4, 3), (3, 2)]);
    assert_eq!(game.origin, Position { x: 4, y: 2 });
    assert!(game.is_well_formed());
}

#[test]
fn o_piece_never_turns() {
    let mut game = with_piece(BlockType::O);
    game.player_move(Movement::Drop);
    let before = game.active.clone();
    let origin = game.origin;
    for _ in 0..4 {
        game.player_move(Movement::Rotate);
        assert_eq!(game.active, before);
        assert_eq!(game.origin, origin);
    }
}

#[test]
fn rotation_off_the_board_is_refused_whole() {
    let mut game = with_piece(BlockType::I);
    for _ in 0..5 {
        game.player_move(Movement::Left);
    }
    let before = game.active.clone();
    game.player_move(Movement::Rotate);
    assert_eq!(game.active, before);
    assert_eq!(game.origin, Position { x: 0, y: 2 });

    let mut game = with_piece(BlockType::I);
    for _ in 0..4 {
        game.player_move(Movement::Right);
    }
    let before = game.active.clone();
    game.player_move(Movement::Rotate);
    assert_eq!(game.active, before);
}

#[test]
fn rotation_onto_the_pile_is_refused_whole() {
    let mut game = with_piece(BlockType::I);
    game.inactive = vec![block(4, 2)];
    let before = game.active.clone();
    game.player_move(Movement::Rotate);
    assert_eq!(game.active, before);
    assert_eq!(game.origin, Position { x: 5, y: 2 });
    assert_eq!(cells(&game.inactive), vec![(4, 2)]);
    game.inactive = vec![block(7, 2)];
    game.rotate_block();
    assert_eq!(game.active, before);
    game.inactive = vec![block(7, 3), block(4, 1)];
    game.rotate_block();
    assert_eq!(cells(&game.active), vec![(7, 2), (6, 2), (5, 2), (4, 2)]);
}

#[test]
fn rotation_below_the_floor_is_refused() {
    let mut game = with_piece(BlockType::I);
    game.player_move(Movement::Rotate);
    game.player_move(Movement::Drop);
    assert_eq!(cells(&game.active), vec![(7, 23), (6, 23), (5, 23), (4, 23)]);
    let before = game.active.clone();
    game.player_move(Movement::Rotate);
    assert_eq!(game.active, before);
}

#[test]
fn hard_drop_of_an_i_piece_onto_an_empty_board() {
    let mut game = with_piece(BlockType::I);
    game.player_move(Movement::Drop);
    assert!(game.is_active());
    assert_eq!(cells(&game.active), vec![(5, 20), (5, 21), (5, 22), (5, 23)]);
    assert_eq!(game.origin, Position { x: 5, y: 22 });
    assert!(game.check_collision(Collision::Down));
    assert!(game.inactive.is_empty());
    game.update_active();
    assert!(!game.is_active());
    assert_eq!(game.inactive.len(), 4);
    assert!(game.inactive.iter().all(|b| b.position.x == 5));
    let lowest = game.inactive.iter().map(|b| b.position.y).max().unwrap();
    assert_eq!(lowest, GRID_HEIGHT - 1);
    assert_eq!(game.score, 5);
    assert!(!game.is_game_over());
    assert!(game.is_well_formed());
}

#[test]
fn hard_drop_stops_on_the_pile() {
    let mut game = with_piece(BlockType::O);
    game.inactive = vec![block(5, 10), block(4, 23)];
    game.player_move(Movement::Drop);
    assert_eq!(cells(&game.active), vec![(4, 8), (5, 8), (4, 9), (5, 9)]);
    assert_eq!(game.origin, Position { x: 4, y: 9 });
    game.player_move(Movement::Drop);
    assert_eq!(cells(&game.active), vec![(4, 8), (5, 8), (4, 9), (5, 9)]);
}

#[test]
fn gravity_moves_then_locks() {
    let mut game = with_piece(BlockType::J);
    for row in 1..=20 {
        assert!(game.is_active());
        game.update_active();
        assert_eq!(game.origin, Position { x: 5, y: 2 + row });
    }
    assert_eq!(cells(&game.active), vec![(5, 21), (5, 22), (4, 23), (5, 23)]);
    game.update_active();
    assert!(!game.is_active());
    assert_eq!(cells(&game.inactive), vec![(5, 23), (4, 23), (5, 22), (5, 21)]);
    assert_eq!(game.score, 5);
    assert_eq!(game.tick, 400);
}

#[test]
fn locking_moves_the_blocks_to_the_pile_last_first() {
    let mut game = with_piece(BlockType::Z);
    game.inactive = vec![block(0, 23)];
    game.change_status();
    assert!(game.active.is_empty());
    assert_eq!(cells(&game.inactive), vec![(0, 23), (4, 3), (5, 2), (4, 2), (5, 1)]);
    assert_eq!(game.inactive[1].color, BlockType::Z.color());
    assert_eq!(game.score, 5);
}

#[test]
fn tick_spawns_then_lets_fall() {
    let mut game = Tetrus::new();
    game.tick();
    assert!(game.is_active());
    assert_eq!(game.score, 5);
    let kind = game.block_id;
    assert_eq!(cells(&game.active), kind.blocks().to_vec());
    game.tick();
    let fallen: Vec<(usize, usize)> = kind.blocks().iter().map(|c| (c.0, c.1 + 1)).collect();
    assert_eq!(cells(&game.active), fallen);
    assert_eq!(game.score, 5);
    assert!(game.is_well_formed());
}

#[test]
fn invariant_holds_along_a_game() {
    let kinds = [
        BlockType::I,
        BlockType::J,
        BlockType::L,
        BlockType::O,
        BlockType::S,
        BlockType::T,
        BlockType::Z,
    ];
    let moves = [Movement::Left, Movement::Rotate, Movement::Right, Movement::Right, Movement::Drop];
    let mut game = Tetrus::new();
    let mut turn = 0;
    while !game.is_game_over() && turn < 400 {
        if !game.is_active() {
            game.spawn_kind(kinds[turn % 7]);
        } else {
            game.player_move(moves[turn % 5]);
            assert!(game.is_well_formed());
            game.update_active();
        }
        assert!(game.is_well_formed());
        for a in &game.active {
            assert!(a.position.x < GRID_WIDTH && a.position.y < GRID_HEIGHT);
            assert!(!game.inactive.iter().any(|b| b.position == a.position));
        }
        assert!(game.active.len() == 0 || game.active.len() == 4);
        turn += 1;
    }
    assert!(game.is_game_over());
}

#[test]
fn well_formedness_is_told_apart() {
    let mut game = with_piece(BlockType::I);
    assert!(game.is_well_formed());
    game.origin = Position { x: 0, y: 0 };
    assert!(!game.is_well_formed());
    game.origin = Position { x: 5, y: 3 };
    assert!(game.is_well_formed());
    game.inactive = vec![block(5, 3)];
    assert!(!game.is_well_formed());
    game.inactive = vec![block(4, 3), block(4, 3)];
    assert!(!game.is_well_formed());
    game.inactive = vec![block(4, 3), block(10, 3)];
    assert!(!game.is_well_formed());
    game.inactive = vec![block(4, 3), block(9, 23)];
    assert!(game.is_well_formed());
    game.active.pop();
    assert!(!game.is_well_formed());
    game.active.clear();
    assert!(game.is_well_formed());
}
