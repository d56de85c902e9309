use rand::Rng;
use tetrus::game::{Game, Input, Report, Sound, State};
use tetrus::tetrus::{Block, BlockType, Movement, Position};

fn idle(elapsed: u64) -> Input {
    Input { left: false, right: false, drop: false, rotate: false, soft_drop: false, elapsed }
}

fn cells(blocks: &[Block]) -> Vec<(usize, usize)> {
    blocks.iter().map(|b| (b.position.x, b.position.y)).collect()
}

fn running_with(kind: BlockType) -> Game {
    let mut game = Game::new();
    game.state = State::Running;
    game.tetrus.spawn_kind(kind);
    game
}

#[test]
fn a_session_starts_on_the_welcome_screen() {
    let game = Game::new();
    assert_eq!(game.state, State::Welcome);
    assert!(game.tetrus.active.is_empty());
    assert!(game.tetrus.inactive.is_empty());
    assert_eq!(game.tetrus.score, 0);
}

#[test]
fn requests_have_an_order() {
    let none = idle(0);
    assert_eq!(none.request(), None);
    assert_eq!(Input { rotate: true, ..none }.request(), Some(Movement::Rotate));
    assert_eq!(Input { drop: true, rotate: true, ..none }.request(), Some(Movement::Drop));
    assert_eq!(
        Input { right: true, drop: true, rotate: true, ..none }.request(),
        Some(Movement::Right)
    );
    assert_eq!(
        Input { left: true, right: true, drop: true, rotate: true, ..none }.request(),
        Some(Movement::Left)
    );
    assert_eq!(Input { soft_drop: true, ..none }.request(), None);
}

#[test]
fn the_welcome_screen_waits_for_the_start_key() {
    let mut game = Game::new();
    let report = game.run(&Input { left: true, rotate: true, soft_drop: true, ..idle(10_000) });
    assert_eq!(report, Report { sound: None, ticked: false });
    assert_eq!(game.state, State::Welcome);
    assert!(!game.tetrus.is_active());
    assert!(!game.tetrus.fast);
    let report = game.run(&Input { drop: true, ..idle(10_000) });
    assert_eq!(report, Report { sound: None, ticked: false });
    assert_eq!(game.state, State::Running);
    assert!(!game.tetrus.is_active());
    assert_eq!(game.tetrus.score, 0);
}

#[test]
fn the_first_due_tick_spawns_a_piece() {
    let mut game = Game::new();
    game.welcome(&Input { drop: true, ..idle(0) });
    let report = game.run(&idle(400));
    assert_eq!(report, Report { sound: None, ticked: false });
    assert!(!game.tetrus.is_active());
    let report = game.run(&idle(401));
    assert_eq!(report, Report { sound: None, ticked: true });
    assert!(game.tetrus.is_active());
    assert_eq!(game.tetrus.score, 5);
    assert_eq!(game.state, State::Running);
}

#[test]
fn input_without_a_falling_piece_moves_nothing() {
    let mut game = Game::new();
    game.state = State::Running;
    let sound = game.player_input(&Input { drop: true, ..idle(0) });
    assert_eq!(sound, None);
    assert!(!game.tetrus.is_active());
    assert_eq!(game.tetrus.origin, Position { x: 0, y: 0 });
    let sound = game.player_input(&Input { left: true, soft_drop: true, ..idle(0) });
    assert_eq!(sound, None);
    assert!(game.tetrus.fast);
    assert_eq!(game.tetrus.origin, Position { x: 0, y: 0 });
}

#[test]
fn input_moves_the_falling_piece() {
    let mut game = running_with(BlockType::I);
    assert_eq!(game.player_input(&Input { left: true, ..idle(0) }), None);
    assert_eq!(cells(&game.tetrus.active), vec![(4, 0), (4, 1), (4, 2), (4, 3)]);
    assert_eq!(game.player_input(&Input { right: true, rotate: true, ..idle(0) }), None);
    assert_eq!(cells(&game.tetrus.active), vec![(5, 0), (5, 1), (5, 2), (5, 3)]);
    assert_eq!(game.player_input(&Input { rotate: true, ..idle(0) }), Some(Sound::Rotate));
    assert_eq!(cells(&game.tetrus.active), vec![(7, 2), (6, 2), (5, 2), (4, 2)]);
    assert_eq!(game.player_input(&Input { drop: true, rotate: true, ..idle(0) }), Some(Sound::Drop));
    assert_eq!(cells(&game.tetrus.active), vec![(7, 23), (6, 23), (5, 23), (4, 23)]);
    assert_eq!(game.player_input(&idle(0)), None);
    assert_eq!(game.state, State::Running);
}

#[test]
fn a_refused_rotation_still_sounds() {
    let mut game = running_with(BlockType::O);
    let before = game.tetrus.active.clone();
    assert_eq!(game.player_input(&Input { rotate: true, ..idle(0) }), Some(Sound::Rotate));
    assert_eq!(game.tetrus.active, before);
}

#[test]
fn the_soft_drop_key_switches_the_interval() {
    let mut game = running_with(BlockType::T);
    let report = game.run(&Input { soft_drop: true, ..idle(100) });
    assert_eq!(report, Report { sound: None, ticked: false });
    assert!(game.tetrus.fast);
    assert_eq!(game.tetrus.tick_interval(), 100);
    let report = game.run(&idle(101));
    assert!(report.ticked);
    assert_eq!(game.tetrus.origin, Position { x: 4, y: 3 });
    let report = game.run(&Input { soft_drop: true, ..idle(101) });
    assert!(!report.ticked);
    assert!(!game.tetrus.fast);
    assert_eq!(game.tetrus.origin, Position { x: 4, y: 3 });
    let report = game.run(&Input { soft_drop: true, ..idle(101) });
    assert!(report.ticked);
    assert!(game.tetrus.fast);
    assert_eq!(game.tetrus.origin, Position { x: 4, y: 4 });
}

#[test]
fn a_move_in_the_frame_of_a_lock_comes_first() {
    let mut game = running_with(BlockType::O);
    game.tetrus.player_move(Movement::Drop);
    assert_eq!(cells(&game.tetrus.active), vec![(4, 22), (5, 22), (4, 23), (5, 23)]);
    let report = game.run(&Input { left: true, ..idle(500) });
    assert_eq!(report, Report { sound: None, ticked: true });
    assert!(!game.tetrus.is_active());
    assert_eq!(cells(&game.tetrus.inactive), vec![(4, 23), (3, 23), (4, 22), (3, 22)]);
    assert_eq!(game.state, State::Running);
}

#[test]
fn a_drop_and_a_due_tick_lock_in_one_frame() {
    let mut game = running_with(BlockType::I);
    let report = game.run(&Input { drop: true, ..idle(401) });
    assert_eq!(report, Report { sound: Some(Sound::Drop), ticked: true });
    assert!(!game.tetrus.is_active());
    assert_eq!(cells(&game.tetrus.inactive), vec![(5, 23), (5, 22), (5, 21), (5, 20)]);
}

#[test]
fn the_game_over_screen_follows_a_lock_in_the_buffer() {
    let mut game = Game::new();
    game.state = State::Running;
    for stacked in 0..6 {
        assert_eq!(game.state, State::Running);
        game.tetrus.spawn_kind(BlockType::I);
        let report = game.run(&Input { drop: true, ..idle(1_000) });
        assert!(report.ticked);
        assert_eq!(game.tetrus.inactive.len(), 4 * (stacked + 1));
    }
    assert_eq!(game.state, State::GameOver);
    assert!(game.tetrus.is_game_over());
    assert_eq!(game.tetrus.score, 30);
}

#[test]
fn the_game_over_screen_waits_for_the_start_key() {
    let mut game = Game::new();
    game.state = State::Running;
    for _ in 0..6 {
        game.tetrus.spawn_kind(BlockType::I);
        game.run(&Input { drop: true, ..idle(1_000) });
    }
    assert_eq!(game.state, State::GameOver);
    game.tetrus.swap_tick();
    let report = game.run(&Input { left: true, rotate: true, ..idle(1_000) });
    assert_eq!(report, Report { sound: None, ticked: false });
    assert_eq!(game.state, State::GameOver);
    assert_eq!(game.tetrus.inactive.len(), 24);
    assert_eq!(game.tetrus.score, 30);
    let report = game.run(&Input { drop: true, ..idle(1_000) });
    assert_eq!(report, Report { sound: None, ticked: false });
    assert_eq!(game.state, State::Running);
    assert!(game.tetrus.inactive.is_empty());
    assert!(game.tetrus.active.is_empty());
    assert_eq!(game.tetrus.score, 0);
    assert_eq!(game.tetrus.tick, 400);
    assert!(!game.tetrus.fast);
}

#[test]
fn a_session_keeps_its_board_well_formed() {
    let mut game = Game::new();
    let inputs = [
        Input { drop: true, ..idle(0) },
        idle(401),
        Input { left: true, ..idle(10) },
        Input { rotate: true, ..idle(401) },
        Input { right: true, soft_drop: true, ..idle(90) },
        Input { drop: true, ..idle(101) },
        Input { soft_drop: true, ..idle(401) },
    ];
    let mut frames = 0;
    let mut games_begun = 0;
    while frames < 3_000 {
        let before = game.state;
        game.run(&inputs[frames % inputs.len()]);
        assert!(game.tetrus.is_well_formed());
        if game.state != State::GameOver {
            assert!(!game.tetrus.is_game_over());
        } else {
            assert!(game.tetrus.is_game_over());
        }
        if before != State::Running && game.state == State::Running {
            games_begun += 1;
        }
        frames += 1;
    }
    assert!(games_begun >= 2);
}

#[test]
fn random_play_keeps_every_invariant() {
    let mut rng = rand::thread_rng();
    for _ in 0..10 {
        let mut game = Game::new();
        let mut frames = 0;
        let mut last_score = 0;
        while frames < 1_500 {
            let input = Input {
                left: rng.gen_range(0..4) == 0,
                right: rng.gen_range(0..4) == 0,
                drop: rng.gen_range(0..6) == 0,
                rotate: rng.gen_range(0..3) == 0,
                soft_drop: rng.gen_range(0..10) == 0,
                elapsed: rng.gen_range(0..800),
            };
            let before = game.state;
            let pile = game.tetrus.inactive.len();
            let report = game.run(&input);
            let board = &game.tetrus;
            assert!(board.is_well_formed());
            assert!(board.active.len() == 0 || board.active.len() == 4);
            for a in &board.active {
                assert!(a.position.x < 10 && a.position.y < 24);
                assert!(!board.inactive.iter().any(|b| b.position == a.position));
            }
            assert!(board.inactive.iter().all(|b| b.position.x < 10 && b.position.y < 24));
            assert!(board.inactive.len() <= 240);
            for y in 4..24 {
                assert!(board.inactive.iter().filter(|b| b.position.y == y).count() < 10);
            }
            assert_eq!(game.state == State::GameOver, board.is_game_over());
            assert!(board.tick >= 100 && board.tick <= 400);
            assert_eq!(board.fast_tick, 100);
            if before == State::Running {
                assert!(board.score >= last_score);
                let gained = board.score - last_score;
                if !report.ticked {
                    assert_eq!(gained, 0);
                    assert_eq!(board.inactive.len(), pile);
                } else {
                    assert!(gained == 0 || gained == 5 || (gained % 100 == 0 && gained <= 400));
                }
            } else {
                assert!(!report.ticked);
                assert_eq!(report.sound, None);
            }
            last_score = board.score;
            frames += 1;
        }
    }
}

#[test]
fn session_well_formedness_is_told_apart() {
    let mut game = Game::new();
    assert!(game.is_well_formed());
    game.state = State::GameOver;
    assert!(!game.is_well_formed());
    game.state = State::Running;
    assert!(game.is_well_formed());
    for _ in 0..6 {
        game.tetrus.spawn_kind(BlockType::I);
        game.run(&Input { drop: true, ..idle(1_000) });
        assert!(game.is_well_formed());
    }
    assert_eq!(game.state, State::GameOver);
    game.state = State::Running;
    assert!(!game.is_well_formed());
    game.state = State::GameOver;
    game.tetrus.origin = Position { x: 9, y: 9 };
    assert!(game.is_well_formed());
    game.tetrus.inactive.push(game.tetrus.inactive[0]);
    assert!(!game.is_well_formed());
}
