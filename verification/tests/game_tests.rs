use tflap::bird::Bird;
use tflap::game::{gap_range, random_gap, random_gaps, Game};
use tflap::pipe::Pipe;
use tflap::rules::{GameState, BIRD_X, GAP_MARGIN, INITIAL_PIPES, PIPE_SPACING, SPAWN_MARGIN};

fn playing(bird: Bird, pipes: Vec<Pipe>, score: u32, high_score: u32) -> Game {
    Game {
        bird,
        pipes,
        score,
        high_score,
        is_new_record: false,
        state: GameState::Playing,
        width: 80,
        height: 24,
    }
}

#[test]
fn game_constants() {
    assert_eq!(BIRD_X, 10);
    assert_eq!(PIPE_SPACING, 40);
    assert_eq!(INITIAL_PIPES, 4);
    assert_eq!(GAP_MARGIN, 3);
    assert_eq!(SPAWN_MARGIN, 20);
}

#[test]
fn gap_range_keeps_the_margins() {
    assert_eq!(gap_range(24), (3, 13));
    assert_eq!(gap_range(20), (3, 9));
    assert_eq!(gap_range(15), (3, 4));
    assert_eq!(gap_range(14), (3, 3));
    assert_eq!(gap_range(u16::MAX), (3, 65_524));
}

#[test]
fn gap_range_is_never_empty_on_low_screens() {
    assert_eq!(gap_range(13), (2, 2));
    assert_eq!(gap_range(12), (1, 1));
    assert_eq!(gap_range(11), (0, 0));
    assert_eq!(gap_range(5), (0, 0));
    assert_eq!(gap_range(0), (0, 0));
}

#[test]
fn random_gaps_stay_in_range_and_vary() {
    let mut seen = [false; 14];
    for _ in 0..400 {
        let gap = random_gap(24);
        assert!((3..=13).contains(&gap));
        seen[gap as usize] = true;
    }
    assert!(seen.iter().filter(|hit| **hit).count() >= 2);
    for height in [0u16, 5, 11, 13, 14, 15, 200] {
        let (lo, hi) = gap_range(height);
        for gap in random_gaps(height) {
            assert!(lo <= gap && gap <= hi);
        }
    }
}

#[test]
fn new_game_starts_in_the_initial_state() {
    let game = Game::new(80, 24, 17);
    assert_eq!(game.bird, Bird { y: 120, velocity: 0 });
    assert_eq!(game.score, 0);
    assert_eq!(game.high_score, 17);
    assert!(!game.is_new_record);
    assert_eq!(game.state, GameState::Playing);
    assert_eq!(game.width, 80);
    assert_eq!(game.height, 24);
    assert_eq!(game.pipes.len(), 4);
    for (i, pipe) in game.pipes.iter().enumerate() {
        assert_eq!(pipe.x, 40 + 40 * i as i32);
        assert!(!pipe.passed);
        assert!(3 <= pipe.gap_y && pipe.gap_y + 8 <= 24 - 3);
    }
    assert!(game.is_valid());
}

#[test]
fn new_games_differ_in_their_gaps() {
    let first = Game::new(80, 200, 0);
    let mut differs = false;
    for _ in 0..50 {
        if Game::new(80, 200, 0).pipes != first.pipes {
            differs = true;
        }
    }
    assert!(differs);
}

#[test]
fn new_game_on_a_tiny_screen_does_not_fail() {
    for height in 0u16..20 {
        for width in [0u16, 1, 7, 30] {
            let game = Game::new(width, height, 0);
            assert_eq!(game.pipes.len(), 4);
            assert_eq!(game.bird.y, (height / 2) as i32 * 10);
            assert!(game.is_valid());
        }
    }
}

#[test]
fn with_gaps_places_the_pipes() {
    let game = Game::with_gaps(81, 30, 2, [3, 7, 11, 19]);
    assert_eq!(
        game.pipes,
        vec![Pipe::new(40, 3), Pipe::new(80, 7), Pipe::new(120, 11), Pipe::new(160, 19)]
    );
    assert_eq!(game.bird, Bird { y: 150, velocity: 0 });
    assert_eq!(game.high_score, 2);
    let widest = Game::with_gaps(u16::MAX, 30, 0, [3, 3, 3, 3]);
    assert_eq!(widest.pipes[3].x, 32_767 + 120);
}

#[test]
fn first_tick_lets_the_bird_fall() {
    let mut game = Game::with_gaps(80, 20, 0, [3, 3, 3, 3]);
    assert_eq!(game.bird, Bird { y: 100, velocity: 0 });
    let record = game.update_with(3);
    assert_eq!(record, None);
    assert_eq!(game.bird, Bird { y: 103, velocity: 3 });
    assert_eq!(game.state, GameState::Playing);
    game.update_with(3);
    assert_eq!(game.bird, Bird { y: 109, velocity: 6 });
}

#[test]
fn tick_moves_every_pipe() {
    let mut game = Game::with_gaps(80, 24, 0, [5, 6, 7, 8]);
    game.update_with(5);
    assert_eq!(
        game.pipes,
        vec![Pipe::new(39, 5), Pipe::new(79, 6), Pipe::new(119, 7), Pipe::new(159, 8)]
    );
    assert_eq!(game.score, 0);
}

#[test]
fn leaving_through_the_bottom_ends_the_run() {
    let mut game = playing(Bird { y: 236, velocity: 0 }, vec![Pipe::new(70, 5)], 0, 0);
    assert_eq!(game.update_with(5), None);
    assert_eq!(game.state, GameState::Playing);
    assert_eq!(game.bird, Bird { y: 239, velocity: 3 });
    assert_eq!(game.pipes, vec![Pipe::new(69, 5)]);
    assert_eq!(game.update_with(5), None);
    assert_eq!(game.state, GameState::GameOver);
    assert_eq!(game.bird, Bird { y: 245, velocity: 6 });
    // The tick that ends the run this way leaves the pipes where they were.
    assert_eq!(game.pipes, vec![Pipe::new(69, 5)]);
}

#[test]
fn leaving_through_the_top_ends_the_run() {
    let mut game = playing(Bird { y: 5, velocity: 0 }, vec![Pipe::new(50, 5)], 0, 0);
    game.jump();
    assert_eq!(game.update_with(5), None);
    assert_eq!(game.state, GameState::GameOver);
    assert_eq!(game.bird, Bird { y: -7, velocity: -12 });
    assert_eq!(game.pipes, vec![Pipe::new(50, 5)]);
}

#[test]
fn top_row_itself_is_inside() {
    let mut game = playing(Bird { y: 12, velocity: -15 }, vec![Pipe::new(50, 5)], 0, 0);
    game.update_with(5);
    assert_eq!(game.bird, Bird { y: 0, velocity: -12 });
    assert_eq!(game.state, GameState::Playing);
}

#[test]
fn score_goes_up_once_per_pipe() {
    let pipes = vec![Pipe::new(5, 8), Pipe::new(45, 8)];
    let mut game = playing(Bird { y: 100, velocity: -3 }, pipes, 0, 0);
    // x = 4: the right edge is at the bird's column, not yet behind it.
    game.update_with(5);
    assert_eq!(game.score, 0);
    assert!(!game.pipes[0].passed);
    game.jump();
    // x = 3: passed.
    game.update_with(5);
    assert_eq!(game.score, 1);
    assert!(game.pipes[0].passed);
    assert!(!game.pipes[1].passed);
    for _ in 0..5 {
        game.update_with(5);
        assert_eq!(game.score, 1);
        assert!(game.pipes[0].passed);
    }
    assert_eq!(game.state, GameState::Playing);
}

#[test]
fn two_pipes_passed_on_one_tick_give_two_points() {
    let pipes = vec![Pipe::new(-2, 8), Pipe::new(1, 8)];
    let mut game = playing(Bird { y: 100, velocity: 0 }, pipes, 7, 0);
    game.update_with(5);
    assert_eq!(game.score, 9);
    assert!(game.pipes.iter().take(2).all(|pipe| pipe.passed));
}

#[test]
fn pipes_are_scored_before_a_crash_is_detected() {
    // The first pipe is passed on the very tick on which the bird hits the
    // second one.
    let pipes = vec![Pipe::new(4, 8), Pipe::new(12, 8)];
    let mut game = playing(Bird { y: 20, velocity: 0 }, pipes, 0, 0);
    assert_eq!(game.update_with(5), Some(1));
    assert_eq!(game.state, GameState::GameOver);
    assert_eq!(game.score, 1);
    assert_eq!(game.high_score, 1);
    assert!(game.is_new_record);
    assert_eq!(game.pipes, vec![Pipe { x: 3, gap_y: 8, passed: true }, Pipe::new(11, 8)]);
}

#[test]
fn crash_needs_overlap_and_a_row_outside_the_gap() {
    // In the gap.
    let mut safe = playing(Bird { y: 100, velocity: 0 }, vec![Pipe::new(11, 8)], 0, 0);
    safe.update_with(5);
    assert_eq!(safe.state, GameState::Playing);
    // Last row of the gap: rows 8 to 15.
    let mut last = playing(Bird { y: 150, velocity: 0 }, vec![Pipe::new(11, 8)], 0, 0);
    last.update_with(5);
    assert_eq!(last.bird.row(), 15);
    assert_eq!(last.state, GameState::Playing);
    // First row below the gap.
    let mut below = playing(Bird { y: 157, velocity: 0 }, vec![Pipe::new(11, 8)], 0, 0);
    below.update_with(5);
    assert_eq!(below.bird.row(), 16);
    assert_eq!(below.state, GameState::GameOver);
    // Above the gap.
    let mut above = playing(Bird { y: 70, velocity: 0 }, vec![Pipe::new(11, 8)], 0, 0);
    above.update_with(5);
    assert_eq!(above.bird.row(), 7);
    assert_eq!(above.state, GameState::GameOver);
    // Outside the gap, but the pipe is still one column away after moving.
    let mut away = playing(Bird { y: 70, velocity: 0 }, vec![Pipe::new(13, 8)], 0, 0);
    away.update_with(5);
    assert_eq!(away.pipes[0].x, 12);
    assert_eq!(away.state, GameState::Playing);
}

#[test]
fn end_of_run_with_a_new_best_score() {
    let mut game = playing(Bird { y: 238, velocity: 0 }, vec![Pipe::new(50, 5)], 5, 3);
    let record = game.update_with(5);
    assert_eq!(game.state, GameState::GameOver);
    assert_eq!(game.high_score, 5);
    assert!(game.is_new_record);
    assert_eq!(record, Some(5));
    assert_eq!(game.score, 5);
}

#[test]
fn end_of_run_without_a_new_best_score() {
    let mut game = playing(Bird { y: 238, velocity: 0 }, vec![Pipe::new(50, 5)], 3, 3);
    assert_eq!(game.update_with(5), None);
    assert_eq!(game.state, GameState::GameOver);
    assert_eq!(game.high_score, 3);
    assert!(!game.is_new_record);
    let mut lower = playing(Bird { y: 238, velocity: 0 }, vec![Pipe::new(50, 5)], 2, 3);
    assert_eq!(lower.update_with(5), None);
    assert_eq!(lower.high_score, 3);
    assert!(!lower.is_new_record);
}

#[test]
fn check_and_save_highscore_commits_only_a_better_score() {
    let mut game = playing(Bird::new(12), vec![], 5, 3);
    assert_eq!(game.check_and_save_highscore(), Some(5));
    assert_eq!(game.high_score, 5);
    assert!(game.is_new_record);
    assert_eq!(game.check_and_save_highscore(), None);
    let mut equal = playing(Bird::new(12), vec![], 3, 3);
    assert_eq!(equal.check_and_save_highscore(), None);
    assert_eq!(equal.high_score, 3);
    assert!(!equal.is_new_record);
}

#[test]
fn nothing_moves_after_the_end() {
    let pipes = vec![Pipe::new(50, 5), Pipe::new(90, 6)];
    let mut game = playing(Bird { y: 238, velocity: 0 }, pipes, 5, 3);
    game.update_with(5);
    assert_eq!(game.state, GameState::GameOver);
    let ended = game.clone();
    for _ in 0..10 {
        assert_eq!(game.update_with(7), None);
        assert_eq!(game, ended);
        assert_eq!(game.update(), None);
        assert_eq!(game, ended);
        game.jump();
        assert_eq!(game, ended);
    }
}

#[test]
fn jump_sets_the_speed_while_playing() {
    let mut game = Game::with_gaps(80, 24, 0, [5, 5, 5, 5]);
    game.update_with(5);
    game.update_with(5);
    assert_eq!(game.bird.velocity, 6);
    game.jump();
    assert_eq!(game.bird, Bird { y: 129, velocity: -15 });
    game.update_with(5);
    assert_eq!(game.bird, Bird { y: 117, velocity: -12 });
}

#[test]
fn reset_keeps_only_the_best_score() {
    let mut game = playing(Bird { y: 238, velocity: 0 }, vec![Pipe::new(50, 5)], 5, 3);
    game.update_with(5);
    assert_eq!(game.state, GameState::GameOver);
    game.reset();
    assert_eq!(game.high_score, 5);
    assert_eq!(game.score, 0);
    assert!(!game.is_new_record);
    assert_eq!(game.state, GameState::Playing);
    assert_eq!(game.bird, Bird { y: 120, velocity: 0 });
    assert_eq!(game.pipes.len(), 4);
    for (i, pipe) in game.pipes.iter().enumerate() {
        assert_eq!(pipe.x, 40 + 40 * i as i32);
        assert!(!pipe.passed);
        assert!((3..=13).contains(&pipe.gap_y));
    }
    assert_eq!((game.width, game.height), (80, 24));
    assert!(game.is_valid());
}

#[test]
fn reset_with_places_the_given_gaps() {
    let mut game = playing(Bird { y: 238, velocity: 9 }, vec![Pipe::new(50, 5)], 5, 8);
    game.reset_with([3, 4, 5, 13]);
    assert_eq!(game, Game::with_gaps(80, 24, 8, [3, 4, 5, 13]));
}

#[test]
fn pipe_is_dropped_when_its_right_edge_reaches_the_border() {
    let mut game = playing(
        Bird { y: 100, velocity: -3 },
        vec![Pipe { x: -4, gap_y: 8, passed: true }, Pipe::new(70, 9)],
        1,
        0,
    );
    game.update_with(5);
    assert_eq!(game.pipes.len(), 2);
    assert_eq!(game.pipes[0].x, -5);
    game.jump();
    game.update_with(5);
    assert_eq!(game.pipes, vec![Pipe::new(68, 9)]);
    assert_eq!(game.score, 1);
}

#[test]
fn new_pipe_comes_one_spacing_behind_the_last() {
    let mut game = playing(Bird { y: 100, velocity: -3 }, vec![Pipe::new(61, 8)], 0, 0);
    // x = 60: not yet left of the mark at 80 - 20.
    game.update_with(11);
    assert_eq!(game.pipes, vec![Pipe::new(60, 8)]);
    game.jump();
    // x = 59: a pipe is due, 40 columns behind.
    game.update_with(11);
    assert_eq!(game.pipes, vec![Pipe::new(59, 8), Pipe::new(99, 11)]);
    game.update_with(12);
    assert_eq!(game.pipes, vec![Pipe::new(58, 8), Pipe::new(98, 11)]);
}

#[test]
fn new_pipe_comes_at_the_right_border_when_none_is_left() {
    let mut game = playing(Bird { y: 100, velocity: 0 }, vec![], 0, 0);
    game.update_with(4);
    assert_eq!(game.pipes, vec![Pipe::new(80, 4)]);
    let pipes = vec![Pipe { x: -5, gap_y: 8, passed: true }];
    let mut last_leaves = playing(Bird { y: 100, velocity: 0 }, pipes, 0, 0);
    last_leaves.update_with(6);
    assert_eq!(last_leaves.pipes, vec![Pipe::new(80, 6)]);
}

#[test]
fn spawn_pipe_with_puts_a_pipe_behind_the_others() {
    let mut game = Game::with_gaps(80, 24, 0, [5, 6, 7, 8]);
    game.spawn_pipe_with(9);
    assert_eq!(game.pipes.len(), 5);
    assert_eq!(game.pipes[4], Pipe::new(200, 9));
    let mut empty = playing(Bird::new(12), vec![], 0, 0);
    empty.spawn_pipe_with(3);
    assert_eq!(empty.pipes, vec![Pipe::new(80, 3)]);
}

#[test]
fn spawn_pipe_draws_an_allowed_gap() {
    let mut game = Game::with_gaps(80, 24, 0, [5, 6, 7, 8]);
    for i in 0..20 {
        game.spawn_pipe();
        let pipe = game.pipes[4 + i];
        assert_eq!(pipe.x, 200 + 40 * i as i32);
        assert!(!pipe.passed);
        assert!((3..=13).contains(&pipe.gap_y));
    }
    assert!(game.is_valid());
}

#[test]
fn update_draws_allowed_gaps() {
    let mut game = playing(Bird { y: 100, velocity: 0 }, vec![], 0, 0);
    assert_eq!(game.update(), None);
    assert_eq!(game.pipes.len(), 1);
    assert_eq!(game.pipes[0].x, 80);
    assert!((3..=13).contains(&game.pipes[0].gap_y));
    assert!(game.is_valid());
}

#[test]
fn a_long_run_stays_valid_and_counts_every_pipe() {
    let mut game = Game::with_gaps(80, 24, 0, [8, 8, 8, 8]);
    for tick in 1..=2000u32 {
        if game.bird.y >= 130 && game.bird.velocity >= 0 {
            game.jump();
        }
        assert!(game.score_fits());
        assert_eq!(game.update_with(8), None);
        assert_eq!(game.state, GameState::Playing, "at tick {}", tick);
        assert!(game.is_valid(), "at tick {}", tick);
        // Pipe number i starts at column 40 + 40 i and is passed once it
        // has reached column 3.
        let expected = if tick < 37 { 0 } else { (tick - 37) / 40 + 1 };
        assert_eq!(game.score, expected, "at tick {}", tick);
        assert!(game.pipes.len() <= 4);
        assert!(game.pipes.windows(2).all(|pair| pair[1].x == pair[0].x + 40));
        assert!(game.pipes.iter().all(|pipe| pipe.x > -6));
    }
    assert_eq!(game.score, 50);
}

#[test]
fn validity_check_rejects_broken_states() {
    let good = Game::with_gaps(80, 24, 0, [5, 6, 7, 8]);
    assert!(good.is_valid());
    let mut gap = good.clone();
    gap.pipes[1].gap_y = 14;
    assert!(!gap.is_valid());
    let mut low = good.clone();
    low.pipes[1].gap_y = 2;
    assert!(!low.is_valid());
    let mut gone = good.clone();
    gone.pipes[0].x = -6;
    assert!(!gone.is_valid());
    gone.state = GameState::GameOver;
    assert!(gone.is_valid());
    let mut bird = good.clone();
    bird.bird.y = 241;
    assert!(!bird.is_valid());
    bird.state = GameState::GameOver;
    assert!(bird.is_valid());
    let mut fast = good.clone();
    fast.bird.velocity = -16;
    assert!(!fast.is_valid());
    let mut swapped = good.clone();
    swapped.pipes.swap(1, 2);
    assert!(!swapped.is_valid());
    let mut twice = good.clone();
    twice.pipes[2].x = twice.pipes[1].x;
    assert!(!twice.is_valid());
}

#[test]
fn score_fits_unless_the_tick_would_overflow_it() {
    let full = playing(Bird { y: 100, velocity: 0 }, vec![Pipe::new(4, 8)], u32::MAX, 0);
    assert!(!full.score_fits());
    let not_passing = playing(Bird { y: 100, velocity: 0 }, vec![Pipe::new(5, 8)], u32::MAX, 0);
    assert!(not_passing.score_fits());
    let pipes = vec![Pipe { x: 2, gap_y: 8, passed: true }];
    let marked = playing(Bird { y: 100, velocity: 0 }, pipes, u32::MAX, 0);
    assert!(marked.score_fits());
    let leaving = playing(Bird { y: 238, velocity: 0 }, vec![Pipe::new(4, 8)], u32::MAX, 0);
    assert!(leaving.score_fits());
    let mut over = full.clone();
    over.state = GameState::GameOver;
    assert!(over.score_fits());
    let room = playing(Bird { y: 100, velocity: 0 }, vec![Pipe::new(4, 8)], u32::MAX - 1, 0);
    assert!(room.score_fits());
}
