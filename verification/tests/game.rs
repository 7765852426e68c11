use snake_game::controller::{GameController, NewGameError, Phase, TickReport};
use snake_game::grid::{contains_cell, move_cell, wrap_step, Cell, Dir};
use snake_game::spawn::spawn_food;
use snake_game::state::{interval_after_foods, GameState, INITIAL_INTERVAL_MS};

fn cell(x: i32, y: i32) -> Cell {
    Cell { x, y }
}

fn state(width: i32, height: i32, snake: Vec<Cell>, dir: Dir, food: Cell) -> GameState {
    GameState::from_parts(width, height, snake, dir, food).unwrap()
}

#[test]
fn wrap_step_stays_in_bounds() {
    for v in 0..10 {
        for d in [-1, 0, 1] {
            let r = wrap_step(v, d, 10);
            assert!(0 <= r && r < 10);
        }
    }
    assert_eq!(wrap_step(0, -1, 10), 9);
    assert_eq!(wrap_step(9, 1, 10), 0);
    assert_eq!(wrap_step(4, 1, 10), 5);
    assert_eq!(wrap_step(0, -1, 1), 0);
}

#[test]
fn move_cell_wraps_every_edge() {
    assert_eq!(move_cell(cell(0, 3), Dir::Left, 10, 8), cell(9, 3));
    assert_eq!(move_cell(cell(9, 3), Dir::Right, 10, 8), cell(0, 3));
    assert_eq!(move_cell(cell(4, 0), Dir::Up, 10, 8), cell(4, 7));
    assert_eq!(move_cell(cell(4, 7), Dir::Down, 10, 8), cell(4, 0));
    assert_eq!(move_cell(cell(4, 3), Dir::Still, 10, 8), cell(4, 3));
}

#[test]
fn scenario_a_plain_move_keeps_length() {
    let mut s = state(10, 10, vec![cell(5, 5)], Dir::Right, cell(9, 9));
    let (ate, over) = s.advance();
    assert!(!ate);
    assert!(!over);
    assert_eq!(s.snake_cells(), vec![cell(6, 5)]);
    assert_eq!(s.score(), 0);
}

#[test]
fn scenario_b_eating_grows_head_last() {
    let mut s = state(10, 10, vec![cell(5, 5)], Dir::Right, cell(6, 5));
    let (ate, over) = s.advance();
    assert!(ate);
    assert!(!over);
    assert_eq!(s.snake_cells(), vec![cell(5, 5), cell(6, 5)]);
}

#[test]
fn scenario_b_controller_scores_and_speeds_up() {
    let s = state(10, 10, vec![cell(5, 5)], Dir::Right, cell(6, 5));
    let mut game = GameController::from_state(s).unwrap();
    let (interval, generation) = game.start().unwrap();
    assert_eq!(interval, 100);
    assert_eq!(generation, 1);
    match game.tick(generation) {
        TickReport::Ate { score, interval_ms, generation } => {
            assert_eq!(score, 1);
            assert_eq!(interval_ms, 99);
            assert_eq!(generation, 2);
        },
        other => panic!("expected an eating tick, got {:?}", other),
    }
    assert_eq!(game.state().score(), 1);
    assert_eq!(game.state().interval_ms(), 99);
    assert_eq!(game.state().snake_cells(), vec![cell(5, 5), cell(6, 5)]);
    // fresh food: on the grid and off the snake
    let food = game.state().food();
    assert!(0 <= food.x && food.x < 10 && 0 <= food.y && food.y < 10);
    assert!(!game.state().snake_cells().contains(&food));
}

#[test]
fn scenario_c_reversal_is_ignored() {
    let s = state(10, 10, vec![cell(1, 5), cell(2, 5), cell(3, 5)], Dir::Right, cell(9, 9));
    let mut game = GameController::from_state(s).unwrap();
    let (_, generation) = game.start().unwrap();
    game.request_direction(Dir::Left);
    assert_eq!(game.state().direction(), Dir::Right);
    assert_eq!(game.tick(generation), TickReport::Moved);
    assert_eq!(
        game.state().snake_cells(),
        vec![cell(2, 5), cell(3, 5), cell(4, 5)]
    );
}

#[test]
fn scenario_d_head_wraps_at_boundary() {
    let mut s = state(10, 10, vec![cell(9, 5)], Dir::Right, cell(3, 3));
    let (ate, over) = s.advance();
    assert!(!ate);
    assert!(!over);
    assert_eq!(s.snake_cells(), vec![cell(0, 5)]);
}

#[test]
fn scenario_e_self_collision_ends_game_once() {
    // A loop of four cells; the head at (5,6) moving right hits (6,6).
    let body = vec![cell(5, 5), cell(6, 5), cell(6, 6), cell(5, 6)];
    let s = state(10, 10, body.clone(), Dir::Right, cell(9, 9));
    let mut game = GameController::from_state(s).unwrap();
    let (_, generation) = game.start().unwrap();
    assert_eq!(game.tick(generation), TickReport::GameOver);
    assert_eq!(game.phase(), Phase::GameOver);
    assert_eq!(game.state().snake_cells(), body);
    assert_eq!(game.state().score(), 3);
    // the superseded timer fires again: a stale no-op, not a second game over
    assert_eq!(game.tick(generation), TickReport::Stale);
    assert_eq!(game.phase(), Phase::GameOver);
}

#[test]
fn moving_into_vacating_tail_still_collides() {
    // The collision check runs against the body before the tail is
    // dropped, so stepping onto the tail cell ends the game even though
    // that cell would have been vacated this very tick.
    let mut s = state(10, 10, vec![cell(5, 5), cell(6, 5)], Dir::Left, cell(9, 9));
    let (ate, over) = s.advance();
    assert!(!ate);
    assert!(over);
    assert_eq!(s.snake_cells(), vec![cell(5, 5), cell(6, 5)]);
}

#[test]
fn single_cell_snake_wraps_onto_itself_on_width_one() {
    // On a one-wide grid a horizontal step wraps back onto the only
    // occupied cell: the full-body check sees it.
    let mut s = state(1, 5, vec![cell(0, 2)], Dir::Right, cell(0, 4));
    let (ate, over) = s.advance();
    assert!(!ate);
    assert!(over);
}

#[test]
fn debounce_only_first_request_counts() {
    let s = state(10, 10, vec![cell(5, 5)], Dir::Right, cell(9, 9));
    let mut game = GameController::from_state(s).unwrap();
    let (_, generation) = game.start().unwrap();
    game.request_direction(Dir::Up);
    game.request_direction(Dir::Down);
    assert_eq!(game.state().direction(), Dir::Up);
    game.tick(generation);
    // the tick boundary resets the debounce: a new request is accepted
    game.request_direction(Dir::Left);
    assert_eq!(game.state().direction(), Dir::Left);
}

#[test]
fn rejected_reversal_does_not_use_up_the_tick_window() {
    let s = state(10, 10, vec![cell(5, 5)], Dir::Right, cell(9, 9));
    let mut game = GameController::from_state(s).unwrap();
    game.start().unwrap();
    game.request_direction(Dir::Left); // reversal: ignored
    assert_eq!(game.state().direction(), Dir::Right);
    game.request_direction(Dir::Up); // still accepted this tick
    assert_eq!(game.state().direction(), Dir::Up);
}

#[test]
fn requests_outside_running_are_no_ops() {
    let s = state(10, 10, vec![cell(5, 5)], Dir::Right, cell(9, 9));
    let mut game = GameController::from_state(s).unwrap();
    game.request_direction(Dir::Up); // not started yet
    assert_eq!(game.state().direction(), Dir::Right);
}

#[test]
fn interval_decays_one_percent_per_food() {
    assert_eq!(interval_after_foods(0), 100);
    assert_eq!(interval_after_foods(1), 99);
    assert_eq!(interval_after_foods(2), 98);
    assert_eq!(interval_after_foods(10), 90);
    let mut prev = INITIAL_INTERVAL_MS;
    for n in 0..500 {
        let cur = interval_after_foods(n);
        assert!(0 <= cur && cur <= prev);
        prev = cur;
    }
    assert_eq!(interval_after_foods(1000), 0);
}

#[test]
fn new_game_rejects_bad_dimensions() {
    assert_eq!(GameController::new(0, 10).err().unwrap(), NewGameError::InvalidDimensions);
    assert_eq!(GameController::new(10, -3).err().unwrap(), NewGameError::InvalidDimensions);
    assert_eq!(GameController::new(46341, 10).err().unwrap(), NewGameError::InvalidDimensions);
    assert_eq!(GameController::new(1, 1).err().unwrap(), NewGameError::BoardFull);
}

#[test]
fn new_game_starts_centered_with_food_off_the_snake() {
    let game = GameController::new(10, 8).unwrap();
    assert_eq!(game.phase(), Phase::NotStarted);
    assert_eq!(game.generation(), 0);
    assert_eq!(game.state().snake_cells(), vec![cell(5, 4)]);
    assert_eq!(game.state().direction(), Dir::Still);
    assert_eq!(game.state().score(), 0);
    assert_eq!(game.state().interval_ms(), 100);
    let food = game.state().food();
    assert!(0 <= food.x && food.x < 10 && 0 <= food.y && food.y < 8);
    assert_ne!(food, cell(5, 4));
}

#[test]
fn start_only_once_and_ticks_need_the_right_generation() {
    let mut game = GameController::new(10, 10).unwrap();
    // before start, a tick is stale
    assert_eq!(game.tick(0), TickReport::Stale);
    let (interval, generation) = game.start().unwrap();
    assert_eq!(interval, 100);
    assert_eq!(game.phase(), Phase::Running);
    assert_eq!(game.start(), None);
    assert_eq!(game.tick(generation.wrapping_add(7)), TickReport::Stale);
    // no direction committed yet: the snake stands still
    assert_eq!(game.tick(generation), TickReport::Moved);
    assert_eq!(game.state().snake_cells(), vec![cell(5, 5)]);
}

#[test]
fn restart_resets_everything_under_a_new_generation() {
    let s = state(10, 10, vec![cell(5, 5), cell(6, 5)], Dir::Left, cell(9, 9));
    let mut game = GameController::from_state(s).unwrap();
    let (_, generation) = game.start().unwrap();
    assert_eq!(game.tick(generation), TickReport::GameOver);
    let (interval, new_generation) = game.restart();
    assert_eq!(interval, 100);
    assert_eq!(new_generation, 2);
    assert_eq!(game.phase(), Phase::Running);
    assert_eq!(game.state().snake_cells(), vec![cell(5, 5)]);
    assert_eq!(game.state().score(), 0);
    assert_eq!(game.state().interval_ms(), 100);
    assert_eq!(game.state().direction(), Dir::Still);
    assert!(!game.state().snake_cells().contains(&game.state().food()));
    // the old timer's callback is stale now
    assert_eq!(game.tick(generation), TickReport::Stale);
}

#[test]
fn filling_the_board_wins() {
    let s = state(1, 2, vec![cell(0, 0)], Dir::Down, cell(0, 1));
    let mut game = GameController::from_state(s).unwrap();
    let (_, generation) = game.start().unwrap();
    assert_eq!(game.tick(generation), TickReport::Won);
    assert_eq!(game.phase(), Phase::Won);
    assert_eq!(game.state().score(), 1);
    let mut cells = game.state().snake_cells();
    cells.sort_by_key(|c| (c.x, c.y));
    assert_eq!(cells, vec![cell(0, 0), cell(0, 1)]);
    assert_eq!(game.tick(generation), TickReport::Stale);
}

#[test]
fn spawner_finds_the_only_free_cell() {
    let snake = vec![cell(0, 0), cell(1, 0), cell(0, 1)];
    let food = spawn_food(&snake, 2, 2).unwrap();
    assert_eq!(food, cell(1, 1));
}

#[test]
fn spawner_reports_a_full_board() {
    let snake = vec![cell(0, 0), cell(1, 0), cell(0, 1), cell(1, 1)];
    assert_eq!(spawn_food(&snake, 2, 2), None);
}

#[test]
fn spawner_avoids_the_snake() {
    let snake: Vec<Cell> = (0..9).map(|x| cell(x, 0)).collect();
    for _ in 0..50 {
        let food = spawn_food(&snake, 10, 3).unwrap();
        assert!(0 <= food.x && food.x < 10 && 0 <= food.y && food.y < 3);
        assert!(!snake.contains(&food));
    }
}

#[test]
fn contains_cell_finds_members_only() {
    let cells = vec![cell(1, 2), cell(3, 4)];
    assert!(contains_cell(&cells, cell(3, 4)));
    assert!(!contains_cell(&cells, cell(4, 3)));
}

#[test]
fn from_parts_rejects_invalid_positions() {
    // duplicate body cell
    assert!(GameState::from_parts(10, 10, vec![cell(1, 1), cell(1, 1)], Dir::Right, cell(0, 0))
        .is_none());
    // empty snake
    assert!(GameState::from_parts(10, 10, vec![], Dir::Right, cell(0, 0)).is_none());
    // body off the grid
    assert!(GameState::from_parts(10, 10, vec![cell(10, 0)], Dir::Right, cell(0, 0)).is_none());
    // food on the snake
    assert!(GameState::from_parts(10, 10, vec![cell(2, 2)], Dir::Right, cell(2, 2)).is_none());
    // degenerate grid
    assert!(GameState::from_parts(0, 10, vec![cell(0, 0)], Dir::Right, cell(0, 1)).is_none());
}

#[test]
fn from_parts_derives_score_and_interval_from_length() {
    let s = state(10, 10, vec![cell(1, 1), cell(2, 1), cell(3, 1)], Dir::Right, cell(9, 9));
    assert_eq!(s.score(), 2);
    assert_eq!(s.interval_ms(), 98);
    assert_eq!(s.width(), 10);
    assert_eq!(s.height(), 10);
    assert_eq!(s.food(), cell(9, 9));
}

#[test]
fn from_state_rejects_a_boardful_grid() {
    let s = state(1, 2, vec![cell(0, 0)], Dir::Still, cell(0, 1));
    assert!(GameController::from_state(s).is_some());
    // on a one-by-one grid no state with food off the snake even exists
    assert!(GameState::from_parts(1, 1, vec![cell(0, 0)], Dir::Still, cell(0, 0)).is_none());
}
