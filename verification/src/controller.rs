//! The game controller: owns the state, drives one tick at a time, guards
//! against stale timer callbacks with a generation counter, and tells the
//! host what to do next (redraw, reschedule, notify score or game over).
//!
//! The host owns the actual timer. It schedules a repeating callback at the
//! interval this controller hands out, captures the generation it was given,
//! and passes that generation back on every tick. A callback that fires
//! after a reschedule or a restart carries an old generation and is reported
//! as stale, so no tick of a superseded timer can touch the state.

use crate::grid::{cell_in_bounds, side_ok, Cell, Dir, MAX_GRID_SIDE};
use crate::spawn::spawn_food;
use crate::state::{
    advance_spec, request_spec, state_wf, GameState, StateModel, INITIAL_INTERVAL_MS,
};
use vstd::prelude::*;

verus! {

/// Where the game stands in its lifecycle.
#[derive(Clone, Copy, PartialEq, Eq, Structural, Debug)]
pub enum Phase {
    /// Created, food placed, timer not yet started.
    NotStarted,
    /// Ticks advance the snake.
    Running,
    /// The snake ran into itself; the timer is to be cancelled.
    GameOver,
    /// The snake filled the whole board, so no food can be placed:
    /// the alternate terminal state, reached instead of looping forever
    /// in search of a free cell.
    Won,
}

/// Why a new game could not be made.
#[derive(Clone, Copy, PartialEq, Eq, Structural, Debug)]
pub enum NewGameError {
    /// A grid side was zero or negative — a degenerate surface — or above
    /// the machine limit `MAX_GRID_SIDE`.
    InvalidDimensions,
    /// A one-by-one grid: the starting snake already covers it, so the
    /// first food has nowhere to go.
    BoardFull,
}

/// What one tick did, and what the host owes in return.
#[derive(Clone, Copy, PartialEq, Eq, Structural, Debug)]
pub enum TickReport {
    /// The callback was stale — wrong generation, or the game is not
    /// running — and nothing happened.
    Stale,
    /// The snake advanced (or stood still, before the first input);
    /// the host redraws.
    Moved,
    /// Food was eaten: fresh food is placed, the score went up by one and
    /// the interval shrank by one per cent. The host cancels its timer,
    /// reschedules at `interval_ms` capturing `generation`, and fires its
    /// score notification.
    Ate { score: u64, interval_ms: i32, generation: u64 },
    /// The snake ran into itself: the state is unchanged and the game is
    /// over. The host cancels its timer and fires its game-over
    /// notification.
    GameOver,
    /// The food was eaten and the snake now covers the whole board. The
    /// host cancels its timer; the game ends as a win.
    Won,
}

/// Mathematical model of a controller.
#[verifier::ext_equal]
pub struct ControllerModel {
    pub phase: Phase,
    /// Generation of the currently scheduled timer; bumped on every
    /// (re)schedule so that callbacks of cancelled timers can be told
    /// apart from live ones.
    pub generation: u64,
    pub state: StateModel,
}

/// Well-formedness of a controller: a well-formed state on a grid of at
/// least two cells, with the food off the snake whenever food is still in
/// play (on a won board there is no free cell left for it).
pub open spec fn controller_wf(cm: ControllerModel) -> bool {
    &&& state_wf(cm.state)
    &&& !(cm.state.width == 1 && cm.state.height == 1)
    &&& (cm.phase != Phase::Won ==> !cm.state.snake.contains(cm.state.food))
}

/// The generation after one more (re)schedule.
pub open spec fn next_generation(g: u64) -> u64 {
    if g == u64::MAX {
        0
    } else {
        (g + 1) as u64
    }
}

/// The state a game begins in: a one-cell snake at the grid's center, no
/// committed direction, the initial interval, and the given food cell.
pub open spec fn initial_state(width: int, height: int, food: Cell) -> StateModel {
    StateModel {
        snake: seq![Cell { x: (width / 2) as i32, y: (height / 2) as i32 }],
        dir: Dir::Still,
        food,
        width,
        height,
        interval: INITIAL_INTERVAL_MS as int,
        score: 0,
        dir_changed: false,
    }
}

/// The single-player snake game, one instance per game in progress. All
/// mutation funnels through `tick`, `request_direction`, `start` and
/// `restart`; the host holds no reference into the state.
pub struct GameController {
    state: GameState,
    phase: Phase,
    generation: u64,
}

impl View for GameController {
    type V = ControllerModel;

    closed spec fn view(&self) -> ControllerModel {
        ControllerModel { phase: self.phase, generation: self.generation, state: self.state@ }
    }
}

/// Builds the starting state for a grid: center snake, fresh random food.
/// Returns `None` exactly on a one-by-one grid, where the snake already
/// covers the board.
fn fresh_state(width: i32, height: i32) -> (r: Option<GameState>)
    requires
        side_ok(width as int),
        side_ok(height as int),
    ensures
        r matches Some(s) ==> {
            &&& s@ == initial_state(width as int, height as int, s@.food)
            &&& state_wf(s@)
            &&& cell_in_bounds(s@.food, width as int, height as int)
            &&& !s@.snake.contains(s@.food)
        },
        r is None <==> (width == 1 && height == 1),
{
    let center = Cell { x: width / 2, y: height / 2 };
    proof {
        assert(0 <= (width as int) / 2 < width as int && 0 <= (height as int) / 2 < height as int)
            by (nonlinear_arith)
            requires
                1 <= width as int,
                1 <= height as int,
        ;
    }
    let mut snake: Vec<Cell> = Vec::new();
    snake.push(center);
    proof {
        assert(snake@ =~= seq![center]);
    }
    match spawn_food(&snake, width, height) {
        Some(food) => {
            match GameState::from_parts(width, height, snake, Dir::Still, food) {
                Some(s) => {
                    proof {
                        assert(s@.snake =~= initial_state(
                            width as int,
                            height as int,
                            food,
                        ).snake);
                        assert(crate::state::decayed_interval(INITIAL_INTERVAL_MS as int, 0) == INITIAL_INTERVAL_MS as int);
                        assert(s@ =~= initial_state(width as int, height as int, food));
                        if width == 1 && height == 1 {
                            assert(s@.snake[0] == center);
                            assert(s@.food == center);
                            assert(s@.snake.contains(s@.food));
                            assert(false);
                        }
                    }
                    Some(s)
                },
                None => {
                    proof {
                        assert(false);
                    }
                    None
                },
            }
        },
        None => {
            proof {
                if width >= 2 || height >= 2 {
                    let c1 = Cell { x: 0, y: 0 };
                    let c2 = if width >= 2 {
                        Cell { x: 1, y: 0 }
                    } else {
                        Cell { x: 0, y: 1 }
                    };
                    assert(cell_in_bounds(c1, width as int, height as int));
                    assert(cell_in_bounds(c2, width as int, height as int));
                    assert(snake@.contains(c1) && snake@.contains(c2));
                    assert(snake@[0] == center);
                    assert(c1 == center && c2 == center);
                    assert(false);
                }
            }
            None
        },
    }
}

impl GameController {
    /// Makes a new game on a `width` by `height` grid: a one-cell snake at
    /// the center, no direction yet, score zero, the initial interval, and
    /// food on a random free cell. Rejects a zero or negative side — a
    /// degenerate surface — a side above the machine limit, and the
    /// one-by-one grid on which the first food has nowhere to go.
    pub fn new(width: i32, height: i32) -> (r: Result<GameController, NewGameError>)
        ensures
            r is Ok <==> (side_ok(width as int) && side_ok(height as int) && !(width == 1
                && height == 1)),
            r == Err::<GameController, _>(NewGameError::InvalidDimensions) <==> !(side_ok(
                width as int,
            ) && side_ok(height as int)),
            r == Err::<GameController, _>(NewGameError::BoardFull) <==> (side_ok(width as int)
                && side_ok(height as int) && width == 1 && height == 1),
            r matches Ok(c) ==> {
                &&& c@.phase == Phase::NotStarted
                &&& c@.generation == 0
                &&& c@.state == initial_state(width as int, height as int, c@.state.food)
                &&& controller_wf(c@)
            },
    {
        if width < 1 || width > MAX_GRID_SIDE || height < 1 || height > MAX_GRID_SIDE {
            return Err(NewGameError::InvalidDimensions);
        }
        match fresh_state(width, height) {
            Some(state) => Ok(GameController { state, phase: Phase::NotStarted, generation: 0 }),
            None => Err(NewGameError::BoardFull),
        }
    }

    /// Resumes play from a prepared state, for deterministic setups and
    /// saved positions: accepted exactly when the state is well formed,
    /// its food is off its snake, and its grid has room for food at all.
    /// The game starts unstarted, with a fresh generation counter.
    pub fn from_state(state: GameState) -> (r: Option<GameController>)
        ensures
            r is Some <==> (state_wf(state@) && !state@.snake.contains(state@.food) && !(
            state@.width == 1 && state@.height == 1)),
            r matches Some(c) ==> c@ == (ControllerModel {
                phase: Phase::NotStarted,
                generation: 0,
                state: state@,
            }),
    {
        if !state.is_well_formed() {
            return None;
        }
        if state.width() == 1 && state.height() == 1 {
            return None;
        }
        Some(GameController { state, phase: Phase::NotStarted, generation: 0 })
    }

    /// Starts the game: moves from `NotStarted` to `Running` and hands the
    /// host the interval to schedule at, with the generation the callback
    /// must capture. Anywhere else it is a no-op returning `None`.
    pub fn start(&mut self) -> (r: Option<(i32, u64)>)
        requires
            controller_wf(old(self)@),
        ensures
            controller_wf(final(self)@),
            old(self)@.phase == Phase::NotStarted ==> {
                &&& final(self)@ == (ControllerModel {
                    phase: Phase::Running,
                    generation: next_generation(old(self)@.generation),
                    ..old(self)@
                })
                &&& (r matches Some(p) && p.0 as int == old(self)@.state.interval && p.1
                    == next_generation(old(self)@.generation))
            },
            old(self)@.phase != Phase::NotStarted ==> (r is None && final(self)@ == old(self)@),
    {
        if self.phase != Phase::NotStarted {
            return None;
        }
        self.phase = Phase::Running;
        self.generation = bump_generation(self.generation);
        Some((self.state.interval_ms(), self.generation))
    }

    /// Applies a direction request while running: dropped if a change was
    /// already accepted this tick, or if it reverses the committed
    /// direction; otherwise committed. Outside `Running` it is a no-op,
    /// as the input of a finished or unstarted game must be.
    pub fn request_direction(&mut self, d: Dir)
        requires
            d != Dir::Still,
            controller_wf(old(self)@),
        ensures
            controller_wf(final(self)@),
            old(self)@.phase == Phase::Running ==> final(self)@ == (ControllerModel {
                state: request_spec(old(self)@.state, d),
                ..old(self)@
            }),
            old(self)@.phase != Phase::Running ==> final(self)@ == old(self)@,
    {
        if self.phase == Phase::Running {
            self.state.request_direction(d);
        }
    }

    /// One tick of the game, driven by the host's timer callback, which
    /// passes the generation it captured when it was scheduled.
    ///
    /// A stale callback — wrong generation, or a game that is not running
    /// — changes nothing. Otherwise the debounce flag is cleared and the
    /// snake advances. A collision ends the game with the state otherwise
    /// untouched. Eating food scores a point, shrinks the interval by one
    /// per cent, and places fresh food on a random free cell under a new
    /// generation — unless the snake now covers the board, which wins the
    /// game. The report says which of these happened.
    pub fn tick(&mut self, generation: u64) -> (r: TickReport)
        requires
            controller_wf(old(self)@),
        ensures
            controller_wf(final(self)@),
            (old(self)@.phase != Phase::Running || generation != old(self)@.generation) ==> (r
                == TickReport::Stale && final(self)@ == old(self)@),
            (old(self)@.phase == Phase::Running && generation == old(self)@.generation) ==> ({
                let m0 = StateModel { dir_changed: false, ..old(self)@.state };
                let (m2, ate, over) = advance_spec(m0);
                let eaten = StateModel {
                    score: m0.score + 1,
                    interval: m0.interval * 99 / 100,
                    ..m2
                };
                &&& (over ==> r == TickReport::GameOver && final(self)@ == (ControllerModel {
                    phase: Phase::GameOver,
                    generation: old(self)@.generation,
                    state: m0,
                }))
                &&& ((!over && !ate) ==> r == TickReport::Moved && final(self)@
                    == (ControllerModel { state: m2, ..old(self)@ }))
                &&& ((!over && ate && (forall|c: Cell|
                    cell_in_bounds(c, m0.width, m0.height) ==> eaten.snake.contains(c))) ==> (r
                    == TickReport::Won && final(self)@ == (ControllerModel {
                    phase: Phase::Won,
                    generation: old(self)@.generation,
                    state: eaten,
                })))
                &&& ((!over && ate && !(forall|c: Cell|
                    cell_in_bounds(c, m0.width, m0.height) ==> eaten.snake.contains(c))) ==> ({
                    &&& final(self)@.phase == Phase::Running
                    &&& final(self)@.generation == next_generation(old(self)@.generation)
                    &&& final(self)@.state == (StateModel {
                        food: final(self)@.state.food,
                        ..eaten
                    })
                    &&& cell_in_bounds(final(self)@.state.food, m0.width, m0.height)
                    &&& !final(self)@.state.snake.contains(final(self)@.state.food)
                    &&& r == (TickReport::Ate {
                        score: (m0.score + 1) as u64,
                        interval_ms: (m0.interval * 99 / 100) as i32,
                        generation: next_generation(old(self)@.generation),
                    })
                }))
            }),
    {
        if self.phase != Phase::Running || generation != self.generation {
            return TickReport::Stale;
        }
        self.state.reset_direction_changed();
        let (ate, over) = self.state.advance();
        if over {
            self.phase = Phase::GameOver;
            return TickReport::GameOver;
        }
        if !ate {
            proof {
                lemma_moved_keeps_food_free(
                    StateModel { dir_changed: false, ..old(self)@.state },
                );
            }
            return TickReport::Moved;
        }
        let n: usize = self.state.snake().len();
        proof {
            crate::state::lemma_interval_decay_monotone(
                INITIAL_INTERVAL_MS as int,
                old(self)@.state.score as nat,
            );
        }
        self.state.record_food_eaten();
        match spawn_food(self.state.snake(), self.state.width(), self.state.height()) {
            Some(food) => {
                self.state.set_food(food);
                self.generation = bump_generation(self.generation);
                proof {
                    lemma_decay_step(old(self)@.state.score as nat);
                }
                TickReport::Ate {
                    score: self.state.score(),
                    interval_ms: self.state.interval_ms(),
                    generation: self.generation,
                }
            },
            None => {
                self.phase = Phase::Won;
                proof {
                    lemma_decay_step(old(self)@.state.score as nat);
                }
                TickReport::Won
            },
        }
    }

    /// Restarts: rebuilds the starting state on the same grid — one-cell
    /// snake at the center, no direction, score zero, initial interval,
    /// fresh random food — moves to `Running`, and hands the host the
    /// initial interval with the new generation to schedule under. Works
    /// from any phase, as a restart after game over or a reset mid-game.
    pub fn restart(&mut self) -> (r: (i32, u64))
        requires
            controller_wf(old(self)@),
        ensures
            controller_wf(final(self)@),
            final(self)@.phase == Phase::Running,
            final(self)@.generation == next_generation(old(self)@.generation),
            final(self)@.state == initial_state(
                old(self)@.state.width,
                old(self)@.state.height,
                final(self)@.state.food,
            ),
            !final(self)@.state.snake.contains(final(self)@.state.food),
            cell_in_bounds(final(self)@.state.food, old(self)@.state.width, old(self)@.state.height),
            r.0 == INITIAL_INTERVAL_MS,
            r.1 == next_generation(old(self)@.generation),
    {
        let width = self.state.width();
        let height = self.state.height();
        match fresh_state(width, height) {
            Some(state) => {
                self.state = state;
            },
            None => {
                proof {
                    assert(false);
                }
            },
        }
        self.phase = Phase::Running;
        self.generation = bump_generation(self.generation);
        (INITIAL_INTERVAL_MS, self.generation)
    }

    pub fn phase(&self) -> (r: Phase)
        ensures
            r == self@.phase,
    {
        self.phase
    }

    pub fn generation(&self) -> (r: u64)
        ensures
            r == self@.generation,
    {
        self.generation
    }

    /// The state, for reading: rendering snapshots and queries go through
    /// its getters.
    pub fn state(&self) -> (r: &GameState)
        ensures
            r@ == self@.state,
    {
        &self.state
    }
}

/// The generation after one more (re)schedule, executably.
fn bump_generation(g: u64) -> (r: u64)
    ensures
        r == next_generation(g),
{
    if g == u64::MAX {
        0
    } else {
        g + 1
    }
}

/// A tick that moves without eating keeps the food off the snake: the new
/// head is not the food (that would have been an eating tick) and every
/// other cell was already off the food.
proof fn lemma_moved_keeps_food_free(m0: StateModel)
    requires
        crate::state::grid_wf(m0),
        !m0.snake.contains(m0.food),
        !advance_spec(m0).1,
        !advance_spec(m0).2,
    ensures
        !advance_spec(m0).0.snake.contains(m0.food),
{
    let m2 = advance_spec(m0).0;
    if m0.dir != Dir::Still {
        let nh = crate::grid::step_cell(m0.snake.last(), m0.dir, m0.width, m0.height);
        assert forall|i: int| 0 <= i < m2.snake.len() implies m2.snake[i] != m0.food by {
            assert(m2.snake[i] == m0.snake.push(nh)[i + 1]);
        }
    }
}

/// One more food under the decay law: the interval after `n + 1` pieces
/// is the interval after `n`, shrunk by one per cent.
proof fn lemma_decay_step(n: nat)
    ensures
        crate::state::decayed_interval(INITIAL_INTERVAL_MS as int, n + 1)
            == crate::state::decayed_interval(INITIAL_INTERVAL_MS as int, n) * 99 / 100,
{
    assert(crate::state::decayed_interval(INITIAL_INTERVAL_MS as int, n + 1)
        == crate::state::decayed_interval(INITIAL_INTERVAL_MS as int, (n + 1 - 1) as nat) * 99
        / 100);
}

} // verus!
