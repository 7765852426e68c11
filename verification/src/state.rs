//! The game state and its two transitions: the per-tick `advance` of the
//! snake, and the direction request with its reversal guard and per-tick
//! debounce. Both are specified against a mathematical model (`StateModel`)
//! so that the game's laws can be stated and proved about the model alone.

use crate::grid::{cell_in_bounds, contains_cell, move_cell, side_ok, step_cell, Cell, Dir};
use vstd::prelude::*;

verus! {

/// Tick interval at the start of a game, in milliseconds.
pub const INITIAL_INTERVAL_MS: i32 = 100;

/// Mathematical model of a game state.
#[verifier::ext_equal]
pub struct StateModel {
    /// The snake's cells, tail first: the head is the last element.
    pub snake: Seq<Cell>,
    /// The committed movement direction.
    pub dir: Dir,
    /// Where the food lies.
    pub food: Cell,
    pub width: int,
    pub height: int,
    /// Current tick interval in milliseconds.
    pub interval: int,
    /// Pieces of food eaten so far.
    pub score: int,
    /// Whether a direction change was already accepted this tick.
    pub dir_changed: bool,
}

/// The grid-level well-formedness of a state: usable grid sides, a
/// non-empty snake without duplicate cells, and every cell on the grid.
pub open spec fn grid_wf(m: StateModel) -> bool {
    &&& side_ok(m.width)
    &&& side_ok(m.height)
    &&& 1 <= m.snake.len()
    &&& m.snake.no_duplicates()
    &&& forall|i: int| 0 <= i < m.snake.len() ==> cell_in_bounds(#[trigger] m.snake[i], m.width, m.height)
    &&& cell_in_bounds(m.food, m.width, m.height)
}

/// The bookkeeping tied to progress: the snake grows by exactly one cell
/// per food eaten, so the score is the snake's length less one, and the
/// tick interval is the initial interval decayed once per food eaten.
pub open spec fn progress_wf(m: StateModel) -> bool {
    &&& m.score == m.snake.len() - 1
    &&& m.interval == decayed_interval(INITIAL_INTERVAL_MS as int, m.score as nat)
}

/// Full well-formedness of a game state.
pub open spec fn state_wf(m: StateModel) -> bool {
    grid_wf(m) && progress_wf(m)
}

/// The tick interval after `n` pieces of food, starting from `init`:
/// each one shrinks the interval by one per cent, rounding down.
pub open spec fn decayed_interval(init: int, n: nat) -> int
    decreases n,
{
    if n == 0 {
        init
    } else {
        decayed_interval(init, (n - 1) as nat) * 99 / 100
    }
}

/// Law (speed monotonicity): each food eaten shrinks the tick interval by
/// one per cent, rounding down, so the interval after `n + 1` pieces is at
/// most the interval after `n`, and it never leaves `[0, init]`.
pub proof fn lemma_interval_decay_monotone(init: int, n: nat)
    requires
        0 <= init,
    ensures
        decayed_interval(init, n + 1) == decayed_interval(init, n) * 99 / 100,
        0 <= decayed_interval(init, n + 1) <= decayed_interval(init, n) <= init,
    decreases n,
{
    if n == 0 {
        assert(decayed_interval(init, 0) == init);
        assert(decayed_interval(init, 1) == decayed_interval(init, 0) * 99 / 100);
        lemma_one_percent_shrink(init);
    } else {
        lemma_interval_decay_monotone(init, (n - 1) as nat);
        lemma_one_percent_shrink(decayed_interval(init, n));
    }
}

/// A one per cent shrink, rounded down, keeps a non-negative value
/// non-negative and never grows it.
proof fn lemma_one_percent_shrink(v: int)
    requires
        0 <= v,
    ensures
        0 <= v * 99 / 100 <= v,
{
    assert(0 <= v * 99 / 100 <= v) by (nonlinear_arith)
        requires 0 <= v;
}

/// Once the decayed interval reaches zero it stays zero.
pub proof fn lemma_decayed_interval_zero(init: int, k: nat, n: nat)
    requires
        decayed_interval(init, k) == 0,
        k <= n,
    ensures
        decayed_interval(init, n) == 0,
    decreases n - k,
{
    if k < n {
        lemma_decayed_interval_zero(init, k, (n - 1) as nat);
    }
}

/// The tick interval after `foods` pieces of food, computed from the
/// initial interval.
pub fn interval_after_foods(foods: u64) -> (r: i32)
    ensures
        r as int == decayed_interval(INITIAL_INTERVAL_MS as int, foods as nat),
        0 <= r <= INITIAL_INTERVAL_MS,
{
    let mut i: i32 = INITIAL_INTERVAL_MS;
    let mut k: u64 = 0;
    while k < foods && i > 0
        invariant
            k <= foods,
            0 <= i <= INITIAL_INTERVAL_MS,
            i as int == decayed_interval(INITIAL_INTERVAL_MS as int, k as nat),
        decreases foods - k,
    {
        proof {
            lemma_one_percent_shrink(i as int);
        }
        i = i * 99 / 100;
        k = k + 1;
    }
    proof {
        if k < foods {
            lemma_decayed_interval_zero(INITIAL_INTERVAL_MS as int, k as nat, foods as nat);
        }
    }
    i
}

/// What one tick does to the model, before any food respawn: the new
/// state, whether food was eaten, and whether the game is over.
///
/// With no committed direction the tick is a no-op. Otherwise the head
/// takes one wrapped step. A step into any cell of the current body —
/// including the tail cell that is about to be vacated — ends the game
/// with the state unchanged. Otherwise the head cell is appended; if it
/// is the food the tail is kept (net growth of one), else the tail cell
/// is dropped (net length unchanged).
pub open spec fn advance_spec(m: StateModel) -> (StateModel, bool, bool) {
    if m.dir == Dir::Still {
        (m, false, false)
    } else {
        let new_head = step_cell(m.snake.last(), m.dir, m.width, m.height);
        if m.snake.contains(new_head) {
            (m, false, true)
        } else if new_head == m.food {
            (StateModel { snake: m.snake.push(new_head), ..m }, true, false)
        } else {
            (StateModel { snake: m.snake.push(new_head).drop_first(), ..m }, false, false)
        }
    }
}

/// What a direction request does to the model: it is dropped if a change
/// was already accepted this tick (debounce), or if it is the exact
/// opposite of the committed direction (reversal guard); otherwise it is
/// committed and uses up this tick's change.
pub open spec fn request_spec(m: StateModel, d: Dir) -> StateModel {
    if m.dir_changed {
        m
    } else if d == m.dir.opposite() {
        m
    } else {
        StateModel { dir: d, dir_changed: true, ..m }
    }
}

/// Law (length invariant): a tick never shrinks the snake, grows it by at
/// most one cell — exactly one when food is eaten — and never empties it.
pub proof fn lemma_advance_length(m: StateModel)
    requires
        grid_wf(m),
    ensures
        ({
            let (m2, ate, over) = advance_spec(m);
            &&& m2.snake.len() == if ate { m.snake.len() + 1 } else { m.snake.len() }
            &&& 1 <= m2.snake.len() <= m.snake.len() + 1
        }),
{
}

/// Law (collision leaves the state unchanged): a tick that reports the
/// game over changes nothing, and no tick reports both food and game over.
pub proof fn lemma_advance_game_over_unchanged(m: StateModel)
    requires
        grid_wf(m),
    ensures
        ({
            let (m2, ate, over) = advance_spec(m);
            &&& over ==> m2 == m
            &&& !(ate && over)
        }),
{
}

/// Law (no-duplicate invariant): a tick that does not end the game leaves
/// the snake free of duplicate cells, and every cell on the grid.
pub proof fn lemma_advance_no_duplicates(m: StateModel)
    requires
        grid_wf(m),
    ensures
        !advance_spec(m).2 ==> advance_spec(m).0.snake.no_duplicates(),
        grid_wf(advance_spec(m).0),
{
    let (m2, ate, over) = advance_spec(m);
    if m.dir != Dir::Still && !over {
        let new_head = step_cell(m.snake.last(), m.dir, m.width, m.height);
        let grown = m.snake.push(new_head);
        assert(forall|i: int| 0 <= i < m.snake.len() ==> m.snake[i] != new_head);
        assert(grown.no_duplicates());
        crate::grid::lemma_wrap_stays_in_bounds(
            m.snake.last(),
            m.dir.dx(),
            m.dir.dy(),
            m.width,
            m.height,
        );
        if !ate {
            assert(m2.snake == grown.drop_first());
            assert(forall|i: int| 0 <= i < m2.snake.len() ==> m2.snake[i] == grown[i + 1]);
            assert(m2.snake.no_duplicates());
        }
    }
}

/// Law (reversal rule): while this tick's change is unused, a request for
/// the exact opposite of the committed direction changes nothing — not
/// even the debounce flag — so a following request for any other
/// direction is still accepted.
pub proof fn lemma_reversal_ignored(m: StateModel, d: Dir)
    requires
        !m.dir_changed,
    ensures
        request_spec(m, m.dir.opposite()) == m,
        d != m.dir.opposite() ==> request_spec(request_spec(m, m.dir.opposite()), d)
            == (StateModel { dir: d, dir_changed: true, ..m }),
{
}

/// Law (debounce): once a request has been accepted in a tick window,
/// every further request in the same window changes nothing, so of two
/// requests in one window only the first can take effect.
pub proof fn lemma_direction_debounce(m: StateModel, d1: Dir, d2: Dir)
    requires
        !m.dir_changed,
        d1 != m.dir.opposite(),
    ensures
        request_spec(m, d1).dir == d1,
        request_spec(m, d1).dir_changed,
        request_spec(request_spec(m, d1), d2) == request_spec(m, d1),
{
}

/// The live game state: the snake's body (tail first, head last), the
/// committed direction, the food cell, the grid, the tick interval, the
/// score, and the per-tick debounce flag.
pub struct GameState {
    snake: Vec<Cell>,
    dir: Dir,
    food: Cell,
    width: i32,
    height: i32,
    interval: i32,
    score: u64,
    dir_changed: bool,
}

impl View for GameState {
    type V = StateModel;

    closed spec fn view(&self) -> StateModel {
        StateModel {
            snake: self.snake@,
            dir: self.dir,
            food: self.food,
            width: self.width as int,
            height: self.height as int,
            interval: self.interval as int,
            score: self.score as int,
            dir_changed: self.dir_changed,
        }
    }
}

/// The conditions under which `GameState::from_parts` accepts its parts.
pub open spec fn parts_ok(width: int, height: int, snake: Seq<Cell>, food: Cell) -> bool {
    &&& side_ok(width)
    &&& side_ok(height)
    &&& 1 <= snake.len()
    &&& snake.no_duplicates()
    &&& forall|i: int| 0 <= i < snake.len() ==> cell_in_bounds(#[trigger] snake[i], width, height)
    &&& cell_in_bounds(food, width, height)
    &&& !snake.contains(food)
}

impl GameState {
    /// Builds a well-formed game state from its observable parts, for
    /// deterministic setups and resumed games. The score and the tick
    /// interval are derived from the snake's length: the snake grows by
    /// exactly one cell per food eaten, so a snake of `n` cells has eaten
    /// `n - 1` pieces. Returns `None` exactly when the parts do not form
    /// a valid position.
    pub fn from_parts(width: i32, height: i32, snake: Vec<Cell>, dir: Dir, food: Cell) -> (r:
        Option<GameState>)
        ensures
            r is Some <==> parts_ok(width as int, height as int, snake@, food),
            r matches Some(s) ==> {
                &&& s@ == (StateModel {
                    snake: snake@,
                    dir,
                    food,
                    width: width as int,
                    height: height as int,
                    interval: decayed_interval(INITIAL_INTERVAL_MS as int, (snake@.len() - 1) as nat),
                    score: snake@.len() - 1,
                    dir_changed: false,
                })
                &&& state_wf(s@)
                &&& !s@.snake.contains(food)
            },
    {
        if width < 1 || width > crate::grid::MAX_GRID_SIDE || height < 1 || height
            > crate::grid::MAX_GRID_SIDE {
            return None;
        }
        if snake.len() < 1 {
            return None;
        }
        if has_duplicate(&snake) {
            return None;
        }
        if !all_in_bounds(&snake, width, height) {
            return None;
        }
        if !(0 <= food.x && food.x < width && 0 <= food.y && food.y < height) {
            return None;
        }
        if contains_cell(&snake, food) {
            return None;
        }
        let score: u64 = (snake.len() as u64) - 1;
        let interval: i32 = interval_after_foods(score);
        Some(GameState { snake, dir, food, width, height, interval, score, dir_changed: false })
    }

    /// One tick of the core algorithm; see `advance_spec` for what it
    /// does. Returns `(ate_food, game_over)`.
    pub fn advance(&mut self) -> (r: (bool, bool))
        requires
            grid_wf(old(self)@),
        ensures
            final(self)@ == advance_spec(old(self)@).0,
            r.0 == advance_spec(old(self)@).1,
            r.1 == advance_spec(old(self)@).2,
            grid_wf(final(self)@),
            final(self)@.dir == old(self)@.dir,
            final(self)@.dir_changed == old(self)@.dir_changed,
            final(self)@.food == old(self)@.food,
            final(self)@.score == old(self)@.score,
            final(self)@.interval == old(self)@.interval,
    {
        proof {
            lemma_advance_no_duplicates(old(self)@);
        }
        if self.dir == Dir::Still {
            return (false, false);
        }
        let head: Cell = self.snake[self.snake.len() - 1];
        let new_head = move_cell(head, self.dir, self.width, self.height);
        if contains_cell(&self.snake, new_head) {
            return (false, true);
        }
        self.snake.push(new_head);
        if new_head == self.food {
            (true, false)
        } else {
            self.snake.remove(0);
            proof {
                assert(self@.snake =~= old(self)@.snake.push(new_head).drop_first());
            }
            (false, false)
        }
    }

    /// A direction request; see `request_spec` for the debounce and the
    /// reversal guard. `Still` is not a request — it is only the state
    /// before the first input — so callers never pass it.
    pub fn request_direction(&mut self, d: Dir)
        requires
            d != Dir::Still,
        ensures
            final(self)@ == request_spec(old(self)@, d),
    {
        if self.dir_changed {
            return;
        }
        let opposite = match self.dir {
            Dir::Up => Dir::Down,
            Dir::Down => Dir::Up,
            Dir::Left => Dir::Right,
            Dir::Right => Dir::Left,
            Dir::Still => Dir::Still,
        };
        if d == opposite {
            return;
        }
        self.dir = d;
        self.dir_changed = true;
    }

    /// Clears the debounce flag; the controller does this at each tick
    /// boundary so that the next tick window accepts one change again.
    pub fn reset_direction_changed(&mut self)
        ensures
            final(self)@ == (StateModel { dir_changed: false, ..old(self)@ }),
    {
        self.dir_changed = false;
    }

    /// Places the food at `c`; the caller (the spawner's client) proves
    /// that `c` is on the grid and off the snake.
    pub fn set_food(&mut self, c: Cell)
        requires
            cell_in_bounds(c, old(self)@.width, old(self)@.height),
            !old(self)@.snake.contains(c),
        ensures
            final(self)@ == (StateModel { food: c, ..old(self)@ }),
    {
        self.food = c;
    }

    /// Records one eaten piece of food: the score goes up by one and the
    /// tick interval shrinks by one per cent, rounding down.
    pub fn record_food_eaten(&mut self)
        requires
            old(self)@.score < u64::MAX,
            0 <= old(self)@.interval <= INITIAL_INTERVAL_MS,
        ensures
            final(self)@ == (StateModel {
                score: old(self)@.score + 1,
                interval: old(self)@.interval * 99 / 100,
                ..old(self)@
            }),
    {
        proof {
            lemma_one_percent_shrink(old(self)@.interval);
        }
        self.score = self.score + 1;
        self.interval = self.interval * 99 / 100;
    }

    /// Whether this state is well formed and its food lies off its snake:
    /// everything a controller needs of a state it is handed.
    pub fn is_well_formed(&self) -> (r: bool)
        ensures
            r == (state_wf(self@) && !self@.snake.contains(self@.food)),
    {
        if self.width < 1 || self.width > crate::grid::MAX_GRID_SIDE || self.height < 1
            || self.height > crate::grid::MAX_GRID_SIDE {
            return false;
        }
        if self.snake.len() < 1 {
            return false;
        }
        if has_duplicate(&self.snake) {
            return false;
        }
        if !all_in_bounds(&self.snake, self.width, self.height) {
            return false;
        }
        if !(0 <= self.food.x && self.food.x < self.width && 0 <= self.food.y && self.food.y
            < self.height) {
            return false;
        }
        if contains_cell(&self.snake, self.food) {
            return false;
        }
        if self.score != (self.snake.len() as u64) - 1 {
            return false;
        }
        if self.interval != interval_after_foods(self.score) {
            return false;
        }
        true
    }

    pub fn width(&self) -> (r: i32)
        ensures
            r as int == self@.width,
    {
        self.width
    }

    pub fn height(&self) -> (r: i32)
        ensures
            r as int == self@.height,
    {
        self.height
    }

    pub fn score(&self) -> (r: u64)
        ensures
            r as int == self@.score,
    {
        self.score
    }

    pub fn interval_ms(&self) -> (r: i32)
        ensures
            r as int == self@.interval,
    {
        self.interval
    }

    pub fn food(&self) -> (r: Cell)
        ensures
            r == self@.food,
    {
        self.food
    }

    pub fn direction(&self) -> (r: Dir)
        ensures
            r == self@.dir,
    {
        self.dir
    }

    /// The snake's cells, tail first: a copy for rendering.
    pub fn snake_cells(&self) -> (r: Vec<Cell>)
        ensures
            r@ == self@.snake,
    {
        let mut out: Vec<Cell> = Vec::new();
        let mut i: usize = 0;
        while i < self.snake.len()
            invariant
                i <= self.snake.len(),
                out@ =~= self.snake@.subrange(0, i as int),
            decreases self.snake.len() - i,
        {
            out.push(self.snake[i]);
            i = i + 1;
        }
        proof {
            assert(out@ =~= self.snake@);
        }
        out
    }

    /// A borrowed view of the snake's cells, tail first.
    pub fn snake(&self) -> (r: &Vec<Cell>)
        ensures
            r@ == self@.snake,
    {
        &self.snake
    }
}

/// Whether the cells hold some cell twice.
fn has_duplicate(cells: &Vec<Cell>) -> (r: bool)
    ensures
        r == !cells@.no_duplicates(),
{
    let n: usize = cells.len();
    let mut i: usize = 0;
    while i < n
        invariant
            n == cells@.len(),
            i <= n,
            forall|p: int, q: int| 0 <= p < i && p < q < n ==> cells@[p] != cells@[q],
        decreases n - i,
    {
        let mut j: usize = i + 1;
        while j < n
            invariant
                n == cells@.len(),
                i < j <= n,
                i < n,
                forall|q: int| i < q < j ==> cells@[i as int] != cells@[q],
            decreases n - j,
        {
            if cells[i] == cells[j] {
                return true;
            }
            j = j + 1;
        }
        i = i + 1;
    }
    assert forall|p: int, q: int|
        0 <= p < n && 0 <= q < n && p != q implies cells@[p] != cells@[q] by {
        if p < q {
            assert(cells@[p] != cells@[q]);
        } else {
            assert(cells@[q] != cells@[p]);
        }
    }
    false
}

/// Whether every cell lies on a `width` by `height` grid.
fn all_in_bounds(cells: &Vec<Cell>, width: i32, height: i32) -> (r: bool)
    ensures
        r == forall|i: int|
            0 <= i < cells@.len() ==> cell_in_bounds(#[trigger] cells@[i], width as int, height as int),
{
    let n: usize = cells.len();
    let mut i: usize = 0;
    while i < n
        invariant
            n == cells@.len(),
            i <= n,
            forall|j: int| 0 <= j < i ==> cell_in_bounds(#[trigger] cells@[j], width as int, height as int),
        decreases n - i,
    {
        let c = cells[i];
        if !(0 <= c.x && c.x < width && 0 <= c.y && c.y < height) {
            return false;
        }
        i = i + 1;
    }
    true
}

} // verus!
