//! The game: the snake, its heading, the food and the grid, and the rule that
//! advances them by one tick.

use vstd::prelude::*;
use crate::food::{
    food_placed, generate_food_pos, holds_margin, in_food_range, keeps_margin, spans_margin,
};
use crate::grid::{step_from, within, Coordinate, Heading};
use crate::input::{direction_of, resolve, resolve_queue, resolved, resolved_queue, Key};
use crate::render::{render, render_start, rendered, rendered_start, Delta, RenderOp};
use crate::snake::{advanced, grown, is_body, Snake};

verus! {

/// The pause after a tick that moved the snake up or down, in milliseconds.
pub const VERTICAL_TICK_MS: u64 = 70;

/// The pause after a tick that moved the snake left or right, in
/// milliseconds. It is the shorter one because a terminal's cells are taller
/// than they are wide.
pub const HORIZONTAL_TICK_MS: u64 = 50;

/// Why a game ended.
#[derive(Clone, Copy, Debug, PartialEq, Eq, Structural)]
pub enum TerminationReason {
    /// The head would have left the grid across its upper edge.
    WallCollision,
    /// The head would have entered a cell of the body.
    SelfCollision,
    /// The head would have left the grid across its lower edge, below
    /// column 0 or row 0.
    DegenerateMove,
}

/// Why no game can be set up.
#[derive(Clone, Copy, Debug, PartialEq, Eq, Structural)]
pub enum ConfigError {
    /// The grid is too small to keep the food's margin on both axes.
    GridTooSmall,
}

/// The mathematical model of a game.
pub struct GameState {
    /// The snake's cells, head first.
    pub body: Seq<Coordinate>,
    /// The direction of travel.
    pub heading: Heading,
    /// The food on the grid. There is none where the snake covered every
    /// cell that keeps the margin at the time food was due.
    pub food: Option<Coordinate>,
    /// The size of the grid: columns `0..bounds.col`, rows `0..bounds.row`.
    pub bounds: Coordinate,
}

impl GameState {
    /// What holds of every state that a game passes through: the grid keeps
    /// the food's margin, the body is a snake on the grid, and the food
    /// keeps the margin and is not under the snake.
    pub open spec fn valid(self) -> bool {
        &&& spans_margin(self.bounds)
        &&& is_body(self.body)
        &&& forall|i: int| 0 <= i < self.body.len() ==> within(self.bounds, #[trigger] self.body[i])
        &&& self.food matches Some(cell) ==> in_food_range(self.bounds, cell)
            && !self.body.contains(cell)
    }

    /// The cell of the head.
    pub open spec fn head(self) -> Coordinate {
        self.body[0]
    }

    /// The same state with another heading.
    pub open spec fn steered(self, heading: Heading) -> GameState {
        GameState { heading, ..self }
    }
}

/// The state in which a game starts on a grid of the given size, up to the
/// food: one cell at the centre, heading right.
pub open spec fn starts(bounds: Coordinate, state: GameState) -> bool {
    &&& state.body == seq![Coordinate { col: bounds.col / 2, row: bounds.row / 2 }]
    &&& state.heading == Heading::Right
    &&& state.bounds == bounds
    &&& food_placed(bounds, state.body, state.food)
}

/// Whether the head may enter `target`: not if that cell is off the grid,
/// and not if the body holds it.
pub open spec fn head_verdict(state: GameState, target: Coordinate) -> Result<
    (),
    TerminationReason,
> {
    if !within(state.bounds, target) {
        Err(TerminationReason::WallCollision)
    } else if state.body.contains(target) {
        Err(TerminationReason::SelfCollision)
    } else {
        Ok(())
    }
}

/// How a move of the head onto `target` takes `pre` to `post`.
///
/// A move that [`head_verdict`] refuses changes nothing and reports the
/// reason. A move onto the food keeps the tail and places new food, which
/// `post` holds; which free cell that is, is left to chance. Any other move
/// gives up the tail and leaves the food where it is.
pub open spec fn moved(
    pre: GameState,
    target: Coordinate,
    post: GameState,
    outcome: Result<Delta, TerminationReason>,
) -> bool {
    match head_verdict(pre, target) {
        Err(reason) => post == pre && outcome == Err::<Delta, TerminationReason>(reason),
        Ok(_) => if pre.food == Some(target) {
            &&& post.body == grown(pre.body, target)
            &&& post.heading == pre.heading
            &&& post.bounds == pre.bounds
            &&& food_placed(post.bounds, post.body, post.food)
            &&& outcome == Ok::<Delta, TerminationReason>(
                Delta {
                    old_head: pre.head(),
                    new_head: target,
                    vacated_tail: None,
                    new_food: post.food,
                },
            )
        } else {
            &&& post.body == advanced(pre.body, target)
            &&& post.heading == pre.heading
            &&& post.bounds == pre.bounds
            &&& post.food == pre.food
            &&& outcome == Ok::<Delta, TerminationReason>(
                Delta {
                    old_head: pre.head(),
                    new_head: target,
                    vacated_tail: Some(pre.body.last()),
                    new_food: None,
                },
            )
        },
    }
}

/// How one tick takes `pre` to `post`: the head moves one cell along the
/// heading, see [`moved`], unless that cell lies below column 0 or row 0,
/// in which case nothing changes and the game ends.
pub open spec fn stepped(
    pre: GameState,
    post: GameState,
    outcome: Result<Delta, TerminationReason>,
) -> bool {
    match step_from(pre.head(), pre.heading) {
        None => post == pre && outcome == Err::<Delta, TerminationReason>(
            TerminationReason::DegenerateMove,
        ),
        Some(target) => moved(pre, target, post, outcome),
    }
}

/// Whether the next tick takes the head onto the food.
pub open spec fn lands_on_food(state: GameState) -> bool {
    match step_from(state.head(), state.heading) {
        None => false,
        Some(target) => state.food == Some(target),
    }
}

/// The pause that follows a tick along `heading`, in milliseconds.
pub open spec fn tick_interval(heading: Heading) -> u64 {
    if heading.vertical() {
        VERTICAL_TICK_MS
    } else {
        HORIZONTAL_TICK_MS
    }
}

/// A game starts in a valid state.
pub proof fn start_is_valid(bounds: Coordinate, state: GameState)
    requires
        spans_margin(bounds),
        starts(bounds, state),
    ensures
        state.valid(),
{
}

/// A move keeps a valid state valid, whether it succeeds or not. So the
/// body never holds a cell twice: a head that would collide is not
/// committed.
pub proof fn move_keeps_valid(
    pre: GameState,
    target: Coordinate,
    post: GameState,
    outcome: Result<Delta, TerminationReason>,
)
    requires
        pre.valid(),
        moved(pre, target, post, outcome),
    ensures
        post.valid(),
        post.body.no_duplicates(),
{
    if head_verdict(pre, target) is Ok {
        if pre.food == Some(target) {
            crate::snake::growing_keeps_body(pre.body, target);
            assert forall|i: int| 0 <= i < post.body.len() implies within(
                post.bounds,
                #[trigger] post.body[i],
            ) by {
                if i > 0 {
                    assert(post.body[i] == pre.body[i - 1]);
                }
            }
        } else {
            crate::snake::advancing_keeps_body(pre.body, target);
            assert forall|i: int| 0 <= i < post.body.len() implies within(
                post.bounds,
                #[trigger] post.body[i],
            ) by {
                if i > 0 {
                    assert(post.body[i] == pre.body[i - 1]);
                }
            }
            if pre.food is Some {
                let food = pre.food->0;
                if post.body.contains(food) {
                    let i = choose|i: int| 0 <= i < post.body.len() && post.body[i] == food;
                    if i > 0 {
                        assert(pre.body[i - 1] == food);
                    }
                }
            }
        }
    }
}

/// A tick keeps a valid state valid, whether it succeeds or not. So the
/// body never holds a cell twice, in any state that a game reaches.
pub proof fn tick_keeps_valid(
    pre: GameState,
    post: GameState,
    outcome: Result<Delta, TerminationReason>,
)
    requires
        pre.valid(),
        stepped(pre, post, outcome),
    ensures
        post.valid(),
        post.body.no_duplicates(),
{
    match step_from(pre.head(), pre.heading) {
        None => {},
        Some(target) => {
            move_keeps_valid(pre, target, post, outcome);
        },
    }
}

/// Steering keeps a valid state valid: it changes the heading and nothing
/// else.
pub proof fn steering_keeps_valid(state: GameState, heading: Heading)
    requires
        state.valid(),
    ensures
        state.steered(heading).valid(),
        state.steered(heading).body == state.body,
{
}

/// Whether `post` can follow `pre` in a game: by steering to some heading
/// and one tick that did not end the game.
pub open spec fn follows(pre: GameState, post: GameState) -> bool {
    exists|heading: Heading, delta: Delta| #[trigger]
        stepped(pre.steered(heading), post, Ok::<Delta, TerminationReason>(delta))
}

/// Whether `states` are the states of a game from its start on a grid of
/// the given size, one per tick.
pub open spec fn is_run(bounds: Coordinate, states: Seq<GameState>) -> bool {
    &&& states.len() > 0
    &&& starts(bounds, states[0])
    &&& forall|i: int| 0 < i < states.len() ==> follows(states[i - 1], #[trigger] states[i])
}

/// Every state that a game reaches is valid; in particular, in none of them
/// does the body hold a cell twice.
pub proof fn run_stays_valid(bounds: Coordinate, states: Seq<GameState>, i: int)
    requires
        spans_margin(bounds),
        is_run(bounds, states),
        0 <= i < states.len(),
    ensures
        states[i].valid(),
        states[i].body.no_duplicates(),
    decreases i,
{
    if i == 0 {
        start_is_valid(bounds, states[0]);
    } else {
        run_stays_valid(bounds, states, i - 1);
        let pre = states[i - 1];
        let post = states[i];
        assert(follows(pre, post));
        let (heading, delta) = choose|heading: Heading, delta: Delta| #[trigger]
            stepped(pre.steered(heading), post, Ok::<Delta, TerminationReason>(delta));
        steering_keeps_valid(pre, heading);
        tick_keeps_valid(pre.steered(heading), post, Ok(delta));
    }
}

/// A tick that does not take the head onto the food leaves the snake as
/// long as it was.
pub proof fn length_kept_without_food(
    pre: GameState,
    post: GameState,
    outcome: Result<Delta, TerminationReason>,
)
    requires
        pre.valid(),
        stepped(pre, post, outcome),
        !lands_on_food(pre),
    ensures
        post.body.len() == pre.body.len(),
{
}

/// A tick that takes the head onto the food makes the snake one cell
/// longer, and the food that it places is not under the snake.
pub proof fn length_grows_on_food(
    pre: GameState,
    post: GameState,
    outcome: Result<Delta, TerminationReason>,
)
    requires
        pre.valid(),
        stepped(pre, post, outcome),
        lands_on_food(pre),
    ensures
        outcome is Ok,
        post.body.len() == pre.body.len() + 1,
        post.food matches Some(cell) ==> !post.body.contains(cell),
{
}

/// A game in progress.
#[derive(Debug)]
pub struct Game {
    snake: Snake,
    heading: Heading,
    food: Option<Coordinate>,
    bounds: Coordinate,
}

impl View for Game {
    type V = GameState;

    closed spec fn view(&self) -> GameState {
        GameState {
            body: self.snake@,
            heading: self.heading,
            food: self.food,
            bounds: self.bounds,
        }
    }
}

/// What one tick did, and what the caller has to do about it.
#[derive(Debug)]
pub struct Tick {
    /// What the tick changed, or why the game ended.
    pub outcome: Result<Delta, TerminationReason>,
    /// The cells to redraw, in order; none where the game ended.
    pub ops: Vec<RenderOp>,
    /// How long to wait before the next tick, in milliseconds.
    pub delay_ms: u64,
}

impl Game {
    /// Whether the game is in a valid state. The constructors hand out only
    /// such games, and every method keeps them so.
    pub open spec fn wf(&self) -> bool {
        self@.valid()
    }

    /// Sets up a game on a grid of the given size: the snake is one cell at
    /// the centre and heads right, and food is placed if there is a free
    /// cell for it. A grid that cannot keep the food's margin is refused.
    pub fn new(bounds: Coordinate) -> (made: Result<Game, ConfigError>)
        ensures
            made is Ok <==> spans_margin(bounds),
            made matches Ok(game) ==> game.wf() && starts(bounds, game@),
            made matches Err(error) ==> error == ConfigError::GridTooSmall,
    {
        if !holds_margin(bounds) {
            return Err(ConfigError::GridTooSmall);
        }
        let head = Coordinate { col: bounds.col / 2, row: bounds.row / 2 };
        let snake = Snake::new(head);
        let food = generate_food_pos(bounds, &snake);
        Ok(Game { snake, heading: Heading::Right, food, bounds })
    }

    /// The game that is in the given state; `None` where the state is not
    /// valid.
    pub fn from_parts(
        bounds: Coordinate,
        cells: &Vec<Coordinate>,
        heading: Heading,
        food: Option<Coordinate>,
    ) -> (made: Option<Game>)
        ensures
            made is Some <==> (GameState { body: cells@, heading, food, bounds }).valid(),
            made matches Some(game) ==> game@ == (GameState {
                body: cells@,
                heading,
                food,
                bounds,
            }),
    {
        if !holds_margin(bounds) {
            return None;
        }
        let mut i: usize = 0;
        while i < cells.len()
            invariant
                i <= cells.len(),
                forall|k: int| 0 <= k < i ==> within(bounds, #[trigger] cells@[k]),
            decreases cells.len() - i,
        {
            if !cells[i].is_within(bounds) {
                return None;
            }
            i += 1;
        }
        let snake = match Snake::from_cells(cells) {
            Some(snake) => snake,
            None => {
                return None;
            },
        };
        match food {
            Some(cell) => {
                if !keeps_margin(bounds, cell) || snake.contains(cell) {
                    return None;
                }
            },
            None => {},
        }
        Some(Game { snake, heading, food, bounds })
    }

    /// The snake.
    pub fn snake(&self) -> (snake: &Snake)
        ensures
            snake@ == self@.body,
    {
        &self.snake
    }

    /// The snake's cells, head first.
    pub fn body(&self) -> (cells: Vec<Coordinate>)
        ensures
            cells@ == self@.body,
    {
        self.snake.cells()
    }

    /// The cell of the head.
    pub fn head(&self) -> (cell: Coordinate)
        requires
            self.wf(),
        ensures
            cell == self@.head(),
    {
        self.snake.head()
    }

    /// The direction of travel.
    pub fn heading(&self) -> (heading: Heading)
        ensures
            heading == self@.heading,
    {
        self.heading
    }

    /// The food on the grid, if there is any.
    pub fn food(&self) -> (food: Option<Coordinate>)
        ensures
            food == self@.food,
    {
        self.food
    }

    /// The size of the grid.
    pub fn bounds(&self) -> (bounds: Coordinate)
        ensures
            bounds == self@.bounds,
    {
        self.bounds
    }

    /// The score: the snake's length.
    pub fn score(&self) -> (score: usize)
        ensures
            score == self@.body.len(),
    {
        self.snake.len()
    }

    /// Whether the snake travels up or down.
    pub fn vertical(&self) -> (vertical: bool)
        ensures
            vertical == self@.heading.vertical(),
    {
        self.heading.vertical()
    }

    /// The pause that follows a tick along the current heading, in
    /// milliseconds.
    pub fn tick_interval_ms(&self) -> (ms: u64)
        ensures
            ms == tick_interval(self@.heading),
    {
        if self.heading.vertical() {
            VERTICAL_TICK_MS
        } else {
            HORIZONTAL_TICK_MS
        }
    }

    /// The operations that draw the game as it stands before its first
    /// tick.
    pub fn initial_render(&self) -> (ops: Vec<RenderOp>)
        requires
            self.wf(),
        ensures
            ops@ == rendered_start(self@.head(), self@.food),
    {
        render_start(self.snake.head(), self.food)
    }

    /// Steers by one key: the heading becomes what the key asks for, unless
    /// the key asks for nothing or for a reversal. Returns whether the key
    /// is one of the eight that steer.
    pub fn handle_key(&mut self, key: Key) -> (recognised: bool)
        ensures
            final(self)@ == old(self)@.steered(resolved(old(self)@.heading, key)),
            recognised == direction_of(key).is_some(),
            final(self)@.heading != old(self)@.heading.opposite(),
            direction_of(key) == Some(old(self)@.heading.opposite()) ==> final(self)@ == old(
                self,
            )@,
            old(self).wf() ==> final(self).wf(),
    {
        self.heading = resolve(self.heading, key);
        crate::input::check_valid(key)
    }

    /// Whether the head may enter `new_head`.
    pub fn valid_head(&self, new_head: Coordinate) -> (verdict: Result<(), TerminationReason>)
        ensures
            verdict == head_verdict(self@, new_head),
    {
        if !new_head.is_within(self.bounds) {
            Err(TerminationReason::WallCollision)
        } else if self.snake.contains(new_head) {
            Err(TerminationReason::SelfCollision)
        } else {
            Ok(())
        }
    }

    /// Moves the head onto `new_head`, which need not be next to it: the
    /// move is refused where [`Game::valid_head`] refuses the cell, grows
    /// the snake and places new food where the cell holds the food, and
    /// otherwise gives up the tail.
    pub fn move_to(&mut self, new_head: Coordinate) -> (outcome: Result<Delta, TerminationReason>)
        requires
            old(self).wf(),
        ensures
            final(self).wf(),
            moved(old(self)@, new_head, final(self)@, outcome),
    {
        match self.valid_head(new_head) {
            Err(reason) => {
                return Err(reason);
            },
            Ok(_) => {},
        }
        let old_head = self.snake.head();
        let delta = if self.food == Some(new_head) {
            self.snake.grow(new_head);
            self.food = generate_food_pos(self.bounds, &self.snake);
            Delta { old_head, new_head, vacated_tail: None, new_food: self.food }
        } else {
            let vacated = self.snake.advance(new_head);
            Delta { old_head, new_head, vacated_tail: Some(vacated), new_food: None }
        };
        proof {
            move_keeps_valid(old(self)@, new_head, self@, Ok(delta));
        }
        Ok(delta)
    }

    /// Advances the game by one tick along the current heading.
    pub fn update(&mut self) -> (outcome: Result<Delta, TerminationReason>)
        requires
            old(self).wf(),
        ensures
            final(self).wf(),
            stepped(old(self)@, final(self)@, outcome),
    {
        let head = self.snake.head();
        match head.step(self.heading) {
            None => Err(TerminationReason::DegenerateMove),
            Some(new_head) => self.move_to(new_head),
        }
    }

    /// One turn of the game's loop: steers by the keys that arrived since
    /// the last tick, each judged against the heading of that tick, then
    /// advances the game by one tick, and says what to redraw and how long
    /// to wait.
    pub fn tick(&mut self, keys: &Vec<Key>) -> (tick: Tick)
        requires
            old(self).wf(),
        ensures
            final(self).wf(),
            final(self)@.heading == resolved_queue(old(self)@.heading, keys@),
            final(self)@.heading != old(self)@.heading.opposite(),
            stepped(
                old(self)@.steered(resolved_queue(old(self)@.heading, keys@)),
                final(self)@,
                tick.outcome,
            ),
            tick.ops@ == match tick.outcome {
                Ok(delta) => rendered(delta),
                Err(_) => Seq::<RenderOp>::empty(),
            },
            tick.delay_ms == tick_interval(final(self)@.heading),
    {
        proof {
            crate::input::queue_never_reverses(self@.heading, keys@);
        }
        self.heading = resolve_queue(self.heading, keys);
        let outcome = self.update();
        let ops = match outcome {
            Ok(delta) => render(&delta),
            Err(_) => Vec::new(),
        };
        let delay_ms = self.tick_interval_ms();
        Tick { outcome, ops, delay_ms }
    }
}

} // verus!
