//! The running simulation: movement engine, collision detection, reset.
//!
//! `GameState` owns the segment sequence, the applied heading, the latched
//! intent and the food cell. Every mutation goes through the methods here,
//! and each method's contract ties the new state to the ghost transition
//! functions of [`crate::model`].

use vstd::prelude::*;
use crate::components::{
    cell_in_bounds, cell_step, manhattan, opposite_of, Direction, GridConfig, Position,
};
use crate::model::{cells_of, GameView};
use crate::model::{lemma_movement_tick_wf, lemma_reset_wf, lemma_set_intent_wf};
use crate::spawner::{occupied_contains, spawn_food};

verus! {

/// What one movement tick reports to the caller: the cell the head moved
/// to, the post-move segment cells (before any game-over reset), whether
/// the tick ate the food, and whether it ended the game.
pub struct MovementReport {
    pub head: Position,
    pub segments: Vec<Position>,
    pub ate_food: bool,
    pub game_over: bool,
}

/// The authoritative simulation state.
pub struct GameState {
    grid: GridConfig,
    segments: Vec<Position>,
    heading: Direction,
    intent: Direction,
    food: Option<Position>,
}

impl View for GameState {
    type V = GameView;

    closed spec fn view(&self) -> GameView {
        GameView {
            width: self.grid.width as int,
            height: self.grid.height as int,
            segments: cells_of(self.segments@),
            heading: self.heading,
            intent: self.intent,
            food: match self.food {
                Some(p) => Some(p@),
                None => None,
            },
        }
    }
}

/// The ghost image a state built from these parts would have.
pub open spec fn parts_view(
    grid: GridConfig,
    segments: Seq<Position>,
    heading: Direction,
    intent: Direction,
    food: Option<Position>,
) -> GameView {
    GameView {
        width: grid.width as int,
        height: grid.height as int,
        segments: cells_of(segments),
        heading,
        intent,
        food: match food {
            Some(p) => Some(p@),
            None => None,
        },
    }
}

/// Copies a sequence of positions.
fn clone_positions(v: &Vec<Position>) -> (r: Vec<Position>)
    ensures
        r@ == v@,
{
    let mut r: Vec<Position> = Vec::new();
    let mut i: usize = 0;
    while i < v.len()
        invariant
            0 <= i <= v.len(),
            r@ == v@.subrange(0, i as int),
        decreases v.len() - i,
    {
        r.push(v[i]);
        proof {
            assert(r@ =~= v@.subrange(0, i + 1));
        }
        i = i + 1;
    }
    proof {
        assert(r@ =~= v@);
    }
    r
}

/// The position one cell from `p` in heading `d`.
fn step_position(p: Position, d: Direction) -> (r: Position)
    requires
        i32::MIN < p.x < i32::MAX,
        i32::MIN < p.y < i32::MAX,
    ensures
        r@ == cell_step(p@, d),
{
    match d {
        Direction::Up => Position { x: p.x, y: p.y + 1 },
        Direction::Down => Position { x: p.x, y: p.y - 1 },
        Direction::Left => Position { x: p.x - 1, y: p.y },
        Direction::Right => Position { x: p.x + 1, y: p.y },
    }
}

/// Whether some position after the first in `v` stands on the cell of `p`.
fn rest_contains(v: &Vec<Position>, p: Position) -> (r: bool)
    ensures
        r == exists|k: int| 1 <= k < v@.len() && v@[k]@ == p@,
{
    let mut i: usize = 1;
    while i < v.len()
        invariant
            1 <= i,
            forall|k: int| 1 <= k < i && k < v@.len() ==> v@[k]@ != p@,
        decreases v.len() - i,
    {
        if v[i] == p {
            return true;
        }
        i = i + 1;
    }
    false
}

impl GameState {
    /// Well-formedness of the running state.
    pub open spec fn wf(self) -> bool {
        self@.wf()
    }

    /// Builds the canonical fresh state on the given board: a three-segment
    /// snake on the origin column, head on top, heading `Up`, no food.
    pub fn new(grid: GridConfig) -> (s: GameState)
        requires
            grid.wf(),
        ensures
            s@ == GameView::reset(grid.width as int, grid.height as int),
            s.wf(),
    {
        let mut segments: Vec<Position> = Vec::new();
        segments.push(Position { x: 0, y: 2 });
        segments.push(Position { x: 0, y: 1 });
        segments.push(Position { x: 0, y: 0 });
        let s = GameState {
            grid,
            segments,
            heading: Direction::Up,
            intent: Direction::Up,
            food: None,
        };
        proof {
            assert(s@.segments =~= GameView::reset(grid.width as int, grid.height as int).segments);
            lemma_reset_wf(grid.width as int, grid.height as int);
        }
        s
    }

    /// Builds a state from explicit parts, for embedders that restore or
    /// probe a session. The parts are validated against the live-state
    /// invariant: `None` comes back exactly when they break it.
    #[verifier::loop_isolation(false)]
    pub fn from_parts(
        grid: GridConfig,
        segments: Vec<Position>,
        heading: Direction,
        intent: Direction,
        food: Option<Position>,
    ) -> (r: Option<GameState>)
        ensures
            (r matches Some(s) ==> s@ == parts_view(grid, segments@, heading, intent, food)
                && s.wf()),
            (r is None ==> !parts_view(grid, segments@, heading, intent, food).wf()),
    {
        let ghost v = parts_view(grid, segments@, heading, intent, food);
        if grid.width < 1 || grid.height < 3 {
            return None;
        }
        proof {
            assert((grid.width as i64) * (grid.height as i64) <= 0x7fffffffi64 * 0x7fffffffi64)
                by (nonlinear_arith)
                requires
                    1 <= grid.width as i64 <= 0x7fffffffi64,
                    1 <= grid.height as i64 <= 0x7fffffffi64,
            ;
        }
        if (grid.width as i64) * (grid.height as i64) > i32::MAX as i64 {
            return None;
        }
        if segments.len() < 2 {
            return None;
        }
        let mut i: usize = 0;
        while i < segments.len()
            invariant
                0 <= i <= segments.len(),
                forall|k: int|
                    0 <= k < i ==> cell_in_bounds(
                        #[trigger] segments@[k]@,
                        grid.width as int,
                        grid.height as int,
                    ),
            decreases segments.len() - i,
        {
            let p = segments[i];
            if p.x < 0 || p.x >= grid.width || p.y < 0 || p.y >= grid.height {
                proof {
                    assert(v.segments[i as int] == segments@[i as int]@);
                }
                return None;
            }
            i = i + 1;
        }
        let mut a: usize = 0;
        while a < segments.len()
            invariant
                0 <= a <= segments.len(),
                forall|k: int, l: int|
                    0 <= k < l < segments@.len() && k < a ==> segments@[k]@ != segments@[l]@,
            decreases segments.len() - a,
        {
            let mut b: usize = a + 1;
            while b < segments.len()
                invariant
                    a < b <= segments.len(),
                    a < segments.len(),
                    forall|k: int, l: int|
                        0 <= k < l < segments@.len() && k < a ==> segments@[k]@ != segments@[l]@,
                    forall|l: int| a < l < b ==> segments@[a as int]@ != segments@[l]@,
                decreases segments.len() - b,
            {
                if segments[a] == segments[b] {
                    proof {
                        assert(v.segments[a as int] == v.segments[b as int]);
                    }
                    return None;
                }
                b = b + 1;
            }
            a = a + 1;
        }
        if intent == opposite_of(heading) {
            return None;
        }
        if let Some(f) = food {
            if f.x < 0 || f.x >= grid.width || f.y < 0 || f.y >= grid.height {
                return None;
            }
            if occupied_contains(&segments, f) {
                return None;
            }
        }
        let s = GameState { grid, segments, heading, intent, food };
        proof {
            assert(s@ =~= v);
            assert forall|k: int, l: int| 0 <= k < l < v.segments.len() implies v.segments[k]
                != v.segments[l] by {
                assert(s.segments@[k]@ != s.segments@[l]@);
            }
        }
        Some(s)
    }

    /// Latches a heading for the next movement tick. A proposal that
    /// reverses the applied heading is silently discarded; any other
    /// proposal replaces the pending intent, latest call winning.
    pub fn set_direction_intent(&mut self, proposed: Direction)
        requires
            old(self).wf(),
        ensures
            final(self)@ == old(self)@.after_set_intent(proposed),
            final(self).wf(),
    {
        let rev = opposite_of(self.heading);
        if proposed != rev {
            self.intent = proposed;
        }
        proof {
            lemma_set_intent_wf(old(self)@, proposed);
        }
    }

    /// Runs one movement tick: applies the latched intent as the heading,
    /// moves the head one cell, cascades every segment into its
    /// predecessor's old cell, keeps the tail (growing by one) exactly when
    /// the head lands on the food, clears eaten food, and resets the whole
    /// state when the head leaves the board or runs into the body.
    ///
    /// The report carries the post-move head and segments (before any
    /// reset), so a tick that ends the game still shows where the head
    /// went.
    pub fn on_movement_tick(&mut self) -> (r: MovementReport)
        requires
            old(self).wf(),
        ensures
            final(self)@ == old(self)@.after_movement_tick(),
            final(self).wf(),
            r.head@ == old(self)@.next_head(),
            manhattan(r.head@, old(self)@.head()) == 1,
            cells_of(r.segments@) == old(self)@.moved_segments(),
            r.ate_food == old(self)@.eats(),
            r.game_over == old(self)@.game_over(),
    {
        let ghost g0 = self@;
        self.heading = self.intent;
        let old_head = self.segments[0];
        proof {
            assert(cell_in_bounds(g0.segments[0], g0.width, g0.height));
        }
        let new_head = step_position(old_head, self.heading);
        let ate = match self.food {
            Some(f) => f == new_head,
            None => false,
        };
        self.segments.insert(0, new_head);
        if ate {
            self.food = None;
        } else {
            let _tail = self.segments.pop();
        }
        proof {
            if ate {
                assert(cells_of(self.segments@) =~= g0.moved_segments());
            } else {
                assert(self.segments@ =~= old(self).segments@.insert(0, new_head).drop_last());
                assert(cells_of(self.segments@) =~= g0.moved_segments());
            }
        }
        let in_bounds = 0 <= new_head.x && new_head.x < self.grid.width && 0 <= new_head.y
            && new_head.y < self.grid.height;
        let hits_body = rest_contains(&self.segments, new_head);
        proof {
            assert(g0.hits_body() <==> (exists|k: int|
                1 <= k < self.segments@.len() && self.segments@[k]@ == new_head@)) by {
                let moved = g0.moved_segments();
                let body = g0.body_after_move();
                if g0.hits_body() {
                    let j = choose|j: int| 0 <= j < body.len() && body[j] == g0.next_head();
                    assert(moved[j + 1] == g0.next_head());
                    assert(self.segments@[j + 1]@ == new_head@);
                }
                if exists|k: int| 1 <= k < self.segments@.len() && self.segments@[k]@ == new_head@ {
                    let k = choose|k: int|
                        1 <= k < self.segments@.len() && self.segments@[k]@ == new_head@;
                    assert(moved[k] == new_head@);
                    assert(body[k - 1] == g0.next_head());
                    assert(body.contains(g0.next_head()));
                }
            }
        }
        let game_over = !in_bounds || hits_body;
        let report = MovementReport {
            head: new_head,
            segments: clone_positions(&self.segments),
            ate_food: ate,
            game_over,
        };
        if game_over {
            let grid = self.grid;
            *self = GameState::new(grid);
        }
        proof {
            lemma_movement_tick_wf(g0);
            assert(self@ =~= g0.after_movement_tick());
        }
        report
    }

    /// Runs one food-spawn tick. It only fires when no food exists: then a
    /// random unoccupied cell becomes the food and comes back as `Some`.
    /// `None` with no food on a live board can only mean the body covers
    /// every cell — a caller may treat that as a terminal win.
    pub fn on_food_tick(&mut self) -> (r: Option<Position>)
        requires
            old(self).wf(),
        ensures
            final(self).wf(),
            (old(self)@.food is Some ==> r is None && final(self)@ == old(self)@),
            (old(self)@.food is None ==> (r matches Some(p) ==> cell_in_bounds(
                p@,
                old(self)@.width,
                old(self)@.height,
            ) && !old(self)@.segments.contains(p@) && final(self)@ == (GameView {
                food: Some(p@),
                ..old(self)@
            }))),
            (old(self)@.food is None && r is None ==> final(self)@ == old(self)@ && (forall|
                c: (int, int),
            |
                cell_in_bounds(c, old(self)@.width, old(self)@.height) ==> old(
                    self,
                )@.segments.contains(c))),
    {
        match self.food {
            Some(_) => None,
            None => {
                let grid = self.grid;
                let r = spawn_food(&self.segments, grid);
                if let Some(p) = r {
                    self.food = Some(p);
                    proof {
                        assert(self@ =~= (GameView { food: Some(p@), ..old(self)@ }));
                    }
                }
                r
            },
        }
    }

    /// The food cell, if one is placed; read-only, for rendering.
    pub fn current_food_position(&self) -> (r: Option<Position>)
        ensures
            (r is Some <==> self@.food is Some),
            (r matches Some(p) ==> self@.food == Some(p@)),
    {
        self.food
    }

    /// The segment positions, head first; read-only, for rendering.
    pub fn segments(&self) -> (r: &Vec<Position>)
        ensures
            cells_of(r@) == self@.segments,
    {
        &self.segments
    }

    /// The heading applied on the most recent movement tick.
    pub fn heading(&self) -> (r: Direction)
        ensures
            r == self@.heading,
    {
        self.heading
    }

    /// The board dimensions.
    pub fn grid(&self) -> (g: GridConfig)
        ensures
            g.width as int == self@.width,
            g.height as int == self@.height,
    {
        self.grid
    }
}

} // verus!

