//! Mathematical model of the simulation state and of one tick.
//!
//! `GameView` is the ghost image of the running state: board dimensions,
//! the ordered segment cells (head first), the applied heading, the latched
//! intent, and the food cell. The spec functions here define exactly what a
//! movement tick and an intent update do to that image; the proof functions
//! state the laws the transitions obey.

use vstd::prelude::*;
use crate::components::{cell_in_bounds, cell_step, manhattan, opposite, Direction, Position};

verus! {

/// The cells a sequence of positions stands on, in the same order.
pub open spec fn cells_of(s: Seq<Position>) -> Seq<(int, int)> {
    s.map_values(|p: Position| p@)
}

/// Ghost image of the whole simulation state.
#[verifier::ext_equal]
pub struct GameView {
    /// Board width in cells.
    pub width: int,
    /// Board height in cells.
    pub height: int,
    /// Segment cells, head first, tail last.
    pub segments: Seq<(int, int)>,
    /// Heading applied on the most recent movement tick.
    pub heading: Direction,
    /// Latched heading for the next movement tick.
    pub intent: Direction,
    /// The food cell, if one is placed.
    pub food: Option<(int, int)>,
}

/// All cells of a sequence are pairwise distinct.
pub open spec fn pairwise_distinct(s: Seq<(int, int)>) -> bool {
    forall|i: int, j: int| 0 <= i < j < s.len() ==> s[i] != s[j]
}

impl GameView {
    /// The head cell.
    pub open spec fn head(self) -> (int, int) {
        self.segments[0]
    }

    /// The cell the head moves to on the next movement tick.
    pub open spec fn next_head(self) -> (int, int) {
        cell_step(self.head(), self.intent)
    }

    /// Whether the next movement tick eats the food.
    pub open spec fn eats(self) -> bool {
        self.food == Some(self.next_head())
    }

    /// The body cells the moved head is checked against: every segment that
    /// is still occupied after the shift, head excluded. On a growth tick the
    /// tail stays put, so the whole old sequence counts; otherwise the tail
    /// cell is vacated first.
    pub open spec fn body_after_move(self) -> Seq<(int, int)> {
        if self.eats() {
            self.segments
        } else {
            self.segments.drop_last()
        }
    }

    /// The segment cells after the cascade of one movement tick: the new
    /// head in front, every other segment in its predecessor's old cell, and
    /// the tail cell kept exactly when the tick eats.
    pub open spec fn moved_segments(self) -> Seq<(int, int)> {
        seq![self.next_head()] + self.body_after_move()
    }

    /// Whether the next movement tick leaves the board.
    pub open spec fn hits_wall(self) -> bool {
        !cell_in_bounds(self.next_head(), self.width, self.height)
    }

    /// Whether the next movement tick runs the head into the body.
    pub open spec fn hits_body(self) -> bool {
        self.body_after_move().contains(self.next_head())
    }

    /// Whether the next movement tick ends the game.
    pub open spec fn game_over(self) -> bool {
        self.hits_wall() || self.hits_body()
    }

    /// The canonical fresh state on a `w` by `h` board: a three-segment
    /// snake standing on the origin column, head on top, heading `Up`, no
    /// intent beyond the heading, no food.
    pub open spec fn reset(w: int, h: int) -> GameView {
        GameView {
            width: w,
            height: h,
            segments: seq![(0int, 2int), (0int, 1int), (0int, 0int)],
            heading: Direction::Up,
            intent: Direction::Up,
            food: None,
        }
    }

    /// The state after one movement tick: the latched intent becomes the
    /// heading, the body cascades one cell, eaten food is cleared, and a
    /// collision resets everything.
    pub open spec fn after_movement_tick(self) -> GameView {
        if self.game_over() {
            GameView::reset(self.width, self.height)
        } else {
            GameView {
                segments: self.moved_segments(),
                heading: self.intent,
                food: if self.eats() { None } else { self.food },
                ..self
            }
        }
    }

    /// The state after one intent update: a proposal that reverses the
    /// applied heading is silently discarded, any other proposal replaces
    /// the latched intent.
    pub open spec fn after_set_intent(self, proposed: Direction) -> GameView {
        if proposed == opposite(self.heading) {
            self
        } else {
            GameView { intent: proposed, ..self }
        }
    }

    /// Well-formedness of a live state: a usable board, at least two
    /// segments, every segment on the board, no two segments on the same
    /// cell, an intent that never reverses the heading, and food (if any)
    /// on the board and off the body.
    pub open spec fn wf(self) -> bool {
        &&& 1 <= self.width
        &&& 3 <= self.height
        &&& self.width * self.height <= i32::MAX
        &&& 2 <= self.segments.len()
        &&& forall|i: int|
            0 <= i < self.segments.len() ==> cell_in_bounds(
                #[trigger] self.segments[i],
                self.width,
                self.height,
            )
        &&& pairwise_distinct(self.segments)
        &&& self.intent != opposite(self.heading)
        &&& self.food matches Some(f) ==> cell_in_bounds(f, self.width, self.height)
            && !self.segments.contains(f)
    }
}

/// The canonical fresh state is well formed on every usable board.
pub proof fn lemma_reset_wf(w: int, h: int)
    requires
        1 <= w,
        3 <= h,
        w * h <= i32::MAX,
    ensures
        GameView::reset(w, h).wf(),
{
    let s = GameView::reset(w, h).segments;
    assert(cell_in_bounds(s[0], w, h));
    assert(cell_in_bounds(s[1], w, h));
    assert(cell_in_bounds(s[2], w, h));
}

/// A heading never reverses to itself, and reversing twice comes back.
pub proof fn lemma_opposite(d: Direction)
    ensures
        opposite(d) != d,
        opposite(opposite(d)) == d,
{
}

/// One movement tick keeps the state well formed: on a collision because
/// the canonical fresh state is, and on a live tick because the cascade
/// keeps every segment on the board, keeps the segments pairwise distinct,
/// and keeps uneaten food off the body.
pub proof fn lemma_movement_tick_wf(g: GameView)
    requires
        g.wf(),
    ensures
        g.after_movement_tick().wf(),
{
    if g.game_over() {
        lemma_reset_wf(g.width, g.height);
    } else {
        let after = g.after_movement_tick();
        let moved = g.moved_segments();
        let body = g.body_after_move();
        assert forall|i: int| 0 <= i < moved.len() implies cell_in_bounds(
            #[trigger] moved[i],
            g.width,
            g.height,
        ) by {
            if i > 0 {
                if g.eats() {
                    assert(moved[i] == g.segments[i - 1]);
                } else {
                    assert(moved[i] == g.segments.drop_last()[i - 1]);
                    assert(g.segments.drop_last()[i - 1] == g.segments[i - 1]);
                }
            }
        }
        assert(pairwise_distinct(moved)) by {
            assert forall|i: int, j: int| 0 <= i < j < moved.len() implies moved[i] != moved[j] by {
                if i == 0 {
                    assert(body.contains(moved[j])) by {
                        assert(moved[j] == body[j - 1]);
                    }
                } else {
                    if !g.eats() {
                        assert(body[i - 1] == g.segments[i - 1]);
                        assert(body[j - 1] == g.segments[j - 1]);
                    }
                }
            }
        }
        lemma_opposite(g.intent);
        if g.food is Some && !g.eats() {
            let f = g.food->Some_0;
            assert(!moved.contains(f)) by {
                assert(f != g.next_head());
                assert forall|i: int| 0 < i < moved.len() implies moved[i] != f by {
                    assert(moved[i] == body[i - 1]);
                    if !g.eats() {
                        assert(body[i - 1] == g.segments[i - 1]);
                    }
                    assert(g.segments.contains(g.segments[i - 1]));
                }
            }
        }
    }
}

/// Length bookkeeping of one movement tick. A tick that eats grows the body
/// by exactly one segment and can never end the game; a live tick that does
/// not eat keeps the length; a collision resets to the canonical three
/// segments.
pub proof fn lemma_tick_length(g: GameView)
    requires
        g.wf(),
    ensures
        g.eats() ==> !g.game_over(),
        g.eats() ==> g.after_movement_tick().segments.len() == g.segments.len() + 1,
        !g.eats() && !g.game_over() ==> g.after_movement_tick().segments.len()
            == g.segments.len(),
        g.game_over() ==> g.after_movement_tick().segments.len() == 3,
{
    if g.eats() {
        let f = g.food->Some_0;
        assert(f == g.next_head());
        assert(!g.hits_wall());
        assert(!g.hits_body());
    }
}

/// The state after `n` movement ticks.
pub open spec fn after_ticks(g: GameView, n: nat) -> GameView
    decreases n,
{
    if n == 0 {
        g
    } else {
        after_ticks(g.after_movement_tick(), (n - 1) as nat)
    }
}

/// The next `n` movement ticks neither eat nor end the game.
pub open spec fn quiet_for(g: GameView, n: nat) -> bool
    decreases n,
{
    n == 0 || (!g.eats() && !g.game_over() && quiet_for(g.after_movement_tick(), (n - 1) as nat))
}

/// Length conservation: over any run of movement ticks in which no tick
/// eats and no tick ends the game, the number of segments never changes.
pub proof fn lemma_length_conservation(g: GameView, n: nat)
    requires
        g.wf(),
        quiet_for(g, n),
    ensures
        after_ticks(g, n).segments.len() == g.segments.len(),
        after_ticks(g, n).wf(),
    decreases n,
{
    if n > 0 {
        lemma_tick_length(g);
        lemma_movement_tick_wf(g);
        lemma_length_conservation(g.after_movement_tick(), (n - 1) as nat);
    }
}

/// A proposal to reverse the applied heading is always discarded outright:
/// the state does not change at all.
pub proof fn lemma_reversal_discarded(g: GameView)
    ensures
        g.after_set_intent(opposite(g.heading)) == g,
{
}

/// No reversal: with no other proposal pending, latching the reverse of the
/// applied heading and then running a movement tick that keeps the game
/// live leaves the applied heading exactly where it was.
pub proof fn lemma_no_reversal(g: GameView)
    requires
        g.wf(),
        g.intent == g.heading,
        !g.game_over(),
    ensures
        g.after_set_intent(opposite(g.heading)) == g,
        g.after_set_intent(opposite(g.heading)).after_movement_tick().heading == g.heading,
{
}

/// Every segment stands one cell from its successor: the body has no
/// positional gap.
pub open spec fn contiguous(s: Seq<(int, int)>) -> bool {
    forall|i: int| 0 <= i < s.len() - 1 ==> manhattan(#[trigger] s[i], s[i + 1]) == 1
}

/// The canonical fresh snake is contiguous.
pub proof fn lemma_reset_contiguous(w: int, h: int)
    ensures
        contiguous(GameView::reset(w, h).segments),
{
    let s = GameView::reset(w, h).segments;
    assert(manhattan(s[0], s[1]) == 1);
    assert(manhattan(s[1], s[2]) == 1);
}

/// The cascade never opens a gap: a movement tick of a contiguous body
/// leaves it contiguous, on a live tick because every segment moves into
/// its one-cell-away predecessor, and on a collision because the canonical
/// fresh snake is contiguous.
pub proof fn lemma_tick_preserves_contiguity(g: GameView)
    requires
        g.wf(),
        contiguous(g.segments),
    ensures
        contiguous(g.after_movement_tick().segments),
{
    if g.game_over() {
        lemma_reset_contiguous(g.width, g.height);
    } else {
        let moved = g.moved_segments();
        let body = g.body_after_move();
        assert forall|i: int| 0 <= i < moved.len() - 1 implies manhattan(
            #[trigger] moved[i],
            moved[i + 1],
        ) == 1 by {
            if i == 0 {
                crate::components::lemma_step_is_one_cell(g.head(), g.intent);
                assert(moved[0] == g.next_head());
                assert(moved[1] == g.segments[0]);
            } else {
                assert(moved[i] == body[i - 1]);
                assert(moved[i + 1] == body[i]);
                if !g.eats() {
                    assert(body[i - 1] == g.segments[i - 1]);
                    assert(body[i] == g.segments[i]);
                }
            }
        }
    }
}

/// Growth lands at the vacated tail cell, within the same tick: a tick
/// that eats pushes the new head in front, keeps every old segment where
/// the cascade puts it, and the old tail cell stays occupied.
pub proof fn lemma_growth_at_tail(g: GameView)
    requires
        g.wf(),
        g.eats(),
    ensures
        g.after_movement_tick().segments[0] == g.next_head(),
        g.after_movement_tick().segments.drop_first() == g.segments,
        g.after_movement_tick().segments.last() == g.segments.last(),
{
    lemma_tick_length(g);
    assert(g.after_movement_tick().segments.drop_first() =~= g.segments);
}

/// Self-distinctness: a movement tick that keeps the game live leaves all
/// segment cells pairwise distinct.
pub proof fn lemma_live_tick_distinct(g: GameView)
    requires
        g.wf(),
        !g.game_over(),
    ensures
        pairwise_distinct(g.after_movement_tick().segments),
{
    lemma_movement_tick_wf(g);
}

/// An intent update keeps the state well formed, and never changes anything
/// but the latched intent.
pub proof fn lemma_set_intent_wf(g: GameView, proposed: Direction)
    requires
        g.wf(),
    ensures
        g.after_set_intent(proposed).wf(),
        g.after_set_intent(proposed) == (GameView { intent: g.after_set_intent(proposed).intent, ..g }),
{
}

} // verus!

