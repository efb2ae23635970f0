//! The formation: its members, the shots they have fired, and the state
//! machine that moves the members and lets them fire.

use crate::frame::{
    all_fit, collides, draw_all, drawn_all, update_all, Drawable, Frame, Rect, Transform,
    Updatable,
};
use crate::invader::{
    lemma_explosion_lasts, Invader, INVADER_ANIM_MILLIS, INVADER_HEIGHT, INVADER_WIDTH,
};
use crate::shot::{
    lemma_shots_stay_in_field, live_shots, retain_live_shots, shots_in_field, shots_updated,
    update_shots, Direction, Shot, SHOT_STEP_MILLIS,
};
use crate::timer::{elapsed, Timer, MAX_MILLIS, NANOS_PER_MILLI};
use crate::{NUM_COLS, NUM_ROWS};
use rand::Rng;
use vstd::prelude::*;

verus! {

/// Columns of invaders in a new formation.
pub const ARMY_COLUMNS: usize = 9;

/// Rows of invaders in a new formation.
pub const ARMY_ROWS: usize = 5;

/// The shortest time between two moves of the formation, in milliseconds.
pub const MIN_MOVE_MILLIS: u64 = 250;

/// By how many milliseconds the time between two moves shrinks at each turn.
pub const MOVE_SPEEDUP_MILLIS: u64 = 100;

/// The time before the first attempt to fire, in milliseconds.
pub const FIRST_FIRE_MILLIS: u64 = 4000;

/// The least time between two attempts to fire, in milliseconds.
pub const MIN_FIRE_MILLIS: u64 = 500;

/// The time between two attempts to fire stays below this, in milliseconds.
pub const MAX_FIRE_MILLIS: u64 = 8000;

/// The time between two moves of a new formation at `level`, in
/// milliseconds: 100 less per level, but never under `MIN_MOVE_MILLIS`.
pub open spec fn first_move_millis(level: int) -> int {
    if 1100 - 100 * level > MIN_MOVE_MILLIS {
        1100 - 100 * level
    } else {
        MIN_MOVE_MILLIS as int
    }
}

/// The time between two moves after a turn, where it was `millis` before.
pub open spec fn quickened(millis: int) -> int {
    if millis - MOVE_SPEEDUP_MILLIS > MIN_MOVE_MILLIS {
        millis - MOVE_SPEEDUP_MILLIS
    } else {
        MIN_MOVE_MILLIS as int
    }
}

/// The formation of invaders.
pub struct Army {
    pub invaders: Vec<Invader>,
    pub shots: Vec<Shot>,
    pub direction: isize,
    pub move_timer: Timer,
    pub shot_timer: Timer,
}

/// What an [`Army`] holds, as a value to reason about.
pub struct ArmyState {
    pub invaders: Seq<Invader>,
    pub shots: Seq<Shot>,
    pub direction: int,
    pub move_timer: Timer,
    pub shot_timer: Timer,
}

impl View for Army {
    type V = ArmyState;

    open spec fn view(&self) -> ArmyState {
        ArmyState {
            invaders: self.invaders@,
            shots: self.shots@,
            direction: self.direction as int,
            move_timer: self.move_timer,
            shot_timer: self.shot_timer,
        }
    }
}

/// Every member is in order and stands inside the playfield.
pub open spec fn members_in_field(invaders: Seq<Invader>) -> bool {
    forall|i: int|
        0 <= i < invaders.len() ==> (#[trigger] invaders[i]).wf() && invaders[i].in_field()
}

/// Some member that is alive stands in the first column.
pub open spec fn at_left_edge(invaders: Seq<Invader>) -> bool {
    exists|i: int|
        0 <= i < invaders.len() && (#[trigger] invaders[i]).is_alive && invaders[i].x == 0
}

/// The rightmost member that is alive ends just before the last column.
pub open spec fn at_right_edge(invaders: Seq<Invader>) -> bool {
    &&& exists|i: int|
        0 <= i < invaders.len() && (#[trigger] invaders[i]).is_alive && invaders[i].x
            + INVADER_WIDTH == NUM_COLS - 1
    &&& forall|i: int|
        0 <= i < invaders.len() && (#[trigger] invaders[i]).is_alive ==> invaders[i].x
            + INVADER_WIDTH <= NUM_COLS - 1
}

/// The lower edge of some member that is alive has reached the second row
/// from the bottom.
pub open spec fn reached_bottom(invaders: Seq<Invader>) -> bool {
    exists|i: int|
        0 <= i < invaders.len() && (#[trigger] invaders[i]).is_alive && invaders[i].y
            + INVADER_HEIGHT >= NUM_ROWS - 1
}

/// Two members stand in the same place and are both alive or both dead.
pub open spec fn stands_like(a: Invader, b: Invader) -> bool {
    a.x == b.x && a.y == b.y && a.is_alive == b.is_alive
}

/// Some member of `invaders` stands like `member`.
pub open spec fn has_like(invaders: Seq<Invader>, member: Invader) -> bool {
    exists|i: int| 0 <= i < invaders.len() && stands_like(#[trigger] invaders[i], member)
}

/// `part` is what stays of `whole` when dead members leave: each of its
/// members stands like one of `whole`, and each living member of `whole`
/// has one in `part` that stands like it.
pub open spec fn stays_of(whole: Seq<Invader>, part: Seq<Invader>) -> bool {
    &&& forall|j: int| 0 <= j < part.len() ==> has_like(whole, #[trigger] part[j])
    &&& forall|i: int|
        0 <= i < whole.len() && (#[trigger] whole[i]).is_alive ==> has_like(part, whole[i])
}

/// The members that are not marked for removal, in their order.
pub open spec fn present(invaders: Seq<Invader>) -> Seq<Invader> {
    invaders.filter(|member: Invader| !member.remove)
}

/// Every member after `delta` nanoseconds.
pub open spec fn members_updated(invaders: Seq<Invader>, delta: u64) -> Seq<Invader> {
    invaders.map_values(|member: Invader| member.updated(delta))
}

/// The place that member `i` has among the members that stay: the number
/// of members before it that are not marked for removal.
pub open spec fn rank(invaders: Seq<Invader>, i: int) -> int {
    present(invaders.take(i)).len() as int
}

/// Whether `member` is still inside the playfield after a move of the
/// formation: a row further down if the formation turns, else `direction`
/// columns further.
pub open spec fn has_room(member: Invader, turns: bool, direction: int) -> bool {
    if turns {
        member.y + INVADER_HEIGHT + 1 <= NUM_ROWS
    } else {
        0 <= member.x + direction && member.x + direction + INVADER_WIDTH <= NUM_COLS
    }
}

/// The member after a move of the formation: a row further down if the
/// formation turns, else `direction` columns further. A member that would
/// leave the playfield keeps its place.
pub open spec fn stepped(member: Invader, turns: bool, direction: int) -> Invader {
    if !has_room(member, turns, direction) {
        member
    } else if turns {
        member.lowered()
    } else {
        member.shifted(direction)
    }
}

/// Every member after a move of the formation.
pub open spec fn all_stepped(invaders: Seq<Invader>, turns: bool, direction: int) -> Seq<Invader> {
    invaders.map_values(|member: Invader| stepped(member, turns, direction))
}

/// Whether `member` is still inside the playfield `n` columns further in
/// `direction`.
pub open spec fn room_for(member: Invader, direction: int, n: nat) -> bool {
    0 <= member.x + n * direction && member.x + n * direction + INVADER_WIDTH <= NUM_COLS
}

impl ArmyState {
    /// The formation moves left or right, its members are in order and
    /// inside the playfield, and so is every shot.
    pub open spec fn wf(self) -> bool {
        &&& self.direction == 1 || self.direction == -1
        &&& members_in_field(self.invaders)
        &&& shots_in_field(self.shots)
    }

    /// A formation as it is created for `level`: `ARMY_COLUMNS` columns of
    /// `ARMY_ROWS` fresh invaders, seven columns and three rows apart from
    /// column 9, row 2 on, listed column by column; no shots; moving right;
    /// the first attempt to fire `FIRST_FIRE_MILLIS` away.
    pub open spec fn is_new(self, level: int) -> bool {
        &&& self.invaders.len() == ARMY_COLUMNS * ARMY_ROWS
        &&& forall|k: int|
            0 <= k < ARMY_COLUMNS * ARMY_ROWS ==> (#[trigger] self.invaders[k]).is_fresh(
                9 + 7 * (k / ARMY_ROWS as int),
                2 + 3 * (k % ARMY_ROWS as int),
            )
        &&& self.shots == Seq::<Shot>::empty()
        &&& self.direction == 1
        &&& self.move_timer == Timer::started(first_move_millis(level) as u64)
        &&& self.shot_timer == Timer::started(FIRST_FIRE_MILLIS)
    }

    /// Whether every member and every shot lies inside a grid of `cols`
    /// columns and `rows` rows.
    pub open spec fn fits(self, cols: int, rows: int) -> bool {
        all_fit(self.invaders, cols, rows) && all_fit(self.shots, cols, rows)
    }

    /// The grid with the members and then the shots drawn over it.
    pub open spec fn drawn(self, g: Seq<Seq<char>>) -> Seq<Seq<char>> {
        drawn_all(self.shots, drawn_all(self.invaders, g))
    }

    /// Whether the formation's leading edge touches the side that it moves
    /// towards: it then turns at its next move. The leading edge is that of
    /// the members that are alive; a formation without any does not turn.
    pub open spec fn turns(self) -> bool {
        if self.direction == -1 {
            at_left_edge(self.invaders)
        } else {
            at_right_edge(self.invaders)
        }
    }

    /// Whether the formation has reached the player's rows: some member
    /// that is alive has.
    pub open spec fn invaded(self) -> bool {
        reached_bottom(self.invaders)
    }

    /// Whether member `i` is alive and collides with `r`.
    pub open spec fn hits(self, r: Rect, i: int) -> bool {
        &&& 0 <= i < self.invaders.len()
        &&& self.invaders[i].is_alive
        &&& collides(self.invaders[i].bounds(), r)
    }

    /// Whether member `i` is the first one, in the formation's order, that
    /// is alive and collides with `r`.
    pub open spec fn is_first_hit(self, r: Rect, i: int) -> bool {
        &&& self.hits(r, i)
        &&& forall|j: int| 0 <= j < i ==> !self.hits(r, j)
    }

    /// The first member that is alive and collides with `r`, if there is one.
    pub open spec fn first_hit(self, r: Rect) -> Option<int> {
        if exists|i: int| self.is_first_hit(r, i) {
            Some(choose|i: int| self.is_first_hit(r, i))
        } else {
            None
        }
    }

    /// The formation after `r` has been tested against it: the first member
    /// that it hits is killed, and stays in the formation.
    pub open spec fn struck(self, r: Rect) -> ArmyState {
        match self.first_hit(r) {
            Some(i) => ArmyState {
                invaders: self.invaders.update(i, self.invaders[i].killed()),
                ..self
            },
            None => self,
        }
    }

    /// The score of the member that `r` hits first, if it hits one.
    pub open spec fn prize(self, r: Rect) -> Option<usize> {
        match self.first_hit(r) {
            Some(i) => Some(self.invaders[i].score),
            None => None,
        }
    }

    /// The member in slot `i`, if it is alive: a dead one does not fire.
    pub open spec fn shooter_at(self, i: int) -> Option<Invader> {
        if self.invaders[i].is_alive {
            Some(self.invaders[i])
        } else {
            None
        }
    }

    /// The shot that `member` fires: from under its middle, going down.
    pub open spec fn shot_of(member: Invader) -> Shot {
        Shot {
            x: (member.x + 2) as usize,
            y: (member.y + 2) as usize,
            timer: Timer::started(SHOT_STEP_MILLIS),
            direction: Direction::Down,
            exploding: false,
        }
    }

    /// The formation after `n` moves.
    pub open spec fn moved_times(self, n: nat) -> ArmyState
        decreases n,
    {
        if n == 0 {
            self
        } else {
            self.moved_times((n - 1) as nat).moved()
        }
    }

    /// The formation after time has passed for its members: both timers have
    /// advanced, the members marked for removal are gone, the others have
    /// advanced, and if the move timer fired, the formation has moved and
    /// the timer has started over.
    pub open spec fn marched(self, delta: u64) -> ArmyState {
        let kept = ArmyState {
            invaders: members_updated(present(self.invaders), delta),
            move_timer: self.move_timer.advanced(delta),
            shot_timer: self.shot_timer.advanced(delta),
            ..self
        };
        if kept.move_timer.ready {
            let moved = kept.moved();
            ArmyState { move_timer: moved.move_timer.rewound(), ..moved }
        } else {
            kept
        }
    }

    /// Whether `slot` and `millis` can come out when the formation draws a
    /// slot to fire from and the time until it next does so: a slot of the
    /// formation, or none where it is empty, and a time from
    /// `MIN_FIRE_MILLIS` to under `MAX_FIRE_MILLIS`.
    pub open spec fn may_draw(self, slot: Option<int>, millis: u64) -> bool {
        &&& match slot {
            Some(i) => 0 <= i < self.invaders.len(),
            None => self.invaders.len() == 0,
        }
        &&& MIN_FIRE_MILLIS <= millis < MAX_FIRE_MILLIS
    }

    /// The formation after an attempt to fire from `slot`: a shot is added
    /// if the slot holds a member that is alive, and in any case the next
    /// attempt is `millis` milliseconds away.
    pub open spec fn fired(self, slot: Option<int>, millis: u64) -> ArmyState {
        ArmyState {
            shots: match slot {
                Some(i) => match self.shooter_at(i) {
                    Some(member) => self.shots.push(Self::shot_of(member)),
                    None => self.shots,
                },
                None => self.shots,
            },
            shot_timer: Timer::started(millis),
            ..self
        }
    }

    /// The formation after its dead shots are gone and the others have
    /// advanced by `delta` nanoseconds.
    pub open spec fn shots_flown(self, delta: u64) -> ArmyState {
        ArmyState { shots: shots_updated(live_shots(self.shots), delta), ..self }
    }

    /// The formation after `delta` nanoseconds, where `slot` and `millis`
    /// are what it draws if its fire timer fires.
    pub open spec fn updated(self, delta: u64, slot: Option<int>, millis: u64) -> ArmyState {
        let marched = self.marched(delta);
        let fired = if marched.shot_timer.ready {
            marched.fired(slot, millis)
        } else {
            marched
        };
        fired.shots_flown(delta)
    }

    /// The formation after one move. An empty formation stays as it is. A
    /// formation that touches the side turns round, moves one row down
    /// instead of sideways, and moves faster from then on. Any other, one
    /// without a living member too, moves one column in its direction. Dead
    /// members that are still in the formation move with the others. A
    /// member that the move would take off the playfield keeps its place.
    pub open spec fn moved(self) -> ArmyState {
        if self.invaders.len() == 0 {
            self
        } else if self.turns() {
            ArmyState {
                invaders: all_stepped(self.invaders, true, self.direction),
                direction: if self.direction == -1 {
                    1
                } else {
                    -1
                },
                move_timer: Timer::started(quickened(self.move_timer.millis() as int) as u64),
                ..self
            }
        } else {
            ArmyState { invaders: all_stepped(self.invaders, false, self.direction), ..self }
        }
    }
}

/// Two members cannot both be the first that `r` hits.
pub proof fn lemma_first_hit_unique(army: ArmyState, r: Rect, i: int)
    requires
        army.is_first_hit(r, i),
    ensures
        army.first_hit(r) == Some(i),
{
    let j = choose|j: int| army.is_first_hit(r, j);
    assert(army.is_first_hit(r, j));
    if j < i {
        assert(!army.hits(r, j));
    }
    if i < j {
        assert(!army.hits(r, i));
    }
}

/// In a formation that has not reached the player's rows, every living
/// member has room for the next move: only a dead member that is still in
/// the formation can stand where a move would take it off the playfield.
pub proof fn lemma_living_member_has_room(army: ArmyState, i: int)
    requires
        army.wf(),
        !army.invaded(),
        0 <= i < army.invaders.len(),
        army.invaders[i].is_alive,
    ensures
        has_room(army.invaders[i], army.turns(), army.direction),
        stepped(army.invaders[i], army.turns(), army.direction) == if army.turns() {
            army.invaders[i].lowered()
        } else {
            army.invaders[i].shifted(army.direction)
        },
{
    assert(army.invaders[i].in_field());
}

/// While the formation does not touch the side that it moves towards, each
/// move takes every living member, and every dead one that stays inside
/// the playfield, one column further in the formation's direction, and
/// leaves its row and everything else about it as it was: after `n` such
/// moves, each of them stands `n` columns further. No member changes its
/// row.
pub proof fn lemma_march_between_turns(army: ArmyState, n: nat)
    requires
        army.wf(),
        forall|k: nat| k < n ==> !(#[trigger] army.moved_times(k)).turns(),
    ensures
        army.moved_times(n).wf(),
        army.moved_times(n).direction == army.direction,
        army.moved_times(n).invaders.len() == army.invaders.len(),
        forall|i: int|
            0 <= i < army.invaders.len() ==> (#[trigger] army.moved_times(n).invaders[i]).y
                == army.invaders[i].y,
        forall|i: int|
            0 <= i < army.invaders.len() && (army.invaders[i].is_alive || room_for(
                army.invaders[i],
                army.direction,
                n,
            )) ==> {
                &&& (#[trigger] army.moved_times(n).invaders[i]).x == army.invaders[i].x + n
                    * army.direction
                &&& army.moved_times(n).invaders[i] == army.invaders[i].shifted(
                    n * army.direction,
                )
            },
    decreases n,
{
    let d = army.direction;
    if n > 0 {
        let m = (n - 1) as nat;
        lemma_march_between_turns(army, m);
        let before = army.moved_times(m);
        let after = army.moved_times(n);
        assert(!before.turns());
        assert(after == before.moved());
        assert(n * d == m * d + d && (d == 1 ==> m * d == m) && (d == -1 ==> m * d == -m))
            by (nonlinear_arith)
            requires
                n == m + 1,
        ;
        assert forall|i: int| 0 <= i < army.invaders.len() implies {
            &&& (#[trigger] after.invaders[i]).y == army.invaders[i].y
            &&& after.invaders[i].wf()
            &&& after.invaders[i].in_field()
            &&& (army.invaders[i].is_alive || room_for(army.invaders[i], d, n)) ==> {
                &&& after.invaders[i].x == army.invaders[i].x + n * d
                &&& after.invaders[i] == army.invaders[i].shifted(n * d)
            }
        } by {
            assert(before.invaders[i].wf() && before.invaders[i].in_field());
            assert(army.invaders[i].wf() && army.invaders[i].in_field());
            assert(after.invaders[i] == stepped(before.invaders[i], false, d));
            if army.invaders[i].is_alive {
                assert(before.invaders[i] == army.invaders[i].shifted(m * d));
                assert(before.invaders[i].is_alive);
                assert(has_room(before.invaders[i], false, d));
            } else if room_for(army.invaders[i], d, n) {
                assert(room_for(army.invaders[i], d, m));
                assert(before.invaders[i] == army.invaders[i].shifted(m * d));
                assert(has_room(before.invaders[i], false, d));
            }
        }
    } else {
        assert(n * d == 0) by (nonlinear_arith)
            requires
                n == 0,
        ;
        assert forall|i: int| 0 <= i < army.invaders.len() implies army.invaders[i]
            == army.invaders[i].shifted(0) by {}
    }
}

/// A formation that touches the side that it moves towards turns round at
/// its next move: every member that has a row below it inside the
/// playfield goes down one row, every member stays in its column, and the
/// time between two moves becomes 100 milliseconds shorter, but not
/// shorter than 250 milliseconds. While the formation has not reached the
/// player's rows, every living member has that row below it.
pub proof fn lemma_turn_goes_down_one_row(army: ArmyState)
    requires
        army.wf(),
        army.invaders.len() > 0,
        army.turns(),
    ensures
        army.moved().direction == -army.direction,
        army.moved().invaders.len() == army.invaders.len(),
        forall|i: int|
            0 <= i < army.invaders.len() ==> {
                &&& (#[trigger] army.moved().invaders[i]).x == army.invaders[i].x
                &&& army.moved().invaders[i] == if army.invaders[i].y + INVADER_HEIGHT + 1
                    <= NUM_ROWS {
                    army.invaders[i].lowered()
                } else {
                    army.invaders[i]
                }
                &&& (army.invaders[i].is_alive && !army.invaded()) || army.invaders[i].y
                    + INVADER_HEIGHT + 1 <= NUM_ROWS ==> army.moved().invaders[i].y
                    == army.invaders[i].y + 1
            },
        army.moved().move_timer.millis() == quickened(army.move_timer.millis() as int),
        quickened(army.move_timer.millis() as int) == if army.move_timer.millis() - 100 > 250 {
            army.move_timer.millis() - 100
        } else {
            250
        },
{
    let after = army.moved();
    assert forall|i: int| 0 <= i < army.invaders.len() implies {
        &&& (#[trigger] after.invaders[i]).x == army.invaders[i].x
        &&& after.invaders[i] == if army.invaders[i].y + INVADER_HEIGHT + 1 <= NUM_ROWS {
            army.invaders[i].lowered()
        } else {
            army.invaders[i]
        }
        &&& (army.invaders[i].is_alive && !army.invaded()) || army.invaders[i].y
            + INVADER_HEIGHT + 1 <= NUM_ROWS ==> after.invaders[i].y == army.invaders[i].y + 1
    } by {
        assert(army.invaders[i].in_field());
        assert(after.invaders[i] == stepped(army.invaders[i], true, army.direction));
        if army.invaders[i].is_alive && !army.invaded() {
            lemma_living_member_has_room(army, i);
        }
    }
    crate::timer::lemma_started_millis(quickened(army.move_timer.millis() as int) as u64);
}

/// The members that stay are exactly those that are not marked for removal:
/// none of those that stay is marked, and each member that is not marked
/// stays, behind as many members as stay of those before it.
pub proof fn lemma_purge_drops_the_marked(invaders: Seq<Invader>)
    ensures
        forall|j: int| 0 <= j < present(invaders).len() ==> !(#[trigger] present(invaders)[j]).remove,
        forall|i: int|
            0 <= i < invaders.len() && !(#[trigger] invaders[i]).remove ==> 0 <= rank(invaders, i)
                < present(invaders).len() && present(invaders)[rank(invaders, i)] == invaders[i],
        forall|i: int|
            0 <= i < invaders.len() && (#[trigger] invaders[i]).remove ==> present(invaders).len()
                < invaders.len(),
        forall|j: int|
            0 <= j < present(invaders).len() ==> invaders.contains(#[trigger] present(invaders)[j]),
        present(invaders).len() <= invaders.len(),
    decreases invaders.len(),
{
    if invaders.len() > 0 {
        let rest = invaders.drop_last();
        let last = invaders.len() - 1;
        let kept = present(invaders);
        let kept_rest = present(rest);
        lemma_purge_drops_the_marked(rest);
        assert(kept == if !invaders[last].remove {
            kept_rest.push(invaders[last])
        } else {
            kept_rest
        }) by {
            reveal(Seq::filter);
        }
        assert(invaders.take(last) == rest);
        assert forall|j: int| 0 <= j < kept.len() implies !(#[trigger] kept[j]).remove by {
            if j < kept_rest.len() {
                assert(kept[j] == kept_rest[j]);
            }
        }
        assert forall|i: int| 0 <= i < invaders.len() && !(#[trigger] invaders[i]).remove implies 0
            <= rank(invaders, i) < kept.len() && kept[rank(invaders, i)] == invaders[i] by {
            if i < last {
                assert(rest[i] == invaders[i]);
                assert(invaders.take(i) == rest.take(i));
                assert(rank(invaders, i) == rank(rest, i));
                assert(kept[rank(rest, i)] == kept_rest[rank(rest, i)]);
            } else {
                assert(rank(invaders, i) == kept_rest.len());
            }
        }
        assert forall|i: int| 0 <= i < invaders.len() && (#[trigger] invaders[i]).remove implies
            kept.len() < invaders.len() by {
            if i < last {
                assert(rest[i] == invaders[i]);
            }
        }
        assert forall|j: int| 0 <= j < kept.len() implies invaders.contains(#[trigger] kept[j]) by {
            if j < kept_rest.len() {
                assert(kept[j] == kept_rest[j]);
                let i = choose|i: int| 0 <= i < rest.len() && rest[i] == kept_rest[j];
                assert(invaders[i] == kept[j]);
            } else {
                assert(invaders[last] == kept[j]);
            }
        }
    } else {
        assert(present(invaders).len() == 0) by {
            reveal(Seq::filter);
        }
    }
}

/// A pass of the formation's update keeps exactly the members that were not
/// marked for removal, each in its place among them, and lets time pass for
/// each; where the formation also moves, that changes where its members
/// stand and nothing else about them.
pub proof fn lemma_marched_members(army: ArmyState, delta: u64, i: int)
    requires
        0 <= i < army.invaders.len(),
        !army.invaders[i].remove,
    ensures
        army.marched(delta).invaders.len() == present(army.invaders).len(),
        0 <= rank(army.invaders, i) < army.marched(delta).invaders.len(),
        ({
            let after = army.marched(delta).invaders[rank(army.invaders, i)];
            let aged = army.invaders[i].updated(delta);
            &&& after.is_alive == aged.is_alive
            &&& after.remove == aged.remove
            &&& after.anim_timer == aged.anim_timer
            &&& after.anim_idx == aged.anim_idx
            &&& after.anim == aged.anim
            &&& after.score == aged.score
        }),
{
    lemma_purge_drops_the_marked(army.invaders);
}

/// A member that is hit while alive does not leave the formation at once.
/// It stays, dead, through the next pass of the formation's update. If more
/// than the explosion's display time passes with that pass, the pass marks
/// it for removal, and the pass after it, however much time that takes,
/// drops it. If not, it is still there after the second pass, and marked by
/// then if both passes together took more than the display time.
pub proof fn lemma_hit_member_leaves_after_explosion(
    army: ArmyState,
    r: Rect,
    i: int,
    first: u64,
    second: u64,
)
    requires
        army.wf(),
        army.is_first_hit(r, i),
    ensures
        army.struck(r).invaders.len() == army.invaders.len(),
        army.struck(r).invaders[i] == army.invaders[i].killed(),
        ({
            let hit = army.struck(r);
            let place = rank(hit.invaders, i);
            let once = hit.marched(first);
            let twice = once.marched(second);
            let display = INVADER_ANIM_MILLIS * NANOS_PER_MILLI;
            &&& 0 <= place < once.invaders.len()
            &&& !once.invaders[place].is_alive
            &&& once.invaders[place].remove == (first > display)
            &&& first > display ==> twice.invaders.len() < once.invaders.len()
            &&& first <= display ==> {
                let again = rank(once.invaders, place);
                &&& 0 <= again < twice.invaders.len()
                &&& !twice.invaders[again].is_alive
                &&& twice.invaders[again].remove == (first + second > display)
            }
        }),
{
    lemma_first_hit_unique(army, r, i);
    let hit = army.struck(r);
    let place = rank(hit.invaders, i);
    let once = hit.marched(first);
    let dead = army.invaders[i].killed();
    assert(army.invaders[i].wf());
    let one = seq![first];
    let two = seq![first, second];
    assert(one.drop_last() =~= Seq::<u64>::empty());
    assert(two.drop_last() =~= one);
    assert(elapsed(Seq::<u64>::empty()) == 0);
    assert(elapsed(one) == first);
    assert(elapsed(two) == first + second);
    assert(dead.updated_through(Seq::<u64>::empty()) == dead);
    assert(dead.updated_through(one) == dead.updated(first));
    assert(dead.updated_through(two) == dead.updated(first).updated(second));
    lemma_explosion_lasts(army.invaders[i], one);
    lemma_explosion_lasts(army.invaders[i], two);
    lemma_marched_members(hit, first, i);
    lemma_purge_drops_the_marked(once.invaders);
    if !once.invaders[place].remove {
        lemma_marched_members(once, second, place);
    }
}

/// The members that a pass of the update keeps stand where they stood, and
/// every living member is kept: removing the marked ones and letting time
/// pass changes neither where the formation's edges are nor who is alive.
pub proof fn lemma_kept_stays_of(invaders: Seq<Invader>, delta: u64)
    requires
        members_in_field(invaders),
    ensures
        members_in_field(present(invaders)),
        members_in_field(members_updated(present(invaders), delta)),
        stays_of(invaders, members_updated(present(invaders), delta)),
{
    let kept = present(invaders);
    let after = members_updated(kept, delta);
    lemma_purge_drops_the_marked(invaders);
    assert forall|j: int| 0 <= j < kept.len() implies (#[trigger] kept[j]).wf()
        && kept[j].in_field() by {
        assert(invaders.contains(kept[j]));
        let i = choose|i: int| 0 <= i < invaders.len() && invaders[i] == kept[j];
        assert(invaders[i].wf() && invaders[i].in_field());
    }
    assert forall|j: int| 0 <= j < after.len() implies (#[trigger] after[j]).wf()
        && after[j].in_field() && has_like(invaders, after[j]) by {
        assert(invaders.contains(kept[j]));
        let i = choose|i: int| 0 <= i < invaders.len() && invaders[i] == kept[j];
        assert(invaders[i].wf() && invaders[i].in_field());
        assert(after[j] == kept[j].updated(delta));
        assert(stands_like(invaders[i], after[j]));
    }
    assert forall|i: int| 0 <= i < invaders.len() && (#[trigger] invaders[i]).is_alive implies has_like(
        after,
        invaders[i],
    ) by {
        assert(invaders[i].wf());
        let j = rank(invaders, i);
        assert(kept[j] == invaders[i]);
        assert(after[j] == kept[j].updated(delta));
        assert(stands_like(after[j], invaders[i]));
    }
}

/// Each member of what stays stands like a member of the formation.
proof fn lemma_stays_from(whole: Seq<Invader>, part: Seq<Invader>, j: int) -> (i: int)
    requires
        stays_of(whole, part),
        0 <= j < part.len(),
    ensures
        0 <= i < whole.len(),
        stands_like(whole[i], part[j]),
{
    assert(has_like(whole, part[j]));
    choose|i: int| 0 <= i < whole.len() && stands_like(#[trigger] whole[i], part[j])
}

/// Each living member of the formation has one that stays and stands like
/// it.
proof fn lemma_stays_alive(whole: Seq<Invader>, part: Seq<Invader>, i: int) -> (j: int)
    requires
        stays_of(whole, part),
        0 <= i < whole.len(),
        whole[i].is_alive,
    ensures
        0 <= j < part.len(),
        stands_like(part[j], whole[i]),
{
    assert(has_like(part, whole[i]));
    choose|j: int| 0 <= j < part.len() && stands_like(#[trigger] part[j], whole[i])
}

/// What stays of a formation has reached the bottom exactly if the
/// formation has.
pub proof fn lemma_stays_of_keeps_bottom(whole: Seq<Invader>, part: Seq<Invader>)
    requires
        stays_of(whole, part),
    ensures
        reached_bottom(part) == reached_bottom(whole),
{
    if reached_bottom(whole) {
        let i = choose|i: int|
            0 <= i < whole.len() && (#[trigger] whole[i]).is_alive && whole[i].y + INVADER_HEIGHT
                >= NUM_ROWS - 1;
        let j = lemma_stays_alive(whole, part, i);
        assert(part[j].is_alive && part[j].y + INVADER_HEIGHT >= NUM_ROWS - 1);
    }
    if reached_bottom(part) {
        let j = choose|j: int|
            0 <= j < part.len() && (#[trigger] part[j]).is_alive && part[j].y + INVADER_HEIGHT
                >= NUM_ROWS - 1;
        let i = lemma_stays_from(whole, part, j);
        assert(whole[i].is_alive && whole[i].y + INVADER_HEIGHT >= NUM_ROWS - 1);
    }
}

/// Drops the members that are marked for removal and keeps the others in
/// their order.
pub fn retain_present(invaders: &mut Vec<Invader>)
    ensures
        final(invaders)@ == present(old(invaders)@),
{
    let mut all: Vec<Invader> = Vec::new();
    core::mem::swap(&mut all, invaders);
    let ghost before = all@;
    assert(present(before.take(0)) =~= Seq::<Invader>::empty()) by {
        reveal(Seq::filter);
    }
    for invader in it: all
        invariant
            it.seq() == before,
            invaders@ == present(before.take(it.index() as int)),
    {
        proof {
            let n = it.index() as int;
            reveal(Seq::filter);
            assert(before.take(n + 1).drop_last() =~= before.take(n));
            assert(before.take(n + 1).last() == invader);
        }
        if !invader.removable() {
            invaders.push(invader);
        }
    }
    assert(before.take(before.len() as int) =~= before);
}

/// The least `x` among the members that are alive, if any is.
fn leftmost(invaders: &Vec<Invader>) -> (min_x: Option<usize>)
    ensures
        min_x is None ==> forall|i: int|
            0 <= i < invaders@.len() ==> !(#[trigger] invaders@[i]).is_alive,
        min_x matches Some(least) ==> {
            &&& exists|i: int|
                0 <= i < invaders@.len() && (#[trigger] invaders@[i]).is_alive && invaders@[i].x
                    == least
            &&& forall|i: int|
                0 <= i < invaders@.len() && (#[trigger] invaders@[i]).is_alive ==> invaders@[i].x
                    >= least
        },
{
    let mut min_x: Option<usize> = None;
    let mut i: usize = 0;
    while i < invaders.len()
        invariant
            i <= invaders@.len(),
            min_x is None ==> forall|k: int| 0 <= k < i ==> !(#[trigger] invaders@[k]).is_alive,
            min_x matches Some(least) ==> {
                &&& exists|k: int|
                    0 <= k < i && (#[trigger] invaders@[k]).is_alive && invaders@[k].x == least
                &&& forall|k: int|
                    0 <= k < i && (#[trigger] invaders@[k]).is_alive ==> invaders@[k].x >= least
            },
        decreases invaders@.len() - i,
    {
        if invaders[i].is_alive {
            let x = invaders[i].get_x();
            min_x = match min_x {
                Some(least) => if x < least {
                    Some(x)
                } else {
                    Some(least)
                },
                None => Some(x),
            };
        }
        i += 1;
    }
    min_x
}

/// The greatest `x` among the members that are alive, if any is.
fn rightmost(invaders: &Vec<Invader>) -> (max_x: Option<usize>)
    ensures
        max_x is None ==> forall|i: int|
            0 <= i < invaders@.len() ==> !(#[trigger] invaders@[i]).is_alive,
        max_x matches Some(most) ==> {
            &&& exists|i: int|
                0 <= i < invaders@.len() && (#[trigger] invaders@[i]).is_alive && invaders@[i].x
                    == most
            &&& forall|i: int|
                0 <= i < invaders@.len() && (#[trigger] invaders@[i]).is_alive ==> invaders@[i].x
                    <= most
        },
{
    let mut max_x: Option<usize> = None;
    let mut i: usize = 0;
    while i < invaders.len()
        invariant
            i <= invaders@.len(),
            max_x is None ==> forall|k: int| 0 <= k < i ==> !(#[trigger] invaders@[k]).is_alive,
            max_x matches Some(most) ==> {
                &&& exists|k: int|
                    0 <= k < i && (#[trigger] invaders@[k]).is_alive && invaders@[k].x == most
                &&& forall|k: int|
                    0 <= k < i && (#[trigger] invaders@[k]).is_alive ==> invaders@[k].x <= most
            },
        decreases invaders@.len() - i,
    {
        if invaders[i].is_alive {
            let x = invaders[i].get_x();
            max_x = match max_x {
                Some(most) => if x > most {
                    Some(x)
                } else {
                    Some(most)
                },
                None => Some(x),
            };
        }
        i += 1;
    }
    max_x
}

impl Army {
    /// A formation of `ARMY_COLUMNS` by `ARMY_ROWS` invaders, column by
    /// column from the left and in each column from the top, moving right.
    pub fn new(level: u64) -> (army: Army)
        ensures
            army@.is_new(level as int),
            army@.wf(),
            !army@.invaded(),
    {
        let mut invaders: Vec<Invader> = Vec::new();
        let mut i: usize = 0;
        while i < ARMY_COLUMNS
            invariant
                i <= ARMY_COLUMNS,
                invaders@.len() == i * ARMY_ROWS,
                forall|k: int|
                    0 <= k < invaders@.len() ==> (#[trigger] invaders@[k]).is_fresh(
                        9 + 7 * (k / ARMY_ROWS as int),
                        2 + 3 * (k % ARMY_ROWS as int),
                    ) && invaders@[k].wf(),
            decreases ARMY_COLUMNS - i,
        {
            let mut j: usize = 0;
            while j < ARMY_ROWS
                invariant
                    i < ARMY_COLUMNS,
                    j <= ARMY_ROWS,
                    invaders@.len() == i * ARMY_ROWS + j,
                    forall|k: int|
                        0 <= k < invaders@.len() ==> (#[trigger] invaders@[k]).is_fresh(
                            9 + 7 * (k / ARMY_ROWS as int),
                            2 + 3 * (k % ARMY_ROWS as int),
                        ) && invaders@[k].wf(),
                decreases ARMY_ROWS - j,
            {
                invaders.push(Invader::new(9 + i * 7, 2 + j * 3));
                j += 1;
            }
            i += 1;
        }
        let move_millis: u64 = if level >= 9 {
            MIN_MOVE_MILLIS
        } else {
            1100 - level * 100
        };
        Army {
            invaders,
            shots: Vec::new(),
            direction: 1,
            move_timer: Timer::from_millis(move_millis),
            shot_timer: Timer::from_millis(FIRST_FIRE_MILLIS),
        }
    }

    /// Whether the formation turns at its next move: whether the leading
    /// edge of its living members touches the side that it moves towards.
    pub fn turns(&self) -> (turns: bool)
        ensures
            turns == self@.turns(),
    {
        if self.direction == -1 {
            match leftmost(&self.invaders) {
                Some(min_x) => min_x == 0,
                None => false,
            }
        } else {
            match rightmost(&self.invaders) {
                Some(max_x) => max_x == NUM_COLS - 1 - INVADER_WIDTH,
                None => false,
            }
        }
    }

    /// Moves the formation once.
    pub fn move_army(&mut self)
        requires
            old(self)@.wf(),
        ensures
            final(self)@ == old(self)@.moved(),
            final(self)@.wf(),
    {
        if self.invaders.is_empty() {
            return ;
        }
        let downwards = self.turns();
        let heading = self.direction;

        if downwards {
            if self.direction == -1 {
                self.direction = 1;
            } else {
                self.direction = -1;
            }
            let millis = self.move_timer.duration_millis();
            let new_duration = if millis > MIN_MOVE_MILLIS + MOVE_SPEEDUP_MILLIS {
                millis - MOVE_SPEEDUP_MILLIS
            } else {
                MIN_MOVE_MILLIS
            };
            self.move_timer = Timer::from_millis(new_duration);
        }
        let mut i: usize = 0;
        while i < self.invaders.len()
            invariant
                i <= self.invaders@.len(),
                self.invaders@.len() == old(self).invaders@.len(),
                members_in_field(old(self).invaders@),
                downwards == old(self)@.turns(),
                heading == old(self).direction,
                heading == 1 || heading == -1,
                self.direction == old(self)@.moved().direction,
                self.shots == old(self).shots,
                self.move_timer == old(self)@.moved().move_timer,
                self.shot_timer == old(self).shot_timer,
                forall|k: int|
                    0 <= k < i ==> #[trigger] self.invaders@[k] == stepped(
                        old(self).invaders@[k],
                        downwards,
                        heading as int,
                    ),
                forall|k: int|
                    i <= k < self.invaders@.len() ==> #[trigger] self.invaders@[k] == old(
                        self,
                    ).invaders@[k],
            decreases self.invaders@.len() - i,
        {
            assert(old(self).invaders@[i as int].in_field());
            if downwards {
                if self.invaders[i].get_y() < NUM_ROWS - INVADER_HEIGHT {
                    self.invaders[i].move_down();
                }
            } else if heading == -1 {
                if self.invaders[i].get_x() > 0 {
                    self.invaders[i].move_x(heading);
                }
            } else {
                if self.invaders[i].get_x() < NUM_COLS - INVADER_WIDTH {
                    self.invaders[i].move_x(heading);
                }
            }
            i += 1;
        }
        assert(self@.invaders =~= old(self)@.moved().invaders);
        assert forall|k: int| 0 <= k < self@.invaders.len() implies (#[trigger] self@.invaders[k]).wf()
            && self@.invaders[k].in_field() by {
            assert(old(self)@.invaders[k].wf() && old(self)@.invaders[k].in_field());
            assert(self@.invaders[k] == stepped(
                old(self)@.invaders[k],
                downwards,
                heading as int,
            ));
        }
    }

    /// Tests `other` against the members in their order. The first one that
    /// is alive and collides with it is killed, and its score is returned.
    pub fn check_collision<T: Transform>(&mut self, other: &T) -> (score: Option<usize>)
        ensures
            score == old(self)@.prize(other.bounds()),
            final(self)@ == old(self)@.struck(other.bounds()),
    {
        let r = other.rect();
        let mut i: usize = 0;
        while i < self.invaders.len()
            invariant
                i <= self.invaders@.len(),
                r == other.bounds(),
                *self == *old(self),
                forall|j: int| 0 <= j < i ==> !self@.hits(r, j),
            decreases self.invaders@.len() - i,
        {
            if self.invaders[i].is_alive && self.invaders[i].check_collision(&r) {
                proof {
                    assert(old(self)@.is_first_hit(r, i as int));
                    lemma_first_hit_unique(old(self)@, r, i as int);
                }
                self.invaders[i].kill();
                assert(self@.invaders =~= old(self)@.invaders.update(
                    i as int,
                    old(self)@.invaders[i as int].killed(),
                ));
                return Some(self.invaders[i].score);
            }
            i += 1;
        }
        assert(old(self)@.first_hit(r) is None);
        None
    }

    /// The member in slot `index`, if it is alive.
    pub fn shooter_at(&self, index: usize) -> (shooter: Option<&Invader>)
        requires
            index < self@.invaders.len(),
        ensures
            shooter == match self@.shooter_at(index as int) {
                Some(member) => Some(&member),
                None => None,
            },
    {
        let invader = &self.invaders[index];
        if invader.is_alive {
            return Some(invader);
        }
        None
    }

    /// A slot of the formation picked at random, or none where the
    /// formation is empty.
    pub fn pick_slot(&self) -> (slot: Option<usize>)
        ensures
            self@.invaders.len() == 0 ==> slot is None,
            self@.invaders.len() > 0 ==> slot is Some && slot->0 < self@.invaders.len(),
    {
        if self.invaders.is_empty() {
            return None;
        }
        let index = random_between(0, self.invaders.len() as u64);
        Some(index as usize)
    }

    /// An attempt to fire from `slot`: if it holds a member that is alive,
    /// that member fires. Whether or not a shot was fired, the next attempt
    /// is `millis` milliseconds away.
    pub fn fire(&mut self, slot: Option<usize>, millis: u64)
        requires
            slot matches Some(i) ==> i < old(self)@.invaders.len() && (old(
                self,
            )@.invaders[i as int].is_alive ==> old(self)@.invaders[i as int].x + 2 <= usize::MAX
                && old(self)@.invaders[i as int].y + 2 <= usize::MAX),
            millis <= MAX_MILLIS,
        ensures
            final(self)@ == old(self)@.fired(
                match slot {
                    Some(i) => Some(i as int),
                    None => None,
                },
                millis,
            ),
    {
        if let Some(index) = slot {
            if let Some(invader) = self.shooter_at(index) {
                let shot = Shot::new(invader.get_x() + 2, invader.get_y() + 2, Direction::Down);
                self.shots.push(shot);
            }
        }
        self.shot_timer = Timer::from_millis(millis);
        self.shot_timer.reset();
    }

    /// A member picked at random from all slots of the formation; none where
    /// the slot that was picked holds a dead member, or the formation is
    /// empty.
    pub fn get_shooter(&self) -> (shooter: Option<&Invader>)
        ensures
            self@.invaders.len() == 0 ==> shooter is None,
            self@.invaders.len() > 0 ==> exists|i: int|
                0 <= i < self@.invaders.len() && shooter == match #[trigger] self@.shooter_at(i) {
                    Some(member) => Some(&member),
                    None => None,
                },
    {
        match self.pick_slot() {
            None => None,
            Some(index) => self.shooter_at(index),
        }
    }

    /// Whether no member is left: the level is cleared.
    pub fn all_dead(&self) -> (cleared: bool)
        ensures
            cleared == (self@.invaders.len() == 0),
    {
        self.invaders.is_empty()
    }

    /// Whether the formation has reached the player's rows: the lower edge
    /// of a member that is alive is on the second row from the bottom or
    /// below it. The game is then lost.
    pub fn invaded(&self) -> (invaded: bool)
        ensures
            invaded == self@.invaded(),
    {
        let mut i: usize = 0;
        while i < self.invaders.len()
            invariant
                i <= self.invaders@.len(),
                forall|k: int|
                    0 <= k < i && (#[trigger] self@.invaders[k]).is_alive ==> self@.invaders[k].y
                        + INVADER_HEIGHT < NUM_ROWS - 1,
            decreases self.invaders@.len() - i,
        {
            if self.invaders[i].is_alive && self.invaders[i].get_y() >= NUM_ROWS - 1
                - self.invaders[i].get_height() {
                return true;
            }
            i += 1;
        }
        false
    }
}

impl Updatable for Army {
    /// The formation is in order and has not reached the player's rows, so
    /// that a shot fired after the move starts inside the playfield.
    open spec fn updatable(&self) -> bool {
        self@.wf() && !self@.invaded()
    }

    open spec fn update_yields(&self, delta: u64, after: &Army) -> bool {
        exists|slot: Option<int>, millis: u64|
            self@.marched(delta).may_draw(slot, millis) && after@ == #[trigger] self@.updated(
                delta,
                slot,
                millis,
            )
    }

    fn update(&mut self, delta: u64)
        ensures
            final(self)@.wf(),
    {
        self.move_timer.update(delta);
        self.shot_timer.update(delta);

        retain_present(&mut self.invaders);
        proof {
            lemma_kept_stays_of(old(self)@.invaders, delta);
            lemma_stays_of_keeps_bottom(
                old(self)@.invaders,
                members_updated(present(old(self)@.invaders), delta),
            );
        }
        update_all(&mut self.invaders, delta);
        assert(self@.invaders =~= members_updated(present(old(self)@.invaders), delta));
        let ghost kept = self@;
        assert(!reached_bottom(kept.invaders));

        if self.move_timer.ready {
            self.move_army();
            self.move_timer.reset();
        }
        assert(self@ == old(self)@.marched(delta));
        assert forall|k: int| 0 <= k < self@.invaders.len() && (#[trigger] self@.invaders[k]).is_alive implies self@.invaders[k].y
            + INVADER_HEIGHT < NUM_ROWS by {
            assert(kept.invaders[k].is_alive == self@.invaders[k].is_alive);
            assert(kept.invaders[k].y + INVADER_HEIGHT < NUM_ROWS - 1);
        }

        let ghost mut slot: Option<int> = if self@.invaders.len() == 0 {
            None
        } else {
            Some(0)
        };
        let ghost mut millis: u64 = MIN_FIRE_MILLIS;
        if self.shot_timer.ready {
            let picked = self.pick_slot();
            let next = random_between(MIN_FIRE_MILLIS, MAX_FIRE_MILLIS);
            proof {
                slot =
                match picked {
                    Some(i) => Some(i as int),
                    None => None,
                };
                millis = next;
            }
            self.fire(picked, next);
        }
        proof {
            lemma_shots_stay_in_field(self@.shots, delta);
            lemma_shots_stay_in_field(live_shots(self@.shots), delta);
        }
        retain_live_shots(&mut self.shots);
        update_shots(&mut self.shots, delta);
        assert(old(self)@.marched(delta).may_draw(slot, millis));
        assert(self@ == old(self)@.updated(delta, slot, millis));
    }
}

impl Drawable for Army {
    open spec fn fits(&self, cols: int, rows: int) -> bool {
        self@.fits(cols, rows)
    }

    open spec fn drawn(&self, g: Seq<Seq<char>>) -> Seq<Seq<char>> {
        self@.drawn(g)
    }

    fn draw(&self, frame: &mut Frame) {
        draw_all(&self.invaders, frame);
        draw_all(&self.shots, frame);
    }
}

/// `rand::Rng::gen_range` on the generator of the current thread, for the
/// half-open range from `low` to `high`: some number in that range. Which
/// one is left open.
#[verifier::external_body]
fn random_between(low: u64, high: u64) -> (n: u64)
    requires
        low < high,
    ensures
        low <= n < high,
{
    rand::thread_rng().gen_range(low..high)
}

} // verus!
