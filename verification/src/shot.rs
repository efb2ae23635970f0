//! A single shot in flight, fired by the player or by the formation.

use crate::frame::{put, update_all, with_cell, Drawable, Frame, Rect, Transform, Updatable};
use crate::timer::Timer;
use crate::{NUM_COLS, NUM_ROWS};
use vstd::prelude::*;

verus! {

/// Milliseconds between two steps of a shot.
pub const SHOT_STEP_MILLIS: u64 = 75;

/// The way a shot travels.
#[derive(Clone, Copy, Debug, PartialEq, Eq)]
pub enum Direction {
    Up,
    Down,
}

/// A shot: one cell wide and high, moving one row per step of its timer.
pub struct Shot {
    pub x: usize,
    pub y: usize,
    pub timer: Timer,
    pub direction: Direction,
    pub exploding: bool,
}

impl Shot {
    /// A shot is dead once it has reached the top or the bottom row, or once
    /// a collision has marked it as exploding.
    pub open spec fn is_dead(self) -> bool {
        self.y == 0 || self.y == NUM_ROWS - 1 || self.exploding
    }

    /// The shot one row further along its direction, held at the edge rows.
    pub open spec fn stepped(self) -> Shot {
        match self.direction {
            Direction::Up => Shot {
                y: if self.y > 0 {
                    (self.y - 1) as usize
                } else {
                    self.y
                },
                ..self
            },
            Direction::Down => Shot {
                y: if self.y < NUM_ROWS - 1 {
                    (self.y + 1) as usize
                } else {
                    self.y
                },
                ..self
            },
        }
    }

    /// The shot after `delta` nanoseconds: it moves one row when its timer
    /// fires, and the timer starts over.
    pub open spec fn updated(self, delta: u64) -> Shot {
        let timer = self.timer.advanced(delta);
        if timer.ready {
            Shot { timer: timer.rewound(), ..self.stepped() }
        } else {
            Shot { timer, ..self }
        }
    }

    /// The character that shows the shot.
    pub open spec fn glyph(self) -> char {
        match self.direction {
            Direction::Up => '↑',
            Direction::Down => '↓',
        }
    }

    pub fn new(x: usize, y: usize, direction: Direction) -> (shot: Shot)
        ensures
            shot == (Shot {
                x,
                y,
                timer: Timer::started(SHOT_STEP_MILLIS),
                direction,
                exploding: false,
            }),
    {
        Shot { x, y, timer: Timer::from_millis(SHOT_STEP_MILLIS), direction, exploding: false }
    }

    pub fn explode(&mut self)
        ensures
            *final(self) == (Shot { exploding: true, ..*old(self) }),
    {
        self.exploding = true;
    }

    pub fn dead(&self) -> (dead: bool)
        ensures
            dead == self.is_dead(),
    {
        self.y == 0 || self.y == NUM_ROWS - 1 || self.exploding
    }

    fn move_up(&mut self)
        ensures
            *final(self) == (Shot {
                y: if old(self).y > 0 {
                    (old(self).y - 1) as usize
                } else {
                    old(self).y
                },
                ..*old(self)
            }),
    {
        if self.y > 0 {
            self.y -= 1;
        }
    }

    fn move_down(&mut self)
        ensures
            *final(self) == (Shot {
                y: if old(self).y < NUM_ROWS - 1 {
                    (old(self).y + 1) as usize
                } else {
                    old(self).y
                },
                ..*old(self)
            }),
    {
        if self.y < NUM_ROWS - 1 {
            self.y += 1;
        }
    }
}

/// The shots of `shots` that are not dead, in their order.
pub open spec fn live_shots(shots: Seq<Shot>) -> Seq<Shot> {
    shots.filter(|shot: Shot| !shot.is_dead())
}

/// Every shot of `shots` after `delta` nanoseconds.
pub open spec fn shots_updated(shots: Seq<Shot>, delta: u64) -> Seq<Shot> {
    shots.map_values(|shot: Shot| shot.updated(delta))
}

/// Every shot stands inside the playfield.
pub open spec fn shots_in_field(shots: Seq<Shot>) -> bool {
    forall|i: int|
        0 <= i < shots.len() ==> (#[trigger] shots[i]).x < NUM_COLS && shots[i].y < NUM_ROWS
}

/// Dropping dead shots and letting time pass leaves every shot inside the
/// playfield.
pub proof fn lemma_shots_stay_in_field(shots: Seq<Shot>, delta: u64)
    requires
        shots_in_field(shots),
    ensures
        shots_in_field(live_shots(shots)),
        shots_in_field(shots_updated(shots, delta)),
    decreases shots.len(),
{
    reveal(Seq::filter);
    if shots.len() > 0 {
        lemma_shots_stay_in_field(shots.drop_last(), delta);
        assert(shots[shots.len() - 1].x < NUM_COLS);
    }
    let after = shots_updated(shots, delta);
    assert forall|i: int| 0 <= i < after.len() implies (#[trigger] after[i]).x < NUM_COLS
        && after[i].y < NUM_ROWS by {
        assert(shots[i].x < NUM_COLS && shots[i].y < NUM_ROWS);
        assert(after[i] == shots[i].updated(delta));
    }
}

/// Drops the dead shots and keeps the others in their order.
pub fn retain_live_shots(shots: &mut Vec<Shot>)
    ensures
        final(shots)@ == live_shots(old(shots)@),
{
    let mut all: Vec<Shot> = Vec::new();
    core::mem::swap(&mut all, shots);
    let ghost before = all@;
    assert(live_shots(before.take(0)) =~= Seq::<Shot>::empty()) by {
        reveal(Seq::filter);
    }
    for shot in it: all
        invariant
            it.seq() == before,
            shots@ == live_shots(before.take(it.index() as int)),
    {
        proof {
            let n = it.index() as int;
            reveal(Seq::filter);
            assert(before.take(n + 1).drop_last() =~= before.take(n));
            assert(before.take(n + 1).last() == shot);
        }
        if !shot.dead() {
            shots.push(shot);
        }
    }
    assert(before.take(before.len() as int) =~= before);
}

/// Advances every shot by `delta` nanoseconds.
pub fn update_shots(shots: &mut Vec<Shot>, delta: u64)
    ensures
        final(shots)@ == shots_updated(old(shots)@, delta),
{
    update_all(shots, delta);
    assert(shots@ =~= shots_updated(old(shots)@, delta));
}

impl Transform for Shot {
    open spec fn bounds(&self) -> Rect {
        Rect { x: self.x, y: self.y, width: 1, height: 1 }
    }

    fn get_x(&self) -> (x: usize) {
        self.x
    }

    fn get_y(&self) -> (y: usize) {
        self.y
    }

    fn get_width(&self) -> (width: usize) {
        1
    }

    fn get_height(&self) -> (height: usize) {
        1
    }
}

impl Updatable for Shot {
    open spec fn updatable(&self) -> bool {
        true
    }

    open spec fn update_yields(&self, delta: u64, after: &Shot) -> bool {
        *after == self.updated(delta)
    }

    fn update(&mut self, delta: u64) {
        self.timer.update(delta);
        if self.timer.ready {
            match self.direction {
                Direction::Up => self.move_up(),
                Direction::Down => self.move_down(),
            }
            self.timer.reset();
        }
    }
}

impl Drawable for Shot {
    open spec fn fits(&self, cols: int, rows: int) -> bool {
        self.x < cols && self.y < rows
    }

    open spec fn drawn(&self, g: Seq<Seq<char>>) -> Seq<Seq<char>> {
        with_cell(g, self.x as int, self.y as int, self.glyph())
    }

    fn draw(&self, frame: &mut Frame) {
        let glyph = match self.direction {
            Direction::Up => '↑',
            Direction::Down => '↓',
        };
        put(frame, self.x, self.y, glyph);
    }
}

} // verus!
