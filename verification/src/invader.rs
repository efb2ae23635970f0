//! One member of the formation.

use crate::frame::{
    boxed, boxed_from, draw_sprite, put, stamped, with_cell, Drawable, Frame, Rect, Transform,
    Updatable,
};
use crate::timer::{elapsed, lemma_fires_when_time_is_up, Timer, NANOS_PER_MILLI};
use crate::{NUM_COLS, NUM_ROWS};
use vstd::prelude::*;

verus! {

/// Width of an invader in columns.
pub const INVADER_WIDTH: usize = 5;

/// Height of an invader in rows.
pub const INVADER_HEIGHT: usize = 2;

/// Milliseconds between two animation frames, and the time for which the
/// explosion of a dead invader is shown.
pub const INVADER_ANIM_MILLIS: u64 = 500;

/// The most that an invader is worth.
pub const TOP_SCORE: usize = 40;

/// The rows on which an invader can be created.
pub open spec fn is_band_row(y: int) -> bool {
    y == 2 || y == 5 || y == 8 || y == 11 || y == 14
}

/// What an invader created on row `y` is worth; rows further up are worth
/// more.
pub open spec fn band_score(y: int) -> int {
    if y == 2 {
        40
    } else if y == 5 {
        30
    } else if y == 8 {
        20
    } else if y == 11 {
        10
    } else {
        5
    }
}

/// The two animation frames of an invader created on row `y`.
pub open spec fn band_sprites(y: int) -> Seq<&'static str> {
    if y == 2 {
        seq![" /^\\ \n|^|^|", " /^\\ \n ||| "]
    } else if y == 5 {
        seq!["|_☺_ \n | ||", " _☺_|\n|| |"]
    } else if y == 8 {
        seq!["~T~T~\n /~\\ ", "/P^P\\\n |~| "]
    } else if y == 11 {
        seq!["/~~~\\\n\\-V-/", "/~~~\\\n /V\\ "]
    } else {
        seq!["/___\\\n / \\ ", "\\___/\n \\V/ "]
    }
}

/// Every animation frame of every band fits the invader's rectangle.
pub proof fn lemma_band_sprites_boxed(y: int)
    ensures
        band_sprites(y).len() == 2,
        boxed(band_sprites(y)[0]@, INVADER_WIDTH as int, INVADER_HEIGHT as int),
        boxed(band_sprites(y)[1]@, INVADER_WIDTH as int, INVADER_HEIGHT as int),
{
    reveal_with_fuel(boxed_from, 13);
    reveal_strlit(" /^\\ \n|^|^|");
    reveal_strlit(" /^\\ \n ||| ");
    reveal_strlit("|_☺_ \n | ||");
    reveal_strlit(" _☺_|\n|| |");
    reveal_strlit("~T~T~\n /~\\ ");
    reveal_strlit("/P^P\\\n |~| ");
    reveal_strlit("/~~~\\\n\\-V-/");
    reveal_strlit("/~~~\\\n /V\\ ");
    reveal_strlit("/___\\\n / \\ ");
    reveal_strlit("\\___/\n \\V/ ");
}

/// An invader that is hit while alive is dead from then on, and is marked
/// for removal exactly when more than the explosion's display time has
/// passed since the hit, over any number of updates. Until then it shows
/// the explosion.
pub proof fn lemma_explosion_lasts(member: Invader, deltas: Seq<u64>)
    requires
        member.wf(),
        member.is_alive,
    ensures
        !member.killed().remove,
        !member.killed().updated_through(deltas).is_alive,
        member.killed().updated_through(deltas).remove <==> elapsed(deltas) > INVADER_ANIM_MILLIS
            * NANOS_PER_MILLI,
        !member.killed().updated_through(deltas).remove ==> member.killed().updated_through(
            deltas,
        ).shows_explosion(),
        !member.killed().updated_through(deltas).remove ==> member.killed().updated_through(
            deltas,
        ).anim_timer == Timer::started(INVADER_ANIM_MILLIS).advanced_through(deltas),
    decreases deltas.len(),
{
    let start = Timer::started(INVADER_ANIM_MILLIS);
    lemma_fires_when_time_is_up(start, deltas);
    if deltas.len() > 0 {
        lemma_explosion_lasts(member, deltas.drop_last());
        lemma_fires_when_time_is_up(start, deltas.drop_last());
    }
}

/// An invader. It is alive until it is hit; a dead invader shows an
/// explosion until its animation timer fires, which marks it for removal.
pub struct Invader {
    pub is_alive: bool,
    pub x: usize,
    pub y: usize,
    pub anim: Vec<&'static str>,
    pub anim_idx: usize,
    pub anim_timer: Timer,
    pub remove: bool,
    pub score: usize,
}

impl Invader {
    /// The animation is in order: there is a current frame, every frame fits
    /// the invader's rectangle, only a dead invader is marked for removal,
    /// and the invader is worth no more than `TOP_SCORE`.
    pub open spec fn wf(self) -> bool {
        &&& self.score <= TOP_SCORE
        &&& self.anim_idx < self.anim@.len()
        &&& forall|i: int|
            0 <= i < self.anim@.len() ==> boxed(
                (#[trigger] self.anim@[i])@,
                INVADER_WIDTH as int,
                INVADER_HEIGHT as int,
            )
        &&& self.is_alive ==> !self.remove
    }

    /// The invader as it is created at column `x`, row `y`: alive, showing
    /// the first animation frame of its row's band, worth that band's score.
    pub open spec fn is_fresh(self, x: int, y: int) -> bool {
        &&& self.is_alive
        &&& self.x == x
        &&& self.y == y
        &&& self.anim@ == band_sprites(y)
        &&& self.anim_idx == 0
        &&& self.anim_timer == Timer::started(INVADER_ANIM_MILLIS)
        &&& !self.remove
        &&& self.score == band_score(y)
    }

    /// The invader stands inside the playfield, and while it is alive it
    /// leaves the last column free.
    pub open spec fn in_field(self) -> bool {
        &&& self.x + INVADER_WIDTH <= NUM_COLS
        &&& self.y + INVADER_HEIGHT <= NUM_ROWS
        &&& self.is_alive ==> self.x + INVADER_WIDTH <= NUM_COLS - 1
    }

    /// The invader one row further down.
    pub open spec fn lowered(self) -> Invader {
        Invader { y: (self.y + 1) as usize, ..self }
    }

    /// The invader `direction` columns further to the right.
    pub open spec fn shifted(self, direction: int) -> Invader {
        Invader { x: (self.x + direction) as usize, ..self }
    }

    /// The invader after a hit: dead, with the explosion's display time
    /// ahead of it.
    pub open spec fn killed(self) -> Invader {
        Invader { is_alive: false, anim_timer: Timer::started(INVADER_ANIM_MILLIS), ..self }
    }

    /// The invader after `delta` nanoseconds. When the animation timer fires,
    /// the next animation frame is shown, a dead invader is marked for
    /// removal, and the timer starts over.
    pub open spec fn updated(self, delta: u64) -> Invader {
        let timer = self.anim_timer.advanced(delta);
        if timer.ready {
            Invader {
                remove: self.remove || !self.is_alive,
                anim_idx: ((self.anim_idx + 1) % (self.anim@.len() as int)) as usize,
                anim_timer: timer.rewound(),
                ..self
            }
        } else {
            Invader { anim_timer: timer, ..self }
        }
    }

    /// The invader after each of `deltas` has passed, one after another.
    pub open spec fn updated_through(self, deltas: Seq<u64>) -> Invader
        decreases deltas.len(),
    {
        if deltas.len() == 0 {
            self
        } else {
            self.updated_through(deltas.drop_last()).updated(deltas.last())
        }
    }

    /// Whether the animation can advance: there is a current frame.
    pub open spec fn can_animate(self) -> bool {
        self.anim_idx < self.anim@.len()
    }

    /// Whether the current animation frame is there and fits the invader's
    /// rectangle.
    pub open spec fn has_sprite(self) -> bool {
        &&& self.anim_idx < self.anim@.len()
        &&& boxed(self.anim@[self.anim_idx as int]@, INVADER_WIDTH as int, INVADER_HEIGHT as int)
    }

    /// Whether the invader is drawn as an explosion.
    pub open spec fn shows_explosion(self) -> bool {
        !self.is_alive && !self.anim_timer.ready
    }

    /// The grid with the four strokes of an explosion at the invader's place.
    pub open spec fn explosion_drawn(self, g: Seq<Seq<char>>) -> Seq<Seq<char>> {
        let g1 = with_cell(g, self.x + 1, self.y as int, '\\');
        let g2 = with_cell(g1, self.x + 3, self.y as int, '/');
        let g3 = with_cell(g2, self.x + 1, self.y + 1, '/');
        with_cell(g3, self.x + 3, self.y + 1, '\\')
    }

    pub fn new(x: usize, y: usize) -> (invader: Invader)
        requires
            is_band_row(y as int),
        ensures
            invader.is_fresh(x as int, y as int),
            invader.wf(),
    {
        let anim: Vec<&'static str> = if y == 2 {
            vec![" /^\\ \n|^|^|", " /^\\ \n ||| "]
        } else if y == 5 {
            vec!["|_☺_ \n | ||", " _☺_|\n|| |"]
        } else if y == 8 {
            vec!["~T~T~\n /~\\ ", "/P^P\\\n |~| "]
        } else if y == 11 {
            vec!["/~~~\\\n\\-V-/", "/~~~\\\n /V\\ "]
        } else {
            vec!["/___\\\n / \\ ", "\\___/\n \\V/ "]
        };
        let score: usize = if y == 2 {
            40
        } else if y == 5 {
            30
        } else if y == 8 {
            20
        } else if y == 11 {
            10
        } else {
            5
        };
        proof {
            lemma_band_sprites_boxed(y as int);
            assert(anim@ =~= band_sprites(y as int));
        }
        Invader {
            x,
            y,
            anim,
            anim_idx: 0,
            anim_timer: Timer::from_millis(INVADER_ANIM_MILLIS),
            is_alive: true,
            remove: false,
            score,
        }
    }

    pub fn kill(&mut self)
        ensures
            *final(self) == old(self).killed(),
    {
        self.is_alive = false;
        self.anim_timer = Timer::from_millis(INVADER_ANIM_MILLIS);
    }

    pub fn dead(&self) -> (dead: bool)
        ensures
            dead == !self.is_alive,
    {
        !self.is_alive
    }

    pub fn removable(&self) -> (removable: bool)
        ensures
            removable == self.remove,
    {
        self.remove
    }

    pub fn move_down(&mut self)
        requires
            old(self).y < usize::MAX,
        ensures
            *final(self) == old(self).lowered(),
    {
        self.y += 1;
    }

    /// Moves the invader `direction` columns to the right, or to the left
    /// where `direction` is negative.
    pub fn move_x(&mut self, direction: isize)
        requires
            0 <= old(self).x + direction <= usize::MAX,
        ensures
            *final(self) == old(self).shifted(direction as int),
    {
        if direction >= 0 {
            self.x = self.x + (direction as usize);
        } else {
            let back: usize = (-(direction + 1)) as usize;
            self.x = self.x - back - 1;
        }
    }
}

impl Transform for Invader {
    open spec fn bounds(&self) -> Rect {
        Rect { x: self.x, y: self.y, width: INVADER_WIDTH, height: INVADER_HEIGHT }
    }

    fn get_x(&self) -> (x: usize) {
        self.x
    }

    fn get_y(&self) -> (y: usize) {
        self.y
    }

    fn get_width(&self) -> (width: usize) {
        INVADER_WIDTH
    }

    fn get_height(&self) -> (height: usize) {
        INVADER_HEIGHT
    }
}

impl Updatable for Invader {
    open spec fn updatable(&self) -> bool {
        self.can_animate()
    }

    open spec fn update_yields(&self, delta: u64, after: &Invader) -> bool {
        *after == self.updated(delta)
    }

    fn update(&mut self, delta: u64) {
        let frames = self.anim.len();
        self.anim_timer.update(delta);
        if self.anim_timer.ready {
            if !self.is_alive {
                self.remove = true;
            }
            self.anim_idx = (self.anim_idx + 1) % frames;
            self.anim_timer.reset();
        }
    }
}

impl Drawable for Invader {
    open spec fn fits(&self, cols: int, rows: int) -> bool {
        &&& self.shows_explosion() || self.has_sprite()
        &&& self.x + INVADER_WIDTH <= cols
        &&& self.y + INVADER_HEIGHT <= rows
    }

    open spec fn drawn(&self, g: Seq<Seq<char>>) -> Seq<Seq<char>> {
        if self.shows_explosion() {
            self.explosion_drawn(g)
        } else {
            stamped(g, self.x as int, self.y as int, self.anim@[self.anim_idx as int]@)
        }
    }

    fn draw(&self, frame: &mut Frame) {
        assert(self.x + INVADER_WIDTH <= old(frame).len() <= usize::MAX);
        assert(self.y + INVADER_HEIGHT <= old(frame)@[0].len() <= usize::MAX);
        if !self.is_alive && !self.anim_timer.ready {
            put(frame, self.x + 1, self.y, '\\');
            put(frame, self.x + 3, self.y, '/');
            put(frame, self.x + 1, self.y + 1, '/');
            put(frame, self.x + 3, self.y + 1, '\\');
            return ;
        }
        assert(boxed(
            self.anim@[self.anim_idx as int]@,
            INVADER_WIDTH as int,
            INVADER_HEIGHT as int,
        ));
        draw_sprite(frame, self.x, self.y, self.anim[self.anim_idx]);
    }
}

} // verus!
