//! The player's ship.

use crate::frame::{
    all_fit, boxed, boxed_from, draw_all, draw_sprite, drawn_all, stamped, Drawable, Frame, Rect,
    Transform, Updatable,
};
use crate::shot::{
    live_shots, retain_live_shots, shots_in_field, shots_updated, update_shots, Direction, Shot,
    SHOT_STEP_MILLIS,
};
use crate::timer::Timer;
use crate::{NUM_COLS, NUM_ROWS};
use vstd::prelude::*;

verus! {

/// The lives that a player starts each level with.
pub const MAX_LIVES: usize = 3;

/// The most shots that a player can have in flight.
pub const MAX_SHOTS: usize = 3;

/// Width of the player in columns.
pub const PLAYER_WIDTH: usize = 7;

/// Height of the player in rows.
pub const PLAYER_HEIGHT: usize = 2;

/// Milliseconds between two animation frames of the player.
pub const PLAYER_ANIM_MILLIS: u64 = 1000;

/// The player: a ship on the bottom rows that moves sideways and fires
/// upwards.
pub struct Player {
    pub x: usize,
    pub y: usize,
    pub anim: Vec<&'static str>,
    pub shots: Vec<Shot>,
    pub anim_idx: usize,
    pub anim_timer: Timer,
    pub lives: usize,
    pub is_alive: bool,
}

/// What a [`Player`] holds, as a value to reason about.
pub struct PlayerState {
    pub x: usize,
    pub y: usize,
    pub anim: Seq<&'static str>,
    pub shots: Seq<Shot>,
    pub anim_idx: usize,
    pub anim_timer: Timer,
    pub lives: usize,
    pub is_alive: bool,
}

impl View for Player {
    type V = PlayerState;

    open spec fn view(&self) -> PlayerState {
        PlayerState {
            x: self.x,
            y: self.y,
            anim: self.anim@,
            shots: self.shots@,
            anim_idx: self.anim_idx,
            anim_timer: self.anim_timer,
            lives: self.lives,
            is_alive: self.is_alive,
        }
    }
}

impl PlayerState {
    /// The animation is in order: there is a current frame, and every frame
    /// fits the player's rectangle.
    pub open spec fn wf(self) -> bool {
        &&& self.anim_idx < self.anim.len()
        &&& forall|i: int|
            0 <= i < self.anim.len() ==> boxed(
                (#[trigger] self.anim[i])@,
                PLAYER_WIDTH as int,
                PLAYER_HEIGHT as int,
            )
    }

    /// Whether the animation can advance: there is a current frame.
    pub open spec fn can_animate(self) -> bool {
        self.anim_idx < self.anim.len()
    }

    /// Whether the current animation frame is there and fits the player's
    /// rectangle.
    pub open spec fn has_sprite(self) -> bool {
        &&& self.anim_idx < self.anim.len()
        &&& boxed(self.anim[self.anim_idx as int]@, PLAYER_WIDTH as int, PLAYER_HEIGHT as int)
    }

    /// The ship stands inside the playfield with a row free above it, and so
    /// does every shot.
    pub open spec fn on_grid(self) -> bool {
        &&& self.x + PLAYER_WIDTH <= NUM_COLS
        &&& 1 <= self.y
        &&& self.y + PLAYER_HEIGHT <= NUM_ROWS
        &&& shots_in_field(self.shots)
    }

    /// The rectangle that the ship covers.
    pub open spec fn bounds(self) -> Rect {
        Rect { x: self.x, y: self.y, width: PLAYER_WIDTH, height: PLAYER_HEIGHT }
    }

    /// The player as a new game starts: in the middle of the third row from
    /// the bottom, alive, with all lives and no shot in flight.
    pub open spec fn initial() -> PlayerState {
        PlayerState {
            x: (NUM_COLS / 2 - 4) as usize,
            y: (NUM_ROWS - 3) as usize,
            anim: seq![" _/^\\_ \n|#####|"],
            shots: Seq::empty(),
            anim_idx: 0,
            anim_timer: Timer::started(PLAYER_ANIM_MILLIS),
            lives: MAX_LIVES,
            is_alive: true,
        }
    }

    /// One column to the left, unless the ship stands at the left edge.
    pub open spec fn moved_left(self) -> PlayerState {
        PlayerState {
            x: if self.x > 0 {
                (self.x - 1) as usize
            } else {
                self.x
            },
            ..self
        }
    }

    /// One column to the right, unless the ship's last column is the one
    /// before the right edge.
    pub open spec fn moved_right(self) -> PlayerState {
        PlayerState {
            x: if self.x + 6 < NUM_COLS - 1 {
                (self.x + 1) as usize
            } else {
                self.x
            },
            ..self
        }
    }

    /// Whether another shot can be fired.
    pub open spec fn can_shoot(self) -> bool {
        self.shots.len() < MAX_SHOTS
    }

    /// The shot that the player fires from where it stands: from the middle
    /// of the ship, one row above it, going up.
    pub open spec fn new_shot(self) -> Shot {
        Shot {
            x: (self.x + 3) as usize,
            y: (self.y - 1) as usize,
            timer: Timer::started(SHOT_STEP_MILLIS),
            direction: Direction::Up,
            exploding: false,
        }
    }

    /// The player after an attempt to fire.
    pub open spec fn fired(self) -> PlayerState {
        if self.can_shoot() {
            PlayerState { shots: self.shots.push(self.new_shot()), ..self }
        } else {
            self
        }
    }

    /// The player after a hit: dead, with one life less.
    pub open spec fn hit(self) -> PlayerState {
        PlayerState { is_alive: false, lives: (self.lives - 1) as usize, ..self }
    }

    /// The player after `delta` nanoseconds: dead shots are gone, the others
    /// have advanced, and the animation has advanced.
    pub open spec fn updated(self, delta: u64) -> PlayerState {
        let timer = self.anim_timer.advanced(delta);
        PlayerState {
            shots: shots_updated(live_shots(self.shots), delta),
            anim_idx: if timer.ready {
                ((self.anim_idx + 1) % (self.anim.len() as int)) as usize
            } else {
                self.anim_idx
            },
            anim_timer: if timer.ready {
                timer.rewound()
            } else {
                timer
            },
            ..self
        }
    }

    /// Whether the ship, if it is alive, and every shot lie inside a grid of
    /// `cols` columns and `rows` rows.
    pub open spec fn fits(self, cols: int, rows: int) -> bool {
        &&& self.is_alive ==> {
            &&& self.has_sprite()
            &&& self.x + PLAYER_WIDTH <= cols
            &&& self.y + PLAYER_HEIGHT <= rows
        }
        &&& all_fit(self.shots, cols, rows)
    }

    /// The grid with the ship, if it is alive, and then the shots drawn
    /// over it.
    pub open spec fn drawn(self, g: Seq<Seq<char>>) -> Seq<Seq<char>> {
        let ship = if self.is_alive {
            stamped(g, self.x as int, self.y as int, self.anim[self.anim_idx as int]@)
        } else {
            g
        };
        drawn_all(self.shots, ship)
    }
}

impl Player {
    pub fn new() -> (player: Player)
        ensures
            player@ == PlayerState::initial(),
            player@.wf(),
            player@.on_grid(),
    {
        proof {
            reveal_with_fuel(boxed_from, 17);
            reveal_strlit(" _/^\\_ \n|#####|");
        }
        let anim: Vec<&'static str> = vec![" _/^\\_ \n|#####|"];
        assert(anim@ =~= seq![" _/^\\_ \n|#####|"]);
        Player {
            x: (NUM_COLS / 2) - 4,
            y: NUM_ROWS - 3,
            anim,
            anim_idx: 0,
            anim_timer: Timer::from_millis(PLAYER_ANIM_MILLIS),
            shots: Vec::new(),
            lives: MAX_LIVES,
            is_alive: true,
        }
    }

    pub fn move_left(&mut self)
        ensures
            final(self)@ == old(self)@.moved_left(),
    {
        if self.x > 0 {
            self.x -= 1;
        }
    }

    pub fn move_right(&mut self)
        ensures
            final(self)@ == old(self)@.moved_right(),
    {
        if self.x < NUM_COLS - 7 {
            self.x += 1;
        }
    }

    /// Fires a shot unless `MAX_SHOTS` are in flight already, and says
    /// whether it did.
    pub fn shoot(&mut self) -> (fired: bool)
        requires
            old(self)@.can_shoot() ==> old(self).y >= 1 && old(self).x + 3 <= usize::MAX,
        ensures
            fired == old(self)@.can_shoot(),
            final(self)@ == old(self)@.fired(),
    {
        if self.shots.len() < MAX_SHOTS {
            self.shots.push(Shot::new(self.x + 3, self.y - 1, Direction::Up));
            true
        } else {
            false
        }
    }

    pub fn resurrect(&mut self)
        ensures
            final(self)@ == (PlayerState { is_alive: true, ..old(self)@ }),
    {
        self.is_alive = true;
    }

    /// The player is hit and loses a life. Gives the lives that are left, or
    /// `None` when that was the last one: the game is then lost.
    pub fn die(&mut self) -> (left: Option<usize>)
        requires
            old(self).lives > 0,
        ensures
            final(self)@ == old(self)@.hit(),
            left == if old(self).lives == 1 {
                None
            } else {
                Some((old(self).lives - 1) as usize)
            },
    {
        self.is_alive = false;
        self.lives -= 1;
        if self.lives == 0 {
            None
        } else {
            Some(self.lives)
        }
    }

    pub fn dead(&self) -> (dead: bool)
        ensures
            dead == !self.is_alive,
    {
        !self.is_alive
    }

    pub fn reset_lives(&mut self)
        ensures
            final(self)@ == (PlayerState { lives: MAX_LIVES, ..old(self)@ }),
    {
        self.lives = MAX_LIVES;
    }
}

impl Transform for Player {
    open spec fn bounds(&self) -> Rect {
        self@.bounds()
    }

    fn get_x(&self) -> (x: usize) {
        self.x
    }

    fn get_y(&self) -> (y: usize) {
        self.y
    }

    fn get_width(&self) -> (width: usize) {
        PLAYER_WIDTH
    }

    fn get_height(&self) -> (height: usize) {
        PLAYER_HEIGHT
    }
}

impl Updatable for Player {
    open spec fn updatable(&self) -> bool {
        self@.can_animate()
    }

    open spec fn update_yields(&self, delta: u64, after: &Player) -> bool {
        after@ == self@.updated(delta)
    }

    fn update(&mut self, delta: u64) {
        let frames = self.anim.len();
        retain_live_shots(&mut self.shots);
        update_shots(&mut self.shots, delta);
        self.anim_timer.update(delta);
        if self.anim_timer.ready {
            self.anim_idx = (self.anim_idx + 1) % frames;
            self.anim_timer.reset();
        }
    }
}

impl Drawable for Player {
    open spec fn fits(&self, cols: int, rows: int) -> bool {
        self@.fits(cols, rows)
    }

    open spec fn drawn(&self, g: Seq<Seq<char>>) -> Seq<Seq<char>> {
        self@.drawn(g)
    }

    fn draw(&self, frame: &mut Frame) {
        if self.is_alive {
            assert(self.x + PLAYER_WIDTH <= old(frame).len() <= usize::MAX);
            assert(self.y + PLAYER_HEIGHT <= old(frame)@[0].len() <= usize::MAX);
            assert(boxed(
                self.anim@[self.anim_idx as int]@,
                PLAYER_WIDTH as int,
                PLAYER_HEIGHT as int,
            ));
            draw_sprite(frame, self.x, self.y, self.anim[self.anim_idx]);
        }
        draw_all(&self.shots, frame);
    }
}

} // verus!
