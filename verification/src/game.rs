//! One frame of the game at a time: what the player's intents, the time that
//! has passed and the collisions make of the game, and what the frame loop
//! has to do about it.
//!
//! The loop itself stays outside: it reads the clock and the keyboard, calls
//! [`Game::tick`], plays the cues, sleeps where the outcome asks for it and
//! hands the drawn frame to the renderer.

use crate::army::{Army, ArmyState, MIN_FIRE_MILLIS};
use crate::frame::{
    blank, collides, entities_collide, grid, new_frame, Drawable, Frame, Rect, Transform,
    Updatable,
};
use crate::invader::TOP_SCORE;
use crate::player::{Player, PlayerState, MAX_LIVES, MAX_SHOTS};
use crate::shot::{lemma_shots_stay_in_field, live_shots, Shot};
use crate::status::Status;
use crate::timer::{elapsed, lemma_fires_when_time_is_up, Timer, NANOS_PER_MILLI};
use crate::{NUM_COLS, NUM_ROWS};
use vstd::prelude::*;

verus! {

/// The time for which a player who was hit stays dead, in milliseconds.
pub const RESPAWN_MILLIS: u64 = 1000;

/// The pause that the frame loop makes before a new level, in milliseconds.
pub const LEVEL_PAUSE_MILLIS: u64 = 1000;

/// The pause that the frame loop makes after every frame, in milliseconds.
pub const FRAME_PAUSE_MILLIS: u64 = 1;

/// What the player wants, as read from the keyboard.
#[derive(Clone, Copy, Debug, PartialEq, Eq)]
pub enum Intent {
    MoveLeft,
    MoveRight,
    Fire,
    Quit,
}

/// A sound to play.
#[derive(Clone, Copy, Debug, PartialEq, Eq)]
pub enum Cue {
    /// The game starts.
    Startup,
    /// The player has fired.
    Pew,
    /// A shot has hit.
    Boom,
}

impl Cue {
    /// The name under which the sound is known.
    pub open spec fn label(self) -> Seq<char> {
        match self {
            Cue::Startup => "startup"@,
            Cue::Pew => "pew"@,
            Cue::Boom => "boom"@,
        }
    }

    /// The name under which the sound is known.
    pub fn name(&self) -> (name: &'static str)
        ensures
            name@ == self.label(),
    {
        match self {
            Cue::Startup => "startup",
            Cue::Pew => "pew",
            Cue::Boom => "boom",
        }
    }
}

/// How a frame ended.
#[derive(Clone, Copy, Debug, PartialEq, Eq)]
pub enum Outcome {
    /// The game goes on.
    Running,
    /// No invader is left: the loop pauses and then calls
    /// [`Game::next_level`].
    LevelCleared,
    /// The player has asked to leave.
    Quit,
    /// The player was hit with one life left: the game is lost.
    LivesExhausted,
    /// The formation has reached the player's rows: the game is lost.
    Invaded,
}

/// What a frame leaves for the frame loop to do.
pub struct Report {
    pub outcome: Outcome,
    pub cues: Vec<Cue>,
}

/// The whole game.
pub struct Game {
    pub status: Status,
    pub player: Player,
    pub army: Army,
    pub death_timer: Timer,
}

/// What a [`Game`] holds, as a value to reason about.
pub struct GameState {
    pub status: Status,
    pub player: PlayerState,
    pub army: ArmyState,
    pub death_timer: Timer,
}

impl View for Game {
    type V = GameState;

    open spec fn view(&self) -> GameState {
        GameState {
            status: self.status,
            player: self.player@,
            army: self.army@,
            death_timer: self.death_timer,
        }
    }
}

/// A game together with what a step has produced so far.
pub struct Turn {
    pub state: GameState,
    pub outcome: Outcome,
    pub cues: Seq<Cue>,
}

/// The player after heeding `intent`.
pub open spec fn heeding(player: PlayerState, intent: Intent) -> PlayerState {
    match intent {
        Intent::MoveLeft => player.moved_left(),
        Intent::MoveRight => player.moved_right(),
        Intent::Fire => player.fired(),
        Intent::Quit => player,
    }
}

/// The player after heeding the first `n` of `intents`, one after another.
pub open spec fn steered(player: PlayerState, intents: Seq<Intent>, n: int) -> PlayerState
    decreases n,
{
    if n <= 0 {
        player
    } else {
        heeding(steered(player, intents, n - 1), intents[n - 1])
    }
}

/// The cues for the shots that the player fires while heeding the first `n`
/// of `intents`.
pub open spec fn pews(player: PlayerState, intents: Seq<Intent>, n: int) -> Seq<Cue>
    decreases n,
{
    if n <= 0 {
        Seq::empty()
    } else {
        let before = pews(player, intents, n - 1);
        if intents[n - 1] == Intent::Fire && steered(player, intents, n - 1).can_shoot() {
            before.push(Cue::Pew)
        } else {
            before
        }
    }
}

/// Whether `intents[k]` is the first request to leave.
pub open spec fn is_first_quit(intents: Seq<Intent>, k: int) -> bool {
    &&& 0 <= k < intents.len()
    &&& intents[k] == Intent::Quit
    &&& forall|j: int| 0 <= j < k ==> intents[j] != Intent::Quit
}

/// How many of `intents` are heeded: those before the first request to
/// leave.
pub open spec fn heeded(intents: Seq<Intent>) -> int {
    if exists|k: int| is_first_quit(intents, k) {
        choose|k: int| is_first_quit(intents, k)
    } else {
        intents.len() as int
    }
}

/// The formation after the first `n` of `shots` have been tested against
/// it, one after another.
pub open spec fn volley_army(army: ArmyState, shots: Seq<Shot>, n: int) -> ArmyState
    decreases n,
{
    if n <= 0 {
        army
    } else {
        volley_army(army, shots, n - 1).struck(shots[n - 1].bounds())
    }
}

/// The score of the member that `shots[k]` hits when its turn comes, if it
/// hits one.
pub open spec fn volley_prize(army: ArmyState, shots: Seq<Shot>, k: int) -> Option<usize> {
    volley_army(army, shots, k).prize(shots[k].bounds())
}

/// The score that the first `n` of `shots` earn.
pub open spec fn volley_gain(army: ArmyState, shots: Seq<Shot>, n: int) -> int
    decreases n,
{
    if n <= 0 {
        0
    } else {
        volley_gain(army, shots, n - 1) + match volley_prize(army, shots, n - 1) {
            Some(score) => score as int,
            None => 0,
        }
    }
}

/// The shots after the first `n` of them have been tested: those that hit
/// are exploding.
pub open spec fn volley_shots(army: ArmyState, shots: Seq<Shot>, n: int) -> Seq<Shot> {
    Seq::new(
        shots.len(),
        |k: int|
            if k < n && volley_prize(army, shots, k) is Some {
                Shot { exploding: true, ..shots[k] }
            } else {
                shots[k]
            },
    )
}

/// One cue for each of the first `n` of `shots` that hits.
pub open spec fn volley_booms(army: ArmyState, shots: Seq<Shot>, n: int) -> Seq<Cue>
    decreases n,
{
    if n <= 0 {
        Seq::empty()
    } else {
        let before = volley_booms(army, shots, n - 1);
        if volley_prize(army, shots, n - 1) is Some {
            before.push(Cue::Boom)
        } else {
            before
        }
    }
}

/// Whether `shots[k]` is the first shot that collides with `ship`.
pub open spec fn is_first_strike(ship: Rect, shots: Seq<Shot>, k: int) -> bool {
    &&& 0 <= k < shots.len()
    &&& collides(ship, shots[k].bounds())
    &&& forall|j: int| 0 <= j < k ==> !collides(ship, shots[j].bounds())
}

/// The first shot that collides with `ship`, if there is one.
pub open spec fn first_strike(ship: Rect, shots: Seq<Shot>) -> Option<int> {
    if exists|k: int| is_first_strike(ship, shots, k) {
        Some(choose|k: int| is_first_strike(ship, shots, k))
    } else {
        None
    }
}

impl GameState {
    /// Player and formation are in order and inside the playfield, the
    /// player has no more than `MAX_SHOTS` shots in flight, a living player
    /// has a life, and the respawn delay is `RESPAWN_MILLIS` long.
    pub open spec fn sound(self) -> bool {
        &&& self.death_timer.duration == RESPAWN_MILLIS * NANOS_PER_MILLI
        &&& self.player.wf()
        &&& self.player.on_grid()
        &&& self.player.shots.len() <= MAX_SHOTS
        &&& self.player.is_alive ==> self.player.lives >= 1
        &&& self.army.wf()
    }

    /// The state between two frames of a game that goes on: it is sound,
    /// the player has a life left, and the formation has not reached the
    /// player's rows.
    pub open spec fn wf(self) -> bool {
        self.sound() && self.player.lives >= 1 && !self.army.invaded()
    }

    /// Whether the next frame can be played: the score has room for what a
    /// frame can earn.
    pub open spec fn can_tick(self) -> bool {
        self.status.score + TOP_SCORE * MAX_SHOTS <= usize::MAX
    }

    /// The game after the player's intents: they are heeded in their order
    /// up to the first request to leave, which ends the frame at once.
    pub open spec fn steered(self, intents: Seq<Intent>) -> Turn {
        let n = heeded(intents);
        Turn {
            state: GameState { player: steered(self.player, intents, n), ..self },
            outcome: if n < intents.len() {
                Outcome::Quit
            } else {
                Outcome::Running
            },
            cues: pews(self.player, intents, n),
        }
    }

    /// The game after `delta` nanoseconds have passed for the player and
    /// for the formation, where `slot` and `millis` are what the formation
    /// draws if its fire timer fires.
    pub open spec fn advanced(self, delta: u64, slot: Option<int>, millis: u64) -> GameState {
        GameState {
            player: self.player.updated(delta),
            army: self.army.updated(delta, slot, millis),
            ..self
        }
    }

    /// The game after the player's shots have been tested against the
    /// formation, one after another: each shot kills the first living
    /// member that it collides with, earns that member's score and
    /// explodes.
    pub open spec fn volleyed(self) -> Turn {
        let shots = self.player.shots;
        let n = shots.len() as int;
        Turn {
            state: GameState {
                status: Status {
                    score: (self.status.score + volley_gain(self.army, shots, n)) as usize,
                    ..self.status
                },
                player: PlayerState { shots: volley_shots(self.army, shots, n), ..self.player },
                army: volley_army(self.army, shots, n),
                ..self
            },
            outcome: Outcome::Running,
            cues: volley_booms(self.army, shots, n),
        }
    }

    /// The shot of the formation that hits the player: the first one that
    /// collides with the ship, and none while the player is dead.
    pub open spec fn strike(self) -> Option<int> {
        if self.player.is_alive {
            first_strike(self.player.bounds(), self.army.shots)
        } else {
            None
        }
    }

    /// The game after the formation's shots have been tested against the
    /// player. The first shot that collides with the ship explodes and
    /// takes a life. With the last life the game is lost; otherwise the
    /// respawn delay starts and the status shows the lives that are left.
    pub open spec fn struck(self) -> Turn {
        match self.strike() {
            Some(k) => {
                let army = ArmyState {
                    shots: self.army.shots.update(
                        k,
                        Shot { exploding: true, ..self.army.shots[k] },
                    ),
                    ..self.army
                };
                let player = self.player.hit();
                if self.player.lives == 1 {
                    Turn {
                        state: GameState { player, army, ..self },
                        outcome: Outcome::LivesExhausted,
                        cues: seq![Cue::Boom],
                    }
                } else {
                    Turn {
                        state: GameState {
                            status: Status { lives: player.lives, ..self.status },
                            player,
                            army,
                            death_timer: self.death_timer.rewound(),
                        },
                        outcome: Outcome::Running,
                        cues: seq![Cue::Boom],
                    }
                }
            },
            None => Turn { state: self, outcome: Outcome::Running, cues: Seq::empty() },
        }
    }

    /// The game after `delta` nanoseconds of the respawn delay: the player
    /// is alive again once the delay's timer has fired.
    pub open spec fn respawning(self, delta: u64) -> GameState {
        let timer = self.death_timer.advanced(delta);
        GameState {
            player: PlayerState { is_alive: self.player.is_alive || timer.ready, ..self.player },
            death_timer: timer,
            ..self
        }
    }

    /// The game after each of `deltas` has passed of the respawn delay.
    pub open spec fn respawning_through(self, deltas: Seq<u64>) -> GameState
        decreases deltas.len(),
    {
        if deltas.len() == 0 {
            self
        } else {
            self.respawning_through(deltas.drop_last()).respawning(deltas.last())
        }
    }

    /// Whether the game goes on: it is lost when the formation has reached
    /// the player's rows, and the level is cleared when no member is left.
    pub open spec fn judged(self) -> Outcome {
        if self.army.invaded() {
            Outcome::Invaded
        } else if self.army.invaders.len() == 0 {
            Outcome::LevelCleared
        } else {
            Outcome::Running
        }
    }

    /// The frame of a living player: intents, time, the player's shots, the
    /// formation's shots, and then the verdict.
    pub open spec fn played(self, delta: u64, intents: Seq<Intent>, slot: Option<int>, millis: u64)
        -> Turn {
        let steered = self.steered(intents);
        if steered.outcome == Outcome::Quit {
            steered
        } else {
            let volleyed = steered.state.advanced(delta, slot, millis).volleyed();
            let struck = volleyed.state.struck();
            Turn {
                state: struck.state,
                outcome: if struck.outcome == Outcome::LivesExhausted {
                    Outcome::LivesExhausted
                } else {
                    struck.state.judged()
                },
                cues: steered.cues + volleyed.cues + struck.cues,
            }
        }
    }

    /// The frame of a dead player: intents and collisions are suspended,
    /// the respawn delay runs and the formation goes on.
    pub open spec fn waited(self, delta: u64, slot: Option<int>, millis: u64) -> Turn {
        let respawning = self.respawning(delta);
        let state = GameState {
            army: self.army.updated(delta, slot, millis),
            ..respawning
        };
        Turn { state, outcome: state.judged(), cues: Seq::empty() }
    }

    /// One frame.
    pub open spec fn ticked(self, delta: u64, intents: Seq<Intent>, slot: Option<int>, millis: u64)
        -> Turn {
        if self.player.is_alive {
            self.played(delta, intents, slot, millis)
        } else {
            self.waited(delta, slot, millis)
        }
    }

    /// The frame that shows the game: the player, over it the formation,
    /// over that the status line.
    pub open spec fn drawn(self) -> Seq<Seq<char>> {
        self.status.drawn(
            self.army.drawn(self.player.drawn(blank(NUM_COLS as int, NUM_ROWS as int))),
        )
    }

    /// The game as the next level starts: the level counts up, the lives
    /// are full again, no shot is in flight, and the score stays.
    pub open spec fn levelled_up(self, army: ArmyState) -> GameState {
        GameState {
            status: Status {
                level: (self.status.level + 1) as u64,
                lives: MAX_LIVES,
                ..self.status
            },
            player: PlayerState { lives: MAX_LIVES, shots: Seq::empty(), ..self.player },
            army: ArmyState { shots: Seq::empty(), ..army },
            ..self
        }
    }
}

/// No two intents are both the first request to leave.
pub proof fn lemma_first_quit_unique(intents: Seq<Intent>, k: int)
    requires
        is_first_quit(intents, k),
    ensures
        heeded(intents) == k,
{
    let j = choose|j: int| is_first_quit(intents, j);
    assert(is_first_quit(intents, j));
}

/// No two shots are both the first to collide with the ship.
pub proof fn lemma_first_strike_unique(ship: Rect, shots: Seq<Shot>, k: int)
    requires
        is_first_strike(ship, shots, k),
    ensures
        first_strike(ship, shots) == Some(k),
{
    let j = choose|j: int| is_first_strike(ship, shots, j);
    assert(is_first_strike(ship, shots, j));
}

/// A hit on a player with one life left ends the game: the player is dead
/// and nothing brings it back. A hit on a player with more lives takes one,
/// shows the rest in the status, and starts the respawn delay.
pub proof fn lemma_hit_takes_a_life(game: GameState)
    requires
        game.sound(),
        game.strike() is Some,
    ensures
        !game.struck().state.player.is_alive,
        game.struck().state.player.lives == game.player.lives - 1,
        game.player.lives == 1 ==> game.struck().outcome == Outcome::LivesExhausted,
        game.player.lives >= 2 ==> {
            &&& game.struck().outcome == Outcome::Running
            &&& game.struck().state.status.lives == game.player.lives - 1
            &&& game.struck().state.death_timer == Timer::started(RESPAWN_MILLIS)
            &&& game.struck().state.sound()
        },
{
    let k = game.strike()->0;
    assert(is_first_strike(game.player.bounds(), game.army.shots, k));
    let after = game.struck().state;
    assert forall|i: int| 0 <= i < after.army.shots.len() implies (
    #[trigger] after.army.shots[i]).x < NUM_COLS && after.army.shots[i].y < NUM_ROWS by {
        assert(game.army.shots[i].x < NUM_COLS && game.army.shots[i].y < NUM_ROWS);
    }
}

/// A dead player whose respawn delay has started is alive again exactly
/// when more than the delay has passed, over any number of frames. While
/// the player is dead, a frame does to the player and to the delay what
/// the delay alone does.
pub proof fn lemma_respawn_after_delay(game: GameState, deltas: Seq<u64>)
    requires
        !game.player.is_alive,
        game.death_timer == Timer::started(RESPAWN_MILLIS),
    ensures
        game.respawning_through(deltas).player.is_alive <==> elapsed(deltas) > RESPAWN_MILLIS
            * NANOS_PER_MILLI,
        game.respawning_through(deltas).death_timer == game.death_timer.advanced_through(deltas),
        forall|delta: u64, intents: Seq<Intent>, slot: Option<int>, millis: u64|
            {
                let turn = #[trigger] game.ticked(delta, intents, slot, millis);
                &&& turn.state.player == game.respawning(delta).player
                &&& turn.state.death_timer == game.respawning(delta).death_timer
                &&& turn.cues.len() == 0
            },
    decreases deltas.len(),
{
    lemma_fires_when_time_is_up(game.death_timer, deltas);
    if deltas.len() > 0 {
        lemma_respawn_after_delay(game, deltas.drop_last());
        lemma_fires_when_time_is_up(game.death_timer, deltas.drop_last());
    }
}

/// A hit leaves the formation in order, and where it stands.
pub proof fn lemma_struck_stays_in_field(army: ArmyState, r: Rect)
    requires
        army.wf(),
    ensures
        army.struck(r).wf(),
        army.struck(r).invaded() ==> army.invaded(),
        army.struck(r).invaders.len() == army.invaders.len(),
        army.prize(r) matches Some(score) ==> score <= TOP_SCORE,
{
    match army.first_hit(r) {
        Some(i) => {
            assert(army.is_first_hit(r, i));
            let after = army.struck(r);
            assert forall|k: int| 0 <= k < after.invaders.len() implies (
            #[trigger] after.invaders[k]).wf() && after.invaders[k].in_field() by {
                assert(army.invaders[k].wf() && army.invaders[k].in_field());
            }
            assert(army.invaders[i].wf());
            if after.invaded() {
                let k = choose|k: int|
                    0 <= k < after.invaders.len() && (#[trigger] after.invaders[k]).is_alive
                        && after.invaders[k].y + crate::invader::INVADER_HEIGHT >= crate::NUM_ROWS
                        - 1;
                assert(army.invaders[k].is_alive && after.invaders[k].y == army.invaders[k].y);
            }
        },
        None => {},
    }
}

impl Game {
    /// A new game at level 1.
    pub fn new() -> (game: Game)
        ensures
            game@.status == Status::new_spec(),
            game@.player == PlayerState::initial(),
            game@.army.is_new(1),
            game@.death_timer == Timer::started(RESPAWN_MILLIS),
            game@.wf(),
            game@.can_tick(),
    {
        Game {
            status: Status::new(),
            player: Player::new(),
            army: Army::new(1),
            death_timer: Timer::from_millis(RESPAWN_MILLIS),
        }
    }

    /// Heeds the player's intents in their order, up to the first request
    /// to leave. Says whether there was one, and gives a cue for each shot
    /// that was fired.
    pub fn steer(&mut self, intents: &Vec<Intent>) -> (r: (bool, Vec<Cue>))
        requires
            old(self)@.player.on_grid(),
        ensures
            final(self)@ == old(self)@.steered(intents@).state,
            r.0 == (old(self)@.steered(intents@).outcome == Outcome::Quit),
            r.1@ == old(self)@.steered(intents@).cues,
            old(self)@.sound() ==> final(self)@.sound(),
            final(self)@.player.lives == old(self)@.player.lives,
            final(self)@.player.is_alive == old(self)@.player.is_alive,
    {
        let mut cues: Vec<Cue> = Vec::new();
        let mut i: usize = 0;
        while i < intents.len()
            invariant
                i <= intents@.len(),
                forall|j: int| 0 <= j < i ==> intents@[j] != Intent::Quit,
                self@ == (GameState {
                    player: steered(old(self)@.player, intents@, i as int),
                    ..old(self)@
                }),
                cues@ == pews(old(self)@.player, intents@, i as int),
                self@.player.on_grid(),
                old(self)@.sound() ==> self@.sound(),
                self@.player.lives == old(self)@.player.lives,
                self@.player.is_alive == old(self)@.player.is_alive,
            decreases intents@.len() - i,
        {
            match intents[i] {
                Intent::Quit => {
                    proof {
                        lemma_first_quit_unique(intents@, i as int);
                    }
                    return (true, cues);
                },
                Intent::MoveLeft => self.player.move_left(),
                Intent::MoveRight => self.player.move_right(),
                Intent::Fire => {
                    if self.player.shoot() {
                        cues.push(Cue::Pew);
                    }
                },
            }
            i += 1;
        }
        (false, cues)
    }

    /// Lets `delta` nanoseconds pass for the player and for the formation.
    pub fn advance(&mut self, delta: u64)
        requires
            old(self)@.wf(),
        ensures
            exists|slot: Option<int>, millis: u64|
                old(self)@.army.marched(delta).may_draw(slot, millis) && final(self)@
                    == #[trigger] old(self)@.advanced(delta, slot, millis),
            final(self)@.sound(),
    {
        proof {
            lemma_shots_stay_in_field(self@.player.shots, delta);
            lemma_shots_stay_in_field(live_shots(self@.player.shots), delta);
            self@.player.shots.lemma_filter_len(|shot: Shot| !shot.is_dead());
        }
        self.player.update(delta);
        self.army.update(delta);
        proof {
            let before = old(self)@;
            let (slot, millis) = choose|slot: Option<int>, millis: u64|
                before.army.marched(delta).may_draw(slot, millis) && self@.army
                    == #[trigger] before.army.updated(delta, slot, millis);
            assert(self@ == before.advanced(delta, slot, millis));
        }
    }

    /// Tests the player's shots against the formation, one after another.
    /// Gives a cue for each one that hits.
    pub fn volley(&mut self) -> (cues: Vec<Cue>)
        requires
            old(self)@.army.wf(),
            old(self)@.status.score + TOP_SCORE * old(self)@.player.shots.len() <= usize::MAX,
        ensures
            final(self)@ == old(self)@.volleyed().state,
            cues@ == old(self)@.volleyed().cues,
            final(self)@.army.wf(),
            final(self)@.army.invaded() ==> old(self)@.army.invaded(),
            old(self)@.sound() ==> final(self)@.sound(),
    {
        let ghost army = self@.army;
        let ghost shots = self@.player.shots;
        let mut cues: Vec<Cue> = Vec::new();
        let mut k: usize = 0;
        assert(volley_shots(army, shots, 0) =~= shots);
        while k < self.player.shots.len()
            invariant
                k <= shots.len(),
                army == old(self)@.army,
                shots == old(self)@.player.shots,
                self@.army == volley_army(army, shots, k as int),
                self@.army.wf(),
                self@.army.invaded() ==> army.invaded(),
                0 <= volley_gain(army, shots, k as int) <= TOP_SCORE * k,
                old(self)@.status.score + TOP_SCORE * shots.len() <= usize::MAX,
                self@.status == (Status {
                    score: (old(self)@.status.score + volley_gain(army, shots, k as int)) as usize,
                    ..old(self)@.status
                }),
                self@.player == (PlayerState {
                    shots: volley_shots(army, shots, k as int),
                    ..old(self)@.player
                }),
                self@.death_timer == old(self)@.death_timer,
                cues@ == volley_booms(army, shots, k as int),
            decreases shots.len() - k,
        {
            proof {
                lemma_struck_stays_in_field(self@.army, shots[k as int].bounds());
            }
            if let Some(score) = self.army.check_collision(&self.player.shots[k]) {
                self.status.add_score(score);
                self.player.shots[k].explode();
                cues.push(Cue::Boom);
            }
            assert(self@.player.shots =~= volley_shots(army, shots, k + 1));
            k += 1;
        }
        cues
    }

    /// Tests the formation's shots against the player, while the player is
    /// alive. Says whether the player has lost the last life, and gives a
    /// cue if a shot has hit.
    pub fn strike(&mut self) -> (r: (bool, Vec<Cue>))
        requires
            old(self)@.player.is_alive ==> old(self)@.player.lives >= 1,
        ensures
            final(self)@ == old(self)@.struck().state,
            r.0 == (old(self)@.struck().outcome == Outcome::LivesExhausted),
            r.1@ == old(self)@.struck().cues,
            final(self)@.army.invaders == old(self)@.army.invaders,
            old(self)@.sound() ==> final(self)@.sound(),
    {
        let mut cues: Vec<Cue> = Vec::new();
        if self.player.dead() {
            return (false, cues);
        }
        let ship = self.player.rect();
        let mut k: usize = 0;
        while k < self.army.shots.len()
            invariant
                k <= self.army.shots@.len(),
                self@ == old(self)@,
                self@.player.is_alive,
                self@.player.lives >= 1,
                ship == self@.player.bounds(),
                cues@ == Seq::<Cue>::empty(),
                forall|j: int| 0 <= j < k ==> !collides(ship, self@.army.shots[j].bounds()),
            decreases self.army.shots@.len() - k,
        {
            if entities_collide(&self.player, &self.army.shots[k]) {
                proof {
                    assert(is_first_strike(ship, self@.army.shots, k as int));
                    lemma_first_strike_unique(ship, self@.army.shots, k as int);
                }
                cues.push(Cue::Boom);
                self.army.shots[k].explode();
                assert(self@.army.shots =~= old(self)@.army.shots.update(
                    k as int,
                    Shot { exploding: true, ..old(self)@.army.shots[k as int] },
                ));
                assert(cues@ =~= seq![Cue::Boom]);
                match self.player.die() {
                    None => {
                        return (true, cues);
                    },
                    Some(lives) => {
                        self.death_timer.reset();
                        self.status.update_lives(lives);
                        return (false, cues);
                    },
                }
            }
            k += 1;
        }
        assert(first_strike(ship, self@.army.shots) is None);
        (false, cues)
    }

    /// Lets `delta` nanoseconds of the respawn delay pass, and brings the
    /// player back once the delay is over.
    pub fn respawn(&mut self, delta: u64)
        ensures
            final(self)@ == old(self)@.respawning(delta),
    {
        self.death_timer.update(delta);
        if self.death_timer.ready {
            self.player.resurrect();
        }
    }

    /// One frame of the game. While the player is alive: the intents are
    /// heeded, time passes for player and formation, the player's shots are
    /// tested against the formation and the formation's shots against the
    /// player. While the player is dead: the respawn delay runs, and time
    /// passes for the formation. Then the game is judged.
    pub fn tick(&mut self, delta: u64, intents: &Vec<Intent>) -> (report: Report)
        requires
            old(self)@.wf(),
            old(self)@.can_tick(),
        ensures
            exists|slot: Option<int>, millis: u64|
                old(self)@.army.marched(delta).may_draw(slot, millis) && {
                    let turn = #[trigger] old(self)@.ticked(delta, intents@, slot, millis);
                    &&& final(self)@ == turn.state
                    &&& report.outcome == turn.outcome
                    &&& report.cues@ == turn.cues
                },
            final(self)@.sound(),
            report.outcome != Outcome::Invaded && report.outcome != Outcome::LivesExhausted
                ==> final(self)@.wf(),
    {
        let ghost before = self@;
        if !self.player.dead() {
            let (quit, mut cues) = self.steer(intents);
            if quit {
                proof {
                    let marched = before.army.marched(delta);
                    let slot: Option<int> = if marched.invaders.len() == 0 {
                        None
                    } else {
                        Some(0)
                    };
                    assert(marched.may_draw(slot, MIN_FIRE_MILLIS));
                    assert(self@ == before.ticked(delta, intents@, slot, MIN_FIRE_MILLIS).state);
                }
                return Report { outcome: Outcome::Quit, cues };
            }
            let ghost steered = self@;
            self.advance(delta);
            let ghost advanced = self@;
            let mut booms = self.volley();
            cues.append(&mut booms);
            let (lost, mut boom) = self.strike();
            cues.append(&mut boom);
            let outcome = if lost {
                Outcome::LivesExhausted
            } else {
                self.judge()
            };
            proof {
                let (slot, millis) = choose|slot: Option<int>, millis: u64|
                    steered.army.marched(delta).may_draw(slot, millis) && advanced
                        == #[trigger] steered.advanced(delta, slot, millis);
                let turn = before.ticked(delta, intents@, slot, millis);
                assert(self@ == turn.state);
                assert(cues@ == turn.cues);
            }
            Report { outcome, cues }
        } else {
            self.respawn(delta);
            self.army.update(delta);
            let outcome = self.judge();
            proof {
                let (slot, millis) = choose|slot: Option<int>, millis: u64|
                    before.army.marched(delta).may_draw(slot, millis) && self@.army
                        == #[trigger] before.army.updated(delta, slot, millis);
                let turn = before.ticked(delta, intents@, slot, millis);
                assert(self@ == turn.state);
            }
            Report { outcome, cues: Vec::new() }
        }
    }

    /// Sets the game up for the next level: a new formation that is faster
    /// than the last one, full lives, no shot in flight. The score stays.
    pub fn next_level(&mut self)
        requires
            old(self)@.status.level < u64::MAX,
        ensures
            final(self)@.army.is_new(old(self)@.status.level + 1),
            final(self)@ == old(self)@.levelled_up(final(self)@.army),
            old(self)@.sound() ==> final(self)@.wf(),
    {
        self.status.level_up();
        self.army = Army::new(self.status.level);
        self.player.reset_lives();
        self.status.update_lives(self.player.lives);
        self.player.shots.clear();
        self.army.shots.clear();
        assert(self@.army.shots =~= Seq::<Shot>::empty());
    }

    /// Draws the game into a new frame.
    pub fn draw(&self) -> (frame: Frame)
        requires
            self@.sound(),
            self@.status.printable(),
        ensures
            grid(&frame) == self@.drawn(),
    {
        let mut frame = new_frame();
        self.player.draw(&mut frame);
        self.army.draw(&mut frame);
        self.status.draw(&mut frame);
        frame
    }

    /// Whether the next frame can be played.
    pub fn can_tick(&self) -> (ready: bool)
        ensures
            ready == self@.can_tick(),
    {
        self.status.score <= usize::MAX - TOP_SCORE * MAX_SHOTS
    }

    /// Whether the status line of the game can be drawn.
    pub fn can_draw(&self) -> (ready: bool)
        ensures
            ready == self@.status.printable(),
    {
        self.status.is_printable()
    }

    /// Whether the game goes on, is lost to the formation, or moves on to
    /// the next level.
    pub fn judge(&self) -> (outcome: Outcome)
        ensures
            outcome == self@.judged(),
    {
        if self.army.invaded() {
            Outcome::Invaded
        } else if self.army.all_dead() {
            Outcome::LevelCleared
        } else {
            Outcome::Running
        }
    }
}

} // verus!
