//! The counters shown in the top row: score, lives and level.

use crate::frame::{
    boxed, boxed_from, draw_sprite, put, stamped, with_cell, Drawable, Frame,
};
use vstd::prelude::*;

verus! {

/// The character that stands for `n` in the status line: the one whose code
/// is that of `'0'` plus the low byte of `n`. For `n` below ten it is the
/// digit `n`.
pub open spec fn glyph(n: int) -> char {
    ((n % 256 + 48) as u8) as char
}

/// Whether [`glyph`] has a character for `n`: the code must fit in a byte.
pub open spec fn has_glyph(n: int) -> bool {
    n % 256 + 48 < 256
}

fn glyph_fits(n: u64) -> (fits: bool)
    ensures
        fits == has_glyph(n as int),
{
    n % 256 < 208
}

fn glyph_of(n: u64) -> (c: char)
    requires
        has_glyph(n as int),
    ensures
        c == glyph(n as int),
{
    let low: u8 = (n % 256) as u8;
    (low + 48) as char
}

/// Score, lives and level, and three flags that the frame loop may set.
pub struct Status {
    pub score: usize,
    pub lives: usize,
    pub level: u64,
    pub paused: bool,
    pub game_over: bool,
    pub game_won: bool,
}

impl Status {
    /// Whether every number of the status line has a character to show it.
    pub open spec fn printable(self) -> bool {
        &&& has_glyph(self.score as int / 100000)
        &&& has_glyph(self.score as int / 10000)
        &&& has_glyph(self.score as int / 1000)
        &&& has_glyph(self.lives as int / 10)
        &&& has_glyph(self.level as int / 10)
    }

    /// The grid with the score written from column 0 of the top row.
    pub open spec fn score_drawn(self, g: Seq<Seq<char>>) -> Seq<Seq<char>> {
        let score = self.score as int;
        let g0 = stamped(g, 0, 0, "Score: "@);
        let g1 = with_cell(g0, 7, 0, glyph(score / 100000));
        let g2 = with_cell(g1, 8, 0, glyph(score / 10000));
        let g3 = with_cell(g2, 9, 0, glyph(score / 1000));
        let g4 = with_cell(g3, 10, 0, glyph((score / 100) % 10));
        let g5 = with_cell(g4, 11, 0, glyph((score / 10) % 10));
        with_cell(g5, 12, 0, glyph(score % 10))
    }

    /// The grid with the lives written from column 15 of the top row.
    pub open spec fn lives_drawn(self, g: Seq<Seq<char>>) -> Seq<Seq<char>> {
        let g0 = stamped(g, 15, 0, "Lives: "@);
        let g1 = with_cell(g0, 22, 0, glyph(self.lives as int / 10));
        with_cell(g1, 23, 0, glyph(self.lives as int % 10))
    }

    /// The grid with the level written from column 26 of the top row.
    pub open spec fn level_drawn(self, g: Seq<Seq<char>>) -> Seq<Seq<char>> {
        let g0 = stamped(g, 26, 0, "Level: "@);
        let g1 = with_cell(g0, 33, 0, glyph(self.level as int / 10));
        with_cell(g1, 34, 0, glyph(self.level as int % 10))
    }

    /// The status of a new game: no score, three lives, level 1.
    pub open spec fn new_spec() -> Status {
        Status { score: 0, lives: 3, level: 1, paused: false, game_over: false, game_won: false }
    }

    pub fn new() -> (status: Status)
        ensures
            status == Status::new_spec(),
    {
        Status { score: 0, lives: 3, level: 1, paused: false, game_over: false, game_won: false }
    }

    /// Whether every number of the status line has a character to show it,
    /// so that the line can be drawn.
    pub fn is_printable(&self) -> (printable: bool)
        ensures
            printable == self.printable(),
    {
        glyph_fits((self.score / 100000) as u64) && glyph_fits((self.score / 10000) as u64)
            && glyph_fits((self.score / 1000) as u64) && glyph_fits((self.lives / 10) as u64)
            && glyph_fits(self.level / 10)
    }

    pub fn level_up(&mut self)
        requires
            old(self).level < u64::MAX,
        ensures
            *final(self) == (Status { level: (old(self).level + 1) as u64, ..*old(self) }),
    {
        self.level += 1;
    }

    pub fn update_lives(&mut self, lives: usize)
        ensures
            *final(self) == (Status { lives, ..*old(self) }),
    {
        self.lives = lives;
    }

    pub fn add_score(&mut self, score: usize)
        requires
            old(self).score + score <= usize::MAX,
        ensures
            *final(self) == (Status { score: (old(self).score + score) as usize, ..*old(self) }),
    {
        self.score += score;
    }
}

impl Drawable for Status {
    open spec fn fits(&self, cols: int, rows: int) -> bool {
        cols >= 35 && rows >= 1 && self.printable()
    }

    open spec fn drawn(&self, g: Seq<Seq<char>>) -> Seq<Seq<char>> {
        self.level_drawn(self.lives_drawn(self.score_drawn(g)))
    }

    fn draw(&self, frame: &mut Frame) {
        proof {
            reveal_with_fuel(boxed_from, 9);
            reveal_strlit("Score: ");
            reveal_strlit("Lives: ");
            reveal_strlit("Level: ");
        }
        assert(boxed("Score: "@, 7, 1) && boxed("Lives: "@, 7, 1) && boxed("Level: "@, 7, 1));
        draw_sprite(frame, 0, 0, "Score: ");
        put(frame, 7, 0, glyph_of((self.score / 100000) as u64));
        put(frame, 8, 0, glyph_of((self.score / 10000) as u64));
        put(frame, 9, 0, glyph_of((self.score / 1000) as u64));
        put(frame, 10, 0, glyph_of(((self.score / 100) % 10) as u64));
        put(frame, 11, 0, glyph_of(((self.score / 10) % 10) as u64));
        put(frame, 12, 0, glyph_of((self.score % 10) as u64));
        draw_sprite(frame, 15, 0, "Lives: ");
        put(frame, 22, 0, glyph_of((self.lives / 10) as u64));
        put(frame, 23, 0, glyph_of((self.lives % 10) as u64));

        draw_sprite(frame, 26, 0, "Level: ");
        put(frame, 33, 0, glyph_of(self.level / 10));
        put(frame, 34, 0, glyph_of(self.level % 10));
    }
}

} // verus!
