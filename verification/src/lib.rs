//! A fixed-grid arcade shooter engine: a formation of invaders descends on a
//! single player ship, both sides fire shots, and every frame is drawn into a
//! character grid that a differential renderer turns into terminal writes.
//!
//! Everything here is pure simulation. Time enters as elapsed nanoseconds,
//! input as a list of intents, and the results leave as values: sound cues,
//! an outcome for the frame loop, and the list of cells to rewrite.

pub mod army;
pub mod frame;
pub mod game;
pub mod invader;
pub mod player;
pub mod render;
pub mod shot;
pub mod status;
pub mod timer;

use vstd::prelude::*;

verus! {

/// Height of the playfield in rows.
pub const NUM_ROWS: usize = 24;

/// Width of the playfield in columns.
pub const NUM_COLS: usize = 80;

} // verus!
