//! Crab Invaders: the game's rules, its sound synthesis and its save format.
//!
//! `wav` frames PCM samples as a RIFF/WAVE file, `sfx` synthesizes every
//! sound effect and the music loop in fixed-point arithmetic, `powerups`
//! holds the drop table and the timed effects, `menu` the menu stack,
//! `save` the key=value settings file and `game` the run and screen rules.
use vstd::prelude::*;

pub mod tables;
pub mod wav;
pub mod sfx;
pub mod save;
pub mod powerups;
pub mod menu;
pub mod game;

verus! {

} // verus!
