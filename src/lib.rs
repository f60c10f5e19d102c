//! A countdown alarm: duration parsing, a countdown clock, and the
//! integer geometry of the shapes that animate its progress.

pub mod alarm;
pub mod anime;
pub mod app;
pub mod cli;
pub mod duration;
pub mod fps;
pub mod music_player;
mod random;
pub mod ratio;
pub mod shapes;

