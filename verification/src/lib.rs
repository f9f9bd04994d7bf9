//! A side-scrolling terminal arcade game as a verified library.
//!
//! A bird falls under gravity and is pushed upwards by jumps while a stream
//! of pipes scrolls towards it from the right. Every pipe has a gap; the run
//! ends when the bird touches a pipe or leaves the play area. The library
//! holds the whole simulation, the layout of each frame, the mapping from
//! keys to commands and the text form of the stored best score. Talking to
//! a terminal, a keyboard, a clock or a file is left to the caller.
//!
//! Vertical positions and speeds are fixed-point numbers counted in tenths
//! of a row, so that gravity (0.3 rows per tick) and the jump impulse
//! (1.5 rows per tick upwards) are exact.
//!
//! * [`bird`] and [`pipe`] hold the two kinds of things on the field.
//! * [`rules`] states what a game is and what a tick does to it, over
//!   mathematical models; [`laws`] proves what follows from the rules.
//! * [`game`] is the executable game, tied to the rules by its contracts.
//! * [`render`] and [`text`] lay out a frame as a list of commands.
//! * [`driver`] maps keys to commands and says when a tick is due.
//! * [`highscore`] reads and writes the best score as text.
//! * [`rng`] draws the random numbers.

pub mod bird;
pub mod driver;
pub mod game;
pub mod highscore;
pub mod laws;
pub mod pipe;
pub mod render;
pub mod rng;
pub mod rules;
pub mod text;
