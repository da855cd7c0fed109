//! A terminal countdown timer, as a library.
//!
//! - [`duration`] reads the duration to count down from, as `M:SS` or `SS`.
//! - [`timer`] is the countdown itself: a state machine driven by commands
//!   and by the readings of a clock that the caller supplies.
//! - [`clock`] writes the time left as `MM:SS`, and [`glyphs`] holds the font
//!   that [`ui`] draws it with in big digits.
//! - [`input`] binds keys to commands.
//! - [`ui`] holds the state of the program, decides what is on the screen,
//!   and takes one turn of the event loop at a time.
//! - [`notification`] says what the user is told when the countdown is over.
//!
//! Nothing here touches a terminal, a clock or a desktop: the library works
//! on plain values, and every function states what it returns.

pub mod clock;
pub mod duration;
pub mod glyphs;
pub mod input;
pub mod notification;
mod text;
pub mod timer;
pub mod ui;
