//! The logic of a terminal countdown timer: reading a duration, keeping the
//! timer's state, deciding what the screen shows, and building the sound that
//! announces the end.
//!
//! Time is counted in whole nanoseconds since the timer started. The library
//! does no input or output; it is handed clock readings and key presses and
//! hands back what is to be drawn, played or sent.

pub mod app;
pub mod clock;
pub mod duration;
pub mod event;
pub mod numeral;
pub mod ratio;
pub mod run;
pub mod screen;
pub mod span;
pub mod style;
pub mod wav;
