//! Timed lyrics: a parser for timestamped lyric lines and the schedulers
//! that decide when each line is shown during playback.
//!
//! - [`parser`] turns source lines of the shape `[MM:SS]text` or
//!   `[MM:SS.ff]text` into a [`track::LyricTrack`]; [`format`] states what it
//!   makes of well-formed lines.
//! - [`scheduler`] decides when each line of a track is due against a clock
//!   of elapsed playback time; [`fallback`] paces lines that carry no
//!   timestamps; [`session`] picks between the two.
//! - [`text`] and [`timestamp`] hold the character-level reading that the
//!   parser is built on.
//!
//! The schedulers are state machines. They never sleep, print or read a
//! clock: the caller hands in clock readings and carries out each
//! [`action::Action`] it gets back.

pub mod action;
pub mod fallback;
pub mod format;
pub mod parser;
pub mod scheduler;
pub mod session;
pub mod text;
pub mod timestamp;
pub mod track;
