//! A library of English practice sentences with tags, notes and stars, the
//! practice statistics kept beside it, and the state machine of the terminal
//! app that browses, edits and speaks them.
pub mod app;
pub mod clock;
pub mod playlist;
pub mod sentence;
pub mod text;
pub mod ui;
