//! The core of a terminal typing exercise: a word source that hands out random
//! phrases, a session that matches keystrokes against the phrase on screen, and
//! a counter that turns accepted characters into a typing speed.

pub mod app;
pub mod dict;
pub mod event;
pub mod sample;
pub mod screens;
pub mod text;
pub mod typer;
pub mod words;
pub mod wpm;
