//! The screens of the application.

use vstd::prelude::*;

pub mod list;
pub mod select_dict;
pub mod typing;

verus! {

/// The screen that is shown.
#[derive(Debug, Clone, Copy, PartialEq, Eq, Structural)]
pub enum Screen {
    /// The typing exercise.
    Typing,
    /// The list of dictionaries.
    Dicts,
}

/// A screen that adds entries of its own to the bar of key bindings.
pub trait Opts {
    /// Pairs of a key and what it does.
    fn custom_options() -> Vec<(&'static str, &'static str)>;
}

} // verus!
