//! The kinds of thing that Imperator: Rome defines.

pub mod loyalty;
