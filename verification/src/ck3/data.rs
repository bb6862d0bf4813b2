//! The kinds of thing that Crusader Kings 3 defines.

pub mod scripted_illustrations;
