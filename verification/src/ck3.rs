//! What is particular to Crusader Kings 3.

pub mod data;
pub mod scopes;
