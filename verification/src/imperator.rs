//! What is particular to Imperator: Rome.

pub mod data;
pub mod scopes;
