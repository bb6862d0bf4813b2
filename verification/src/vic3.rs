//! What is particular to Victoria 3.

pub mod scopes;
