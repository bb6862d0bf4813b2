//! Static validation of block-structured game script: a schema validator
//! for blocks and an algebra of scope types with its link tables.

pub mod block;
pub mod catalog;
pub mod ck3;
pub mod context;
pub mod data;
pub mod db;
pub mod desc;
pub mod everything;
pub mod fileset;
pub mod game;
pub mod helpers;
pub mod imperator;
pub mod item;
pub mod modfile;
pub mod names;
pub mod report;
pub mod scopes;
pub mod text;
pub mod token;
pub mod vic3;
