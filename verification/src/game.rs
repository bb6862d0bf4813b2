//! The games whose script is understood. One is chosen when a run starts
//! and handed to everything that depends on the vocabulary.

use vstd::prelude::*;

verus! {

#[derive(Clone, Copy, Debug, PartialEq, Eq, Hash, Structural)]
pub enum Game {
    Ck3,
    Vic3,
    Imperator,
}

} // verus!
