//! How the files of a directory are handed to the catalog that they
//! belong to.

use vstd::prelude::*;
use crate::block::Block;
use crate::report::Diagnostic;

verus! {

/// A catalog that is filled from the files under one directory. The caller
/// reads and parses each file and hands over its name and its contents.
pub trait FileHandler {
    /// The catalog is in order.
    spec fn ready(&self) -> bool;

    /// The directory whose files belong to this catalog, relative to the
    /// game directory.
    fn subpath(&self) -> &'static str;

    /// Takes in the definitions of one file and returns what there is to
    /// report of them.
    fn handle_file(&mut self, filename: &str, block: Block) -> (r: Vec<Diagnostic>)
        requires
            old(self).ready(),
        ensures
            final(self).ready(),
    ;
}

} // verus!
