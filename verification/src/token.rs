//! Source locations and the scalar tokens of a parsed script file.

use vstd::prelude::*;
use vstd::string::*;
use crate::text::str_eq;

verus! {

/// Where a file comes from. The base game ranks below a mod laid over it.
#[derive(Clone, Copy, Debug, PartialEq, Eq, Hash, Structural)]
pub enum FileKind {
    Vanilla,
    Mod,
}

impl FileKind {
    /// The provenance rank: a larger number takes precedence.
    pub open spec fn rank(self) -> nat {
        match self {
            FileKind::Vanilla => 0,
            FileKind::Mod => 1,
        }
    }

    /// The provenance rank as a number.
    pub fn rank_number(self) -> (r: u8)
        ensures
            r == self.rank(),
    {
        match self {
            FileKind::Vanilla => 0,
            FileKind::Mod => 1,
        }
    }
}

/// A position in a source file. `file` numbers the file in the caller's
/// table of loaded files.
#[derive(Clone, Copy, Debug, PartialEq, Eq, Hash, Structural)]
pub struct Loc {
    pub kind: FileKind,
    pub file: u32,
    pub line: u32,
    pub column: u32,
}

impl Loc {
    pub fn new(kind: FileKind, file: u32, line: u32, column: u32) -> (loc: Loc)
        ensures
            loc == (Loc { kind, file, line, column }),
    {
        Loc { kind, file, line, column }
    }
}

/// A scalar of the script with the place it was read from.
#[derive(Debug, PartialEq, Eq)]
pub struct Token {
    pub s: String,
    pub loc: Loc,
}

impl Token {
    pub fn new(s: &str, loc: Loc) -> (t: Token)
        ensures
            t.s@ == s@,
            t.loc == loc,
    {
        Token { s: String::from_str(s), loc }
    }

    pub fn as_str(&self) -> (r: &str)
        ensures
            r@ == self.s@,
    {
        self.s.as_str()
    }

    /// Whether the token's text is exactly `name`.
    pub fn is(&self, name: &str) -> (r: bool)
        ensures
            r == (self.s@ == name@),
    {
        str_eq(self.s.as_str(), name)
    }
}

impl Clone for Token {
    fn clone(&self) -> (t: Token)
        ensures
            t == *self,
    {
        Token { s: self.s.clone(), loc: self.loc }
    }
}

} // verus!
