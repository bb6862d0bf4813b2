//! The descriptor of a mod: the `.mod` file that names the mod and says
//! where its files are.

use vstd::prelude::*;
use vstd::string::*;
use crate::block::{Block, field_values};
use crate::report::{Diagnostic, DiagnosticView, ErrorKey, views, warning_view};
use crate::token::Token;

verus! {

/// What a mod's descriptor says.
#[derive(Debug)]
pub struct ModFile {
    pub block: Block,
    /// The path of the descriptor itself.
    pub pathname: String,
    pub name: Option<Token>,
    pub path: Option<Token>,
    pub replace_path: Vec<Token>,
    pub version: Option<Token>,
    pub tags: Option<Vec<Token>>,
    pub supported_version: Option<Token>,
    pub picture: Option<Token>,
}

/// The report that a picture is named that is not the one that is always
/// used.
pub open spec fn picture_ignored(picture: Token) -> DiagnosticView {
    warning_view(
        ErrorKey::Packaging,
        "Steam ignores picture= and always uses thumbnail.png."@,
        picture.loc,
    )
}

/// What a descriptor reports: its picture, where it names one that is not
/// `thumbnail.png`.
pub open spec fn modfile_diags(block: Block) -> Seq<DiagnosticView> {
    match block.spec_field_value("picture"@) {
        Some(picture) => if picture.s@ == "thumbnail.png"@ {
            Seq::empty()
        } else {
            seq![picture_ignored(picture)]
        },
        None => Seq::empty(),
    }
}

/// `Path::parent`: the path without its last part, if it has one. How a
/// path falls into parts depends on the machine, so nothing is said of the
/// result.
#[verifier::external_body]
fn path_parent(pathname: &str) -> (r: Option<String>) {
    match std::path::Path::new(pathname).parent() {
        Some(parent) => Some(parent.to_string_lossy().into_owned()),
        None => None,
    }
}

/// `Path::components`, counted: the number of parts of the path. Nothing
/// is said of the result, for the same reason.
#[verifier::external_body]
fn path_parts(path: &str) -> (r: usize) {
    std::path::Path::new(path).components().count()
}

/// `Path::join`: the path `rel` as seen from the directory `dir`. Nothing
/// is said of the result, for the same reason.
#[verifier::external_body]
fn path_join(dir: &str, rel: &str) -> (r: String) {
    std::path::Path::new(dir).join(rel).to_string_lossy().into_owned()
}

/// The directory of a descriptor, where `parent` is the parent of its path
/// and `parts` the number of parts of that parent: the parent, or `.` where
/// there is none or it has no parts.
pub open spec fn dirpath_of(parent: Option<String>, parts: usize) -> Seq<char> {
    match parent {
        Some(dir) => if parts == 0 {
            "."@
        } else {
            dir@
        },
        None => "."@,
    }
}

/// The directory of a descriptor, where `parent` is the parent of its path
/// and `parts` the number of parts of that parent.
pub fn dirpath_from(parent: Option<String>, parts: usize) -> (r: String)
    ensures
        r@ == dirpath_of(parent, parts),
{
    match parent {
        Some(dir) => {
            if parts == 0 {
                String::from_str(".")
            } else {
                dir
            }
        },
        None => String::from_str("."),
    }
}

/// The directory of a mod's files, where `candidate` is where the
/// descriptor says that they are and `dirpath` is the directory of the
/// descriptor: `candidate` if it is there, else `dirpath`.
pub fn modpath_from(dirpath: String, candidate: String, candidate_exists: bool) -> (r: String)
    ensures
        r == if candidate_exists {
            candidate
        } else {
            dirpath
        },
{
    if candidate_exists {
        candidate
    } else {
        dirpath
    }
}

fn copied(t: Option<&Token>) -> (r: Option<Token>)
    ensures
        r == match t {
            Some(token) => Some(*token),
            None => None,
        },
{
    match t {
        Some(token) => Some(token.clone()),
        None => None,
    }
}

fn validate_modfile(block: Block, pathname: &str) -> (r: (ModFile, Vec<Diagnostic>))
    ensures
        r.0.block == block,
        r.0.pathname@ == pathname@,
        r.0.name == block.spec_field_value("name"@),
        r.0.path == block.spec_field_value("path"@),
        r.0.replace_path@ == field_values(block.v@, "replace_path"@, block.v@.len() as int),
        r.0.version == block.spec_field_value("version"@),
        match r.0.tags {
            Some(tags) => block.spec_field_list("tags"@) == Some(tags@),
            None => block.spec_field_list("tags"@) is None,
        },
        r.0.supported_version == block.spec_field_value("supported_version"@),
        r.0.picture == block.spec_field_value("picture"@),
        views(r.1@) == modfile_diags(block),
{
    let name = copied(block.get_field_value("name"));
    let path = copied(block.get_field_value("path"));
    let replace_path = block.get_field_values("replace_path");
    let version = copied(block.get_field_value("version"));
    let tags = block.get_field_list("tags");
    let supported_version = copied(block.get_field_value("supported_version"));
    let picture = copied(block.get_field_value("picture"));

    let mut reports: Vec<Diagnostic> = Vec::new();
    match &picture {
        Some(p) => {
            if !p.is("thumbnail.png") {
                reports.push(
                    Diagnostic::warning(
                        ErrorKey::Packaging,
                        "Steam ignores picture= and always uses thumbnail.png.",
                        p.loc,
                    ),
                );
            }
        },
        None => {},
    }
    assert(views(reports@) =~= modfile_diags(block));
    let modfile = ModFile {
        block,
        pathname: String::from_str(pathname),
        name,
        path,
        replace_path,
        version,
        tags,
        supported_version,
        picture,
    };
    (modfile, reports)
}

impl ModFile {
    /// Takes in the descriptor that was read from the file `pathname` and
    /// parsed into `block`, and returns what it says and what there is to
    /// report of it.
    pub fn read(pathname: &str, block: Block) -> (r: (ModFile, Vec<Diagnostic>))
        ensures
            r.0.block == block,
            r.0.pathname@ == pathname@,
            r.0.name == block.spec_field_value("name"@),
            r.0.path == block.spec_field_value("path"@),
            r.0.replace_path@ == field_values(block.v@, "replace_path"@, block.v@.len() as int),
            r.0.version == block.spec_field_value("version"@),
            match r.0.tags {
                Some(tags) => block.spec_field_list("tags"@) == Some(tags@),
                None => block.spec_field_list("tags"@) is None,
            },
            r.0.supported_version == block.spec_field_value("supported_version"@),
            r.0.picture == block.spec_field_value("picture"@),
            views(r.1@) == modfile_diags(block),
    {
        validate_modfile(block, pathname)
    }

    /// The directory that the descriptor is in, as the machine reads the
    /// path of the descriptor.
    pub fn dirpath(&self) -> (r: String) {
        let parent = path_parent(self.pathname.as_str());
        let parts = match &parent {
            Some(dir) => path_parts(dir.as_str()),
            None => 0,
        };
        dirpath_from(parent, parts)
    }

    /// Where the descriptor says that the mod's files are, as seen from
    /// the directory of the descriptor: for the caller to see whether it
    /// is there.
    pub fn modpath_candidate(&self) -> (r: String) {
        let dir = self.dirpath();
        match &self.path {
            Some(path) => path_join(dir.as_str(), path.as_str()),
            None => dir,
        }
    }

    /// The directory of the mod's files: where the descriptor says, if
    /// that is there, else the directory of the descriptor.
    pub fn modpath(&self, candidate_exists: bool) -> (r: String) {
        modpath_from(self.dirpath(), self.modpath_candidate(), candidate_exists)
    }
}

} // verus!
