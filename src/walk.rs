use vstd::prelude::*;
use vstd::string::StringExecFns;
use crate::error::AnalyzeError;

verus! {

/// How the files under a given path are enumerated.
#[derive(Clone, Copy, Debug, PartialEq, Eq, Structural)]
pub enum Walk {
    /// The path is a file: it is the only candidate.
    OneFile,
    /// The path is a directory: the files directly inside it.
    Listing,
    /// The path is a directory: every file below it, at any depth.
    Tree,
}

/// Decides how to enumerate `path`, given what the file system says it is.
/// A path that is neither a file nor a directory is an error that names it.
pub fn plan_walk(path: &str, is_file: bool, is_dir: bool, recursive: bool) -> (r: Result<
    Walk,
    AnalyzeError,
>)
    ensures
        is_file ==> r == Ok::<Walk, AnalyzeError>(Walk::OneFile),
        !is_file && is_dir && recursive ==> r == Ok::<Walk, AnalyzeError>(Walk::Tree),
        !is_file && is_dir && !recursive ==> r == Ok::<Walk, AnalyzeError>(Walk::Listing),
        !is_file && !is_dir ==> (r matches Err(AnalyzeError::PathNotFound { path: p }) && p@
            == path@),
{
    if is_file {
        Ok(Walk::OneFile)
    } else if is_dir {
        if recursive {
            Ok(Walk::Tree)
        } else {
            Ok(Walk::Listing)
        }
    } else {
        Err(AnalyzeError::PathNotFound { path: String::from_str(path) })
    }
}

} // verus!
