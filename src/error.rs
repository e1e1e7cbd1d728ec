use vstd::prelude::*;
use vstd::string::StringExecFns;

verus! {

/// Why a run stopped. Every one of these ends the whole run.
#[derive(Clone, Debug)]
pub enum AnalyzeError {
    /// The given path is neither a file nor a directory.
    PathNotFound { path: String },
    /// A directory's listing could not be read; `reason` tells why.
    DirectoryRead { path: String, reason: String },
    /// A file of a counted kind could not be read as text; `reason` tells why.
    FileRead { path: String, reason: String },
}

/// The words that open the message for a path that is missing.
pub open spec fn missing_path_prefix() -> Seq<char> {
    "路径不存在或无法访问: "@
}

impl AnalyzeError {
    /// The text shown to the user.
    pub open spec fn spec_message(&self) -> Seq<char> {
        match self {
            AnalyzeError::PathNotFound { path } => missing_path_prefix() + path@,
            AnalyzeError::DirectoryRead { reason, .. } => reason@,
            AnalyzeError::FileRead { reason, .. } => reason@,
        }
    }

    /// Builds the text shown to the user: the missing path after a fixed
    /// prefix, or the reason that the read failed.
    pub fn message(&self) -> (r: String)
        ensures
            r@ == self.spec_message(),
    {
        match self {
            AnalyzeError::PathNotFound { path } => {
                let mut m = String::from_str("路径不存在或无法访问: ");
                m.append(path.as_str());
                m
            },
            AnalyzeError::DirectoryRead { reason, .. } => reason.as_str().to_owned(),
            AnalyzeError::FileRead { reason, .. } => reason.as_str().to_owned(),
        }
    }
}

} // verus!
