use vstd::prelude::*;
use vstd::string::StringExecFns;

verus! {

/// A failure of an operation, with the message of its cause.
#[derive(Debug, Clone)]
pub enum AppError {
    /// The version-control engine failed.
    Git(String),
    /// No working tree was found at or above the path.
    RepoNotFound(String),
    /// A file system operation failed.
    Io(String),
    Custom(String),
}

/// The message an error is shown with.
pub open spec fn message_of(e: AppError) -> Seq<char> {
    match e {
        AppError::Git(m) => "Git error: "@ + m@,
        AppError::RepoNotFound(p) => "Repository not found: "@ + p@,
        AppError::Io(m) => "IO error: "@ + m@,
        AppError::Custom(m) => m@,
    }
}

impl AppError {
    /// The message this error is shown with.
    pub fn message(&self) -> (r: String)
        ensures
            r@ == message_of(*self),
    {
        match self {
            AppError::Git(m) => String::from_str("Git error: ").concat(m.as_str()),
            AppError::RepoNotFound(p) => String::from_str("Repository not found: ").concat(p.as_str()),
            AppError::Io(m) => String::from_str("IO error: ").concat(m.as_str()),
            AppError::Custom(m) => m.clone(),
        }
    }
}

} // verus!
