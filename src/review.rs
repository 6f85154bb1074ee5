use vstd::prelude::*;
use vstd::string::StringExecFns;

use crate::text::{decimal, push_decimal};
use crate::types::opt_view;

verus! {

/// What `Path::file_name` gives for a path, as text.
pub uninterp spec fn file_name_of(path: Seq<char>) -> Option<Seq<char>>;

/// Relies on Path::file_name: the last component of a path, if it is not `..`.
#[verifier::external_body]
fn path_file_name(path: &str) -> (r: Option<String>)
    ensures
        opt_view(r) == file_name_of(path@),
{
    std::path::Path::new(path).file_name().map(|n| n.to_string_lossy().to_string())
}

/// The name a review is saved under, from the repository's directory name.
pub open spec fn review_name_from(repo_name: Option<Seq<char>>, epoch: u64) -> Seq<char> {
    let repo = match repo_name {
        Some(n) => n,
        None => "unknown"@,
    };
    repo + "-"@ + decimal(epoch as nat) + ".md"@
}

/// The name a review of the repository at `repo_path` is saved under.
pub open spec fn review_name(repo_path: Seq<char>, epoch: u64) -> Seq<char> {
    review_name_from(file_name_of(repo_path), epoch)
}

/// The name of the file a review is saved in, from the repository's
/// directory name (`unknown` without one) and the time in seconds.
pub fn review_name_for(repo_name: Option<String>, epoch: u64) -> (r: String)
    ensures
        r@ == review_name_from(opt_view(repo_name), epoch),
{
    let mut name = match repo_name {
        Some(n) => n,
        None => String::from_str("unknown"),
    };
    name.append("-");
    push_decimal(&mut name, epoch);
    name.append(".md");
    name
}

/// The name of the file a review of the repository at `repo_path` is saved in.
pub fn review_file_name(repo_path: &str, epoch: u64) -> (r: String)
    ensures
        r@ == review_name(repo_path@, epoch),
{
    review_name_for(path_file_name(repo_path), epoch)
}

} // verus!
