use vstd::prelude::*;

use crate::types::{opt_view, FileStatus};

verus! {

/// The kind of a file-level change reported by a comparison.
#[derive(Debug, Clone, Copy, PartialEq, Eq, Structural)]
pub enum DeltaKind {
    Added,
    Deleted,
    Modified,
    Renamed,
    Copied,
    Other,
}

/// One file-level change record of a comparison.
#[derive(Debug, Clone)]
pub struct PatchDelta {
    pub new_path: Option<String>,
    pub old_path: Option<String>,
    pub kind: DeltaKind,
    pub is_binary: bool,
}

/// A hunk boundary as the engine reports it; `header` is untrimmed.
#[derive(Debug, Clone)]
pub struct PatchHunk {
    pub header: String,
    pub old_start: u32,
    pub old_lines: u32,
    pub new_start: u32,
    pub new_lines: u32,
}

/// One line event of a patch stream, with the paths of the delta it
/// belongs to and the hunk it falls in, if any.
#[derive(Debug, Clone)]
pub struct PatchLine {
    pub new_path: Option<String>,
    pub old_path: Option<String>,
    pub hunk: Option<PatchHunk>,
    pub origin: char,
    pub content: String,
    pub old_lineno: Option<u32>,
    pub new_lineno: Option<u32>,
}

/// The path a change is filed under: the new path, else the old one, else empty.
pub open spec fn resolved_path(new_path: Option<String>, old_path: Option<String>) -> Seq<char> {
    match new_path {
        Some(p) => p@,
        None => match old_path {
            Some(p) => p@,
            None => Seq::empty(),
        },
    }
}

impl PatchDelta {
    pub open spec fn path_spec(&self) -> Seq<char> {
        resolved_path(self.new_path, self.old_path)
    }

    /// The path this change is filed under.
    pub fn path(&self) -> (r: String)
        ensures
            r@ == self.path_spec(),
    {
        resolve_path(&self.new_path, &self.old_path)
    }
}

impl PatchLine {
    pub open spec fn path_spec(&self) -> Seq<char> {
        resolved_path(self.new_path, self.old_path)
    }
}

/// The path a change is filed under.
pub fn resolve_path(new_path: &Option<String>, old_path: &Option<String>) -> (r: String)
    ensures
        r@ == resolved_path(*new_path, *old_path),
{
    match new_path {
        Some(p) => p.clone(),
        None => match old_path {
            Some(p) => p.clone(),
            None => String::new(),
        },
    }
}

/// Whether the change is filed under `path`.
pub fn filed_under(new_path: &Option<String>, old_path: &Option<String>, path: &str) -> (r: bool)
    ensures
        r == (resolved_path(*new_path, *old_path) == path@),
{
    let p = resolve_path(new_path, old_path);
    let q = path.to_owned();
    p.eq(&q)
}

/// The file status that a delta kind maps to.
pub open spec fn status_of_kind(k: DeltaKind) -> FileStatus {
    match k {
        DeltaKind::Added => FileStatus::Added,
        DeltaKind::Deleted => FileStatus::Deleted,
        DeltaKind::Renamed => FileStatus::Renamed,
        DeltaKind::Copied => FileStatus::Copied,
        DeltaKind::Modified | DeltaKind::Other => FileStatus::Modified,
    }
}

/// The file status that a delta kind maps to.
pub fn file_status_of(k: DeltaKind) -> (r: FileStatus)
    ensures
        r == status_of_kind(k),
{
    match k {
        DeltaKind::Added => FileStatus::Added,
        DeltaKind::Deleted => FileStatus::Deleted,
        DeltaKind::Renamed => FileStatus::Renamed,
        DeltaKind::Copied => FileStatus::Copied,
        DeltaKind::Modified | DeltaKind::Other => FileStatus::Modified,
    }
}

/// What the deltas filed under one path say of it: the status of the last of
/// them, its binary flag, and the old path of the last rename among them.
pub ghost struct DeltaSummary {
    pub status: FileStatus,
    pub old_path: Option<Seq<char>>,
    pub is_binary: bool,
}

pub open spec fn summarize(deltas: Seq<PatchDelta>, path: Seq<char>) -> DeltaSummary
    decreases deltas.len(),
{
    if deltas.len() == 0 {
        DeltaSummary { status: FileStatus::Modified, old_path: None, is_binary: false }
    } else {
        let prev = summarize(deltas.drop_last(), path);
        let d = deltas.last();
        if d.path_spec() != path {
            prev
        } else {
            DeltaSummary {
                status: status_of_kind(d.kind),
                old_path: if d.kind == DeltaKind::Renamed {
                    opt_view(d.old_path)
                } else {
                    prev.old_path
                },
                is_binary: d.is_binary,
            }
        }
    }
}

} // verus!
