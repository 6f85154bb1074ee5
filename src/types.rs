use vstd::prelude::*;

verus! {

/// The nature of a change to one path, relative to one comparison axis.
#[derive(Debug, Clone, Copy, PartialEq, Eq, Structural)]
pub enum FileStatus {
    Modified,
    Added,
    Deleted,
    Renamed,
    Copied,
    Untracked,
    Ignored,
    Conflicted,
}

/// One path's state in exactly one axis (staged or unstaged).
#[derive(Debug, Clone)]
pub struct FileEntry {
    pub path: String,
    pub status: FileStatus,
    pub staged: bool,
    pub old_path: Option<String>,
}

#[derive(Debug, Clone, Copy, PartialEq, Eq, Structural)]
pub enum LineType {
    Context,
    Addition,
    Deletion,
    Header,
}

/// One line of a hunk; `content` keeps its trailing newline when it had one.
#[derive(Debug, Clone)]
pub struct DiffLine {
    pub line_type: LineType,
    pub content: String,
    pub old_line_no: Option<u32>,
    pub new_line_no: Option<u32>,
}

/// A contiguous block of a unified diff.
#[derive(Debug, Clone)]
pub struct DiffHunk {
    pub header: String,
    pub old_start: u32,
    pub old_lines: u32,
    pub new_start: u32,
    pub new_lines: u32,
    pub lines: Vec<DiffLine>,
}

/// The diff of one path.
#[derive(Debug, Clone)]
pub struct FileDiff {
    pub path: String,
    pub old_path: Option<String>,
    pub status: FileStatus,
    pub hunks: Vec<DiffHunk>,
    pub is_binary: bool,
    pub language: Option<String>,
}

/// The status of a working tree: one entry per path and axis, sorted by path.
#[derive(Debug, Clone)]
pub struct RepositoryStatus {
    pub path: String,
    pub branch: Option<String>,
    pub files: Vec<FileEntry>,
    pub staged_count: usize,
    pub unstaged_count: usize,
}

pub ghost struct FileEntryView {
    pub path: Seq<char>,
    pub status: FileStatus,
    pub staged: bool,
    pub old_path: Option<Seq<char>>,
}

pub ghost struct DiffLineView {
    pub line_type: LineType,
    pub content: Seq<char>,
    pub old_line_no: Option<u32>,
    pub new_line_no: Option<u32>,
}

pub ghost struct DiffHunkView {
    pub header: Seq<char>,
    pub old_start: u32,
    pub old_lines: u32,
    pub new_start: u32,
    pub new_lines: u32,
    pub lines: Seq<DiffLineView>,
}

pub ghost struct FileDiffView {
    pub path: Seq<char>,
    pub old_path: Option<Seq<char>>,
    pub status: FileStatus,
    pub hunks: Seq<DiffHunkView>,
    pub is_binary: bool,
    pub language: Option<Seq<char>>,
}

pub ghost struct RepositoryStatusView {
    pub path: Seq<char>,
    pub branch: Option<Seq<char>>,
    pub files: Seq<FileEntryView>,
    pub staged_count: nat,
    pub unstaged_count: nat,
}

/// The view of an optional string.
pub open spec fn opt_view(o: Option<String>) -> Option<Seq<char>> {
    match o {
        Some(s) => Some(s@),
        None => None,
    }
}

impl View for FileEntry {
    type V = FileEntryView;

    open spec fn view(&self) -> FileEntryView {
        FileEntryView {
            path: self.path@,
            status: self.status,
            staged: self.staged,
            old_path: opt_view(self.old_path),
        }
    }
}

impl View for DiffLine {
    type V = DiffLineView;

    open spec fn view(&self) -> DiffLineView {
        DiffLineView {
            line_type: self.line_type,
            content: self.content@,
            old_line_no: self.old_line_no,
            new_line_no: self.new_line_no,
        }
    }
}

impl View for DiffHunk {
    type V = DiffHunkView;

    open spec fn view(&self) -> DiffHunkView {
        DiffHunkView {
            header: self.header@,
            old_start: self.old_start,
            old_lines: self.old_lines,
            new_start: self.new_start,
            new_lines: self.new_lines,
            lines: self.lines@.map_values(|l: DiffLine| l@),
        }
    }
}

impl View for FileDiff {
    type V = FileDiffView;

    open spec fn view(&self) -> FileDiffView {
        FileDiffView {
            path: self.path@,
            old_path: opt_view(self.old_path),
            status: self.status,
            hunks: self.hunks@.map_values(|h: DiffHunk| h@),
            is_binary: self.is_binary,
            language: opt_view(self.language),
        }
    }
}

impl View for RepositoryStatus {
    type V = RepositoryStatusView;

    open spec fn view(&self) -> RepositoryStatusView {
        RepositoryStatusView {
            path: self.path@,
            branch: opt_view(self.branch),
            files: self.files@.map_values(|f: FileEntry| f@),
            staged_count: self.staged_count as nat,
            unstaged_count: self.unstaged_count as nat,
        }
    }
}

impl FileDiffView {
    /// A binary diff has no hunks.
    pub open spec fn well_formed(self) -> bool {
        self.is_binary ==> self.hunks.len() == 0
    }
}

} // verus!
