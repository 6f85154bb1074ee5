use vstd::prelude::*;
use vstd::string::StringExecFns;

use crate::language::{detect_language, path_language};
use crate::patch::{file_status_of, filed_under, summarize, DeltaKind, DeltaSummary, PatchDelta, PatchLine};
use crate::status::StatusFlags;
use crate::text::{decimal, push_decimal, split_lines, text_lines, trim_text, trimmed};
use crate::types::{
    opt_view, DiffHunk, DiffHunkView, DiffLine, DiffLineView, FileDiff, FileDiffView, FileStatus,
    LineType,
};

verus! {

/// The hunk builder's state: the hunks sealed so far, and the hunk being
/// accumulated (its lines, header and ranges, and the pair of starts that
/// identifies it).
pub ghost struct BuilderView {
    pub hunks: Seq<DiffHunkView>,
    pub lines: Seq<DiffLineView>,
    pub header: Seq<char>,
    pub old_start: u32,
    pub old_lines: u32,
    pub new_start: u32,
    pub new_lines: u32,
    pub last_id: Option<(u32, u32)>,
}

pub open spec fn initial_builder() -> BuilderView {
    BuilderView {
        hunks: Seq::empty(),
        lines: Seq::empty(),
        header: Seq::empty(),
        old_start: 0,
        old_lines: 0,
        new_start: 0,
        new_lines: 0,
        last_id: None,
    }
}

/// The hunk being accumulated.
pub open spec fn current_hunk(st: BuilderView) -> DiffHunkView {
    DiffHunkView {
        header: st.header,
        old_start: st.old_start,
        old_lines: st.old_lines,
        new_start: st.new_start,
        new_lines: st.new_lines,
        lines: st.lines,
    }
}

/// The sealed hunks, with the current one added when it holds any line.
pub open spec fn sealed(st: BuilderView) -> Seq<DiffHunkView> {
    if st.lines.len() > 0 {
        st.hunks.push(current_hunk(st))
    } else {
        st.hunks
    }
}

/// The diff line that a patch line becomes, if its origin is a line's.
pub open spec fn classify(l: PatchLine) -> Option<DiffLineView> {
    if l.origin == '+' {
        Some(
            DiffLineView {
                line_type: LineType::Addition,
                content: l.content@,
                old_line_no: None,
                new_line_no: l.new_lineno,
            },
        )
    } else if l.origin == '-' {
        Some(
            DiffLineView {
                line_type: LineType::Deletion,
                content: l.content@,
                old_line_no: l.old_lineno,
                new_line_no: None,
            },
        )
    } else if l.origin == ' ' {
        Some(
            DiffLineView {
                line_type: LineType::Context,
                content: l.content@,
                old_line_no: l.old_lineno,
                new_line_no: l.new_lineno,
            },
        )
    } else {
        None
    }
}

/// One step of the builder on a line of the target path: a hunk whose pair of
/// starts differs from the active one seals the current hunk and opens its
/// own; then the line, if it is one, joins the current hunk.
pub open spec fn step(st: BuilderView, l: PatchLine) -> BuilderView {
    let opened = match l.hunk {
        Some(h) => if st.last_id != Some((h.old_start, h.new_start)) {
            BuilderView {
                hunks: sealed(st),
                lines: Seq::empty(),
                header: trimmed(h.header@),
                old_start: h.old_start,
                old_lines: h.old_lines,
                new_start: h.new_start,
                new_lines: h.new_lines,
                last_id: Some((h.old_start, h.new_start)),
            }
        } else {
            st
        },
        None => st,
    };
    match classify(l) {
        Some(dl) => BuilderView { lines: opened.lines.push(dl), ..opened },
        None => opened,
    }
}

/// The builder's state after the lines of `lines` that are filed under `path`.
pub open spec fn run(lines: Seq<PatchLine>, path: Seq<char>) -> BuilderView
    decreases lines.len(),
{
    if lines.len() == 0 {
        initial_builder()
    } else {
        let prev = run(lines.drop_last(), path);
        if lines.last().path_spec() == path {
            step(prev, lines.last())
        } else {
            prev
        }
    }
}

/// The hunks of `path` in a patch stream.
pub open spec fn hunks_of(lines: Seq<PatchLine>, path: Seq<char>) -> Seq<DiffHunkView> {
    sealed(run(lines, path))
}

/// The diff of `path` that a patch stream gives.
pub open spec fn parsed_diff(
    deltas: Seq<PatchDelta>,
    lines: Seq<PatchLine>,
    path: Seq<char>,
) -> FileDiffView {
    let s = summarize(deltas, path);
    FileDiffView {
        path: path,
        old_path: s.old_path,
        status: s.status,
        hunks: if s.is_binary {
            Seq::empty()
        } else {
            hunks_of(lines, path)
        },
        is_binary: s.is_binary,
        language: path_language(path),
    }
}

/// Accumulates the lines of one path into hunks.
pub struct HunkBuilder {
    hunks: Vec<DiffHunk>,
    lines: Vec<DiffLine>,
    header: String,
    old_start: u32,
    old_lines: u32,
    new_start: u32,
    new_lines: u32,
    last_id: Option<(u32, u32)>,
}

impl View for HunkBuilder {
    type V = BuilderView;

    closed spec fn view(&self) -> BuilderView {
        BuilderView {
            hunks: self.hunks@.map_values(|h: DiffHunk| h@),
            lines: self.lines@.map_values(|l: DiffLine| l@),
            header: self.header@,
            old_start: self.old_start,
            old_lines: self.old_lines,
            new_start: self.new_start,
            new_lines: self.new_lines,
            last_id: self.last_id,
        }
    }
}

impl HunkBuilder {
    pub fn new() -> (r: HunkBuilder)
        ensures
            r@ == initial_builder(),
    {
        let r = HunkBuilder {
            hunks: Vec::new(),
            lines: Vec::new(),
            header: String::new(),
            old_start: 0,
            old_lines: 0,
            new_start: 0,
            new_lines: 0,
            last_id: None,
        };
        assert(r@.hunks =~= Seq::empty());
        assert(r@.lines =~= Seq::empty());
        r
    }

    /// Moves the current hunk, if it holds any line, to the sealed ones.
    fn seal(&mut self)
        ensures
            final(self)@.hunks == sealed(old(self)@),
            final(self)@.lines == Seq::<DiffLineView>::empty(),
            final(self)@.header == old(self)@.header,
            final(self)@.old_start == old(self)@.old_start,
            final(self)@.old_lines == old(self)@.old_lines,
            final(self)@.new_start == old(self)@.new_start,
            final(self)@.new_lines == old(self)@.new_lines,
            final(self)@.last_id == old(self)@.last_id,
    {
        if self.lines.len() > 0 {
            let mut lines: Vec<DiffLine> = Vec::new();
            core::mem::swap(&mut lines, &mut self.lines);
            let hunk = DiffHunk {
                header: self.header.clone(),
                old_start: self.old_start,
                old_lines: self.old_lines,
                new_start: self.new_start,
                new_lines: self.new_lines,
                lines,
            };
            let ghost before = self.hunks@;
            self.hunks.push(hunk);
            assert(self.hunks@.map_values(|h: DiffHunk| h@) =~= before.map_values(
                |h: DiffHunk| h@,
            ).push(hunk@));
        }
        assert(self@.lines =~= Seq::empty());
    }

    /// Feeds one line of the target path.
    pub fn feed(&mut self, l: &PatchLine)
        ensures
            final(self)@ == step(old(self)@, *l),
    {
        match &l.hunk {
            Some(h) => {
                let same = match self.last_id {
                    Some((a, b)) => a == h.old_start && b == h.new_start,
                    None => false,
                };
                if !same {
                    self.seal();
                    self.header = trim_text(h.header.as_str());
                    self.old_start = h.old_start;
                    self.old_lines = h.old_lines;
                    self.new_start = h.new_start;
                    self.new_lines = h.new_lines;
                    self.last_id = Some((h.old_start, h.new_start));
                }
            },
            None => {},
        }
        let ghost opened = self@;
        let line = if l.origin == '+' {
            Some(
                DiffLine {
                    line_type: LineType::Addition,
                    content: l.content.clone(),
                    old_line_no: None,
                    new_line_no: l.new_lineno,
                },
            )
        } else if l.origin == '-' {
            Some(
                DiffLine {
                    line_type: LineType::Deletion,
                    content: l.content.clone(),
                    old_line_no: l.old_lineno,
                    new_line_no: None,
                },
            )
        } else if l.origin == ' ' {
            Some(
                DiffLine {
                    line_type: LineType::Context,
                    content: l.content.clone(),
                    old_line_no: l.old_lineno,
                    new_line_no: l.new_lineno,
                },
            )
        } else {
            None
        };
        match line {
            Some(dl) => {
                let ghost before = self.lines@;
                self.lines.push(dl);
                assert(self.lines@.map_values(|x: DiffLine| x@) =~= before.map_values(
                    |x: DiffLine| x@,
                ).push(dl@));
            },
            None => {},
        }
    }

    /// The hunks, with the current one sealed.
    pub fn finish(self) -> (r: Vec<DiffHunk>)
        ensures
            r@.map_values(|h: DiffHunk| h@) == sealed(self@),
    {
        let mut b = self;
        b.seal();
        b.hunks
    }
}

/// The diff of `file_path` in a patch stream: status and old path from the
/// deltas filed under it, hunks from its lines unless a delta marks it binary.
pub fn parse_diff(deltas: &Vec<PatchDelta>, lines: &Vec<PatchLine>, file_path: &str) -> (r:
    FileDiff)
    ensures
        r@ == parsed_diff(deltas@, lines@, file_path@),
{
    let mut status = FileStatus::Modified;
    let mut old_path: Option<String> = None;
    let mut is_binary = false;
    let mut i: usize = 0;
    while i < deltas.len()
        invariant
            i <= deltas@.len(),
            summarize(deltas@.take(i as int), file_path@) == (DeltaSummary {
                status: status,
                old_path: opt_view(old_path),
                is_binary: is_binary,
            }),
        decreases deltas@.len() - i,
    {
        let d = &deltas[i];
        assert(deltas@.take(i + 1).drop_last() =~= deltas@.take(i as int));
        if filed_under(&d.new_path, &d.old_path, file_path) {
            is_binary = d.is_binary;
            status = file_status_of(d.kind);
            if d.kind == DeltaKind::Renamed {
                old_path = d.old_path.clone();
            }
        }
        i = i + 1;
    }
    assert(deltas@.take(deltas@.len() as int) =~= deltas@);
    let path = String::from_str(file_path);
    let language = detect_language(file_path);
    if is_binary {
        let r = FileDiff { path, old_path, status, hunks: Vec::new(), is_binary: true, language };
        assert(r@.hunks =~= Seq::empty());
        return r;
    }
    let mut b = HunkBuilder::new();
    let mut j: usize = 0;
    while j < lines.len()
        invariant
            j <= lines@.len(),
            b@ == run(lines@.take(j as int), file_path@),
        decreases lines@.len() - j,
    {
        let l = &lines[j];
        assert(lines@.take(j + 1).drop_last() =~= lines@.take(j as int));
        if filed_under(&l.new_path, &l.old_path, file_path) {
            b.feed(l);
        }
        j = j + 1;
    }
    assert(lines@.take(lines@.len() as int) =~= lines@);
    let hunks = b.finish();
    FileDiff { path, old_path, status, hunks, is_binary: false, language }
}

/// The header of a hunk that adds `n` lines to an empty file.
pub open spec fn addition_header(n: nat) -> Seq<char> {
    "@@ -0,0 +1,"@ + decimal(n) + " @@"@
}

/// The lines of a text as additions numbered from 1, each with a newline.
pub open spec fn addition_lines(lines: Seq<Seq<char>>) -> Seq<DiffLineView> {
    Seq::new(
        lines.len(),
        |i: int|
            DiffLineView {
                line_type: LineType::Addition,
                content: lines[i].push('\n'),
                old_line_no: None,
                new_line_no: Some((i + 1) as u32),
            },
    )
}

/// The diff of a file with no prior content: one hunk adding all its lines.
pub open spec fn synthesized_diff(path: Seq<char>, content: Seq<char>, status: FileStatus) -> FileDiffView {
    let lines = text_lines(content);
    FileDiffView {
        path: path,
        old_path: None,
        status: status,
        hunks: seq![
            DiffHunkView {
                header: addition_header(lines.len()),
                old_start: 0,
                old_lines: 0,
                new_start: 1,
                new_lines: lines.len() as u32,
                lines: addition_lines(lines),
            },
        ],
        is_binary: false,
        language: path_language(path),
    }
}

/// The synthetic diff of a new file, from the lines of its text.
fn synthesize_from_lines(
    file_path: &str,
    texts: Vec<String>,
    Ghost(content): Ghost<Seq<char>>,
    status: FileStatus,
) -> (r: FileDiff)
    requires
        texts@.map_values(|l: String| l@) == text_lines(content),
        text_lines(content).len() <= u32::MAX,
    ensures
        r@ == synthesized_diff(file_path@, content, status),
{
    let ghost ls = text_lines(content);
    assert(texts@.len() == ls.len()) by {
        assert(texts@.map_values(|l: String| l@).len() == texts@.len());
    }
    let n = texts.len();
    let mut lines: Vec<DiffLine> = Vec::new();
    let mut i: usize = 0;
    while i < n
        invariant
            i <= n,
            n == texts@.len(),
            n <= u32::MAX,
            texts@.map_values(|l: String| l@) == ls,
            lines@.map_values(|l: DiffLine| l@) == addition_lines(ls).take(i as int),
        decreases n - i,
    {
        let mut text = texts[i].clone();
        text.append("\n");
        proof {
            reveal_strlit("\n");
            assert(texts@.map_values(|l: String| l@)[i as int] == texts@[i as int]@);
            assert("\n"@ =~= seq!['\n']);
            assert(text@ =~= ls[i as int].push('\n'));
        }
        let ghost before = lines@.map_values(|l: DiffLine| l@);
        lines.push(
            DiffLine {
                line_type: LineType::Addition,
                content: text,
                old_line_no: None,
                new_line_no: Some((i + 1) as u32),
            },
        );
        assert(lines@.map_values(|l: DiffLine| l@) =~= before.push(addition_lines(ls)[i as int]));
        assert(lines@.map_values(|l: DiffLine| l@) =~= addition_lines(ls).take(i + 1));
        i = i + 1;
    }
    assert(addition_lines(ls).take(n as int) =~= addition_lines(ls));
    let mut header = String::from_str("@@ -0,0 +1,");
    push_decimal(&mut header, n as u64);
    header.append(" @@");
    let hunk = DiffHunk {
        header,
        old_start: 0,
        old_lines: 0,
        new_start: 1,
        new_lines: n as u32,
        lines,
    };
    let mut hunks: Vec<DiffHunk> = Vec::new();
    hunks.push(hunk);
    let r = FileDiff {
        path: String::from_str(file_path),
        old_path: None,
        status,
        hunks,
        is_binary: false,
        language: detect_language(file_path),
    };
    assert(r@.hunks =~= synthesized_diff(file_path@, content, status).hunks);
    r
}

/// The diff of a new file at `file_path` whose text is `content`; none when
/// the text has more lines than a line number can count.
pub fn new_file_diff(file_path: &str, content: &str, status: FileStatus) -> (r: Option<FileDiff>)
    ensures
        r is Some <==> text_lines(content@).len() <= u32::MAX,
        r is Some ==> r->0@ == synthesized_diff(file_path@, content@, status),
{
    let texts = split_lines(content);
    if texts.len() > 0xFFFF_FFFF {
        return None;
    }
    Some(synthesize_from_lines(file_path, texts, Ghost(content@), status))
}

/// The diff of a new file at `file_path` whose text is `content`.
pub fn create_new_file_diff(file_path: &str, content: &str, status: FileStatus) -> (r: FileDiff)
    requires
        text_lines(content@).len() <= u32::MAX,
    ensures
        r@ == synthesized_diff(file_path@, content@, status),
{
    let texts = split_lines(content);
    synthesize_from_lines(file_path, texts, Ghost(content@), status)
}

/// The status of a path on one axis, as a single-file diff sees it.
pub open spec fn axis_status_spec(f: StatusFlags, staged: bool) -> FileStatus {
    if staged {
        if f.index_new {
            FileStatus::Added
        } else if f.index_deleted {
            FileStatus::Deleted
        } else {
            FileStatus::Modified
        }
    } else if f.wt_new {
        FileStatus::Untracked
    } else if f.wt_deleted {
        FileStatus::Deleted
    } else {
        FileStatus::Modified
    }
}

/// The status of a path on the staged axis, or on the unstaged one.
pub fn axis_status(f: &StatusFlags, staged: bool) -> (r: FileStatus)
    ensures
        r == axis_status_spec(*f, staged),
{
    if staged {
        if f.index_new {
            FileStatus::Added
        } else if f.index_deleted {
            FileStatus::Deleted
        } else {
            FileStatus::Modified
        }
    } else if f.wt_new {
        FileStatus::Untracked
    } else if f.wt_deleted {
        FileStatus::Deleted
    } else {
        FileStatus::Modified
    }
}

/// Whether a parsed diff may stand for a new file: it has no hunk and is not binary.
pub fn needs_status_check(d: &FileDiff) -> (r: bool)
    ensures
        r == (d@.hunks.len() == 0 && !d@.is_binary),
{
    d.hunks.len() == 0 && !d.is_binary
}

/// The status under which a path without hunks gets a synthetic diff: only a
/// path added to the index, or untracked, has one.
pub fn synthesis_status(f: &StatusFlags, staged: bool) -> (r: Option<FileStatus>)
    ensures
        r == (if axis_status_spec(*f, staged) == FileStatus::Added || axis_status_spec(*f, staged)
            == FileStatus::Untracked {
            Some(axis_status_spec(*f, staged))
        } else {
            None
        }),
{
    let st = axis_status(f, staged);
    if st == FileStatus::Added || st == FileStatus::Untracked {
        Some(st)
    } else {
        None
    }
}

/// What was fetched for a path that parsed to no hunks: its status flags
/// (none where the lookup failed) and, for a new file, its text (none where
/// it was not read or could not be read).
#[derive(Debug, Clone)]
pub struct NewFileProbe {
    pub flags: Option<StatusFlags>,
    pub content: Option<String>,
}

pub open spec fn opt_probe(o: Option<&NewFileProbe>) -> Option<NewFileProbe> {
    match o {
        Some(p) => Some(*p),
        None => None,
    }
}

/// The diff of `path` in a stream whose lines may not have been readable:
/// without lines only a binary path has a diff.
pub open spec fn stream_diff(
    deltas: Seq<PatchDelta>,
    lines: Option<Seq<PatchLine>>,
    path: Seq<char>,
) -> Option<FileDiffView> {
    match lines {
        Some(l) => Some(parsed_diff(deltas, l, path)),
        None => if summarize(deltas, path).is_binary {
            Some(parsed_diff(deltas, Seq::empty(), path))
        } else {
            None
        },
    }
}

/// The diff of `file_path` in a stream; none where the lines were not
/// readable and the path is not binary.
pub fn parse_stream(deltas: &Vec<PatchDelta>, lines: &Option<Vec<PatchLine>>, file_path: &str) -> (r:
    Option<FileDiff>)
    ensures
        match r {
            Some(d) => stream_diff(deltas@, crate::combine::opt_lines(*lines), file_path@) == Some(d@),
            None => stream_diff(deltas@, crate::combine::opt_lines(*lines), file_path@) is None,
        },
{
    match lines {
        Some(l) => Some(parse_diff(deltas, l, file_path)),
        None => {
            let empty: Vec<PatchLine> = Vec::new();
            let d = parse_diff(deltas, &empty, file_path);
            if d.is_binary {
                Some(d)
            } else {
                None
            }
        },
    }
}

/// The diff of a path once a parse without hunks is checked against its
/// status: a path added to the index, or untracked, gets its synthetic diff.
/// None where a lookup or the read that this needs failed.
pub open spec fn built_diff(parsed: FileDiffView, probe: Option<NewFileProbe>, staged: bool) -> Option<
    FileDiffView,
> {
    if !(parsed.hunks.len() == 0 && !parsed.is_binary) {
        Some(parsed)
    } else {
        match probe {
            None => None,
            Some(p) => match p.flags {
                None => None,
                Some(f) => {
                    let st = axis_status_spec(f, staged);
                    if st == FileStatus::Added || st == FileStatus::Untracked {
                        match p.content {
                            Some(c) => if text_lines(c@).len() <= u32::MAX {
                                Some(synthesized_diff(parsed.path, c@, st))
                            } else {
                                None
                            },
                            None => None,
                        }
                    } else {
                        Some(parsed)
                    }
                },
            },
        }
    }
}

/// Completes a parsed diff with what was fetched for its path.
pub fn finish_file_diff(parsed: FileDiff, probe: Option<&NewFileProbe>, staged: bool) -> (r: Option<
    FileDiff,
>)
    ensures
        match r {
            Some(d) => built_diff(parsed@, opt_probe(probe), staged) == Some(d@),
            None => built_diff(parsed@, opt_probe(probe), staged) is None,
        },
{
    if !needs_status_check(&parsed) {
        return Some(parsed);
    }
    match probe {
        None => None,
        Some(p) => match &p.flags {
            None => None,
            Some(f) => match synthesis_status(f, staged) {
                None => Some(parsed),
                Some(st) => match &p.content {
                    Some(c) => new_file_diff(parsed.path.as_str(), c.as_str(), st),
                    None => None,
                },
            },
        },
    }
}

/// The engine numbered the lines of one group as their origin asks: with
/// `changes`, an added line on the new side and a deleted line on the old
/// side; without, a context line on both.
pub open spec fn engine_numbered(l: PatchLine, changes: bool) -> bool {
    if changes {
        &&& l.origin == '+' ==> l.new_lineno is Some
        &&& l.origin == '-' ==> l.old_lineno is Some
    } else {
        l.origin == ' ' ==> l.old_lineno is Some && l.new_lineno is Some
    }
}

/// A line of the group is numbered as its type asks: with `changes`, an
/// addition only on the new side and a deletion only on the old side;
/// without, a context line on both.
pub open spec fn line_numbered(l: DiffLineView, changes: bool) -> bool {
    if changes {
        &&& l.line_type == LineType::Addition ==> l.old_line_no is None && l.new_line_no is Some
        &&& l.line_type == LineType::Deletion ==> l.old_line_no is Some && l.new_line_no is None
    } else {
        l.line_type == LineType::Context ==> l.old_line_no is Some && l.new_line_no is Some
    }
}

pub open spec fn hunks_numbered(hunks: Seq<DiffHunkView>, changes: bool) -> bool {
    forall|h: int, j: int|
        0 <= h < hunks.len() && 0 <= j < hunks[h].lines.len() ==> line_numbered(
            #[trigger] hunks[h].lines[j],
            changes,
        )
}

pub open spec fn builder_numbered(st: BuilderView, changes: bool) -> bool {
    &&& hunks_numbered(st.hunks, changes)
    &&& forall|j: int| 0 <= j < st.lines.len() ==> line_numbered(#[trigger] st.lines[j], changes)
}

proof fn lemma_sealed_numbered(st: BuilderView, changes: bool)
    requires
        builder_numbered(st, changes),
    ensures
        hunks_numbered(sealed(st), changes),
{
    if st.lines.len() > 0 {
        let r = st.hunks.push(current_hunk(st));
        assert forall|h: int, j: int|
            0 <= h < r.len() && 0 <= j < r[h].lines.len() implies line_numbered(
            #[trigger] r[h].lines[j],
            changes,
        ) by {
            if h < st.hunks.len() {
                assert(r[h] == st.hunks[h]);
            }
        }
    }
}

proof fn lemma_run_numbered(lines: Seq<PatchLine>, path: Seq<char>, changes: bool)
    requires
        forall|k: int| 0 <= k < lines.len() ==> engine_numbered(#[trigger] lines[k], changes),
    ensures
        builder_numbered(run(lines, path), changes),
    decreases lines.len(),
{
    if lines.len() > 0 {
        let init = lines.drop_last();
        assert forall|k: int| 0 <= k < init.len() implies engine_numbered(#[trigger] init[k], changes) by {
            assert(init[k] == lines[k]);
        }
        lemma_run_numbered(init, path, changes);
        let prev = run(init, path);
        let l = lines.last();
        assert(engine_numbered(lines[lines.len() - 1], changes));
        if l.path_spec() == path {
            lemma_sealed_numbered(prev, changes);
            let r = step(prev, l);
            assert forall|j: int| 0 <= j < r.lines.len() implies line_numbered(
                #[trigger] r.lines[j],
                changes,
            ) by {}
        }
    }
}

/// Every addition of a parsed diff has only a new line number and every
/// deletion only an old one, given that the engine numbered added lines on
/// the new side and deleted lines on the old side.
pub proof fn lemma_parsed_changes_numbered(
    deltas: Seq<PatchDelta>,
    lines: Seq<PatchLine>,
    path: Seq<char>,
)
    requires
        forall|k: int| 0 <= k < lines.len() ==> engine_numbered(#[trigger] lines[k], true),
    ensures
        hunks_numbered(parsed_diff(deltas, lines, path).hunks, true),
{
    lemma_run_numbered(lines, path, true);
    lemma_sealed_numbered(run(lines, path), true);
}

/// Every context line of a parsed diff has both line numbers, given that the
/// engine numbered context lines on both sides.
pub proof fn lemma_parsed_context_numbered(
    deltas: Seq<PatchDelta>,
    lines: Seq<PatchLine>,
    path: Seq<char>,
)
    requires
        forall|k: int| 0 <= k < lines.len() ==> engine_numbered(#[trigger] lines[k], false),
    ensures
        hunks_numbered(parsed_diff(deltas, lines, path).hunks, false),
{
    lemma_run_numbered(lines, path, false);
    lemma_sealed_numbered(run(lines, path), false);
}

/// Parsing is a function of the stream: two parses of one stream give the
/// same hunks and lines, and sealing a sealed builder again changes nothing.
pub proof fn lemma_parse_deterministic(
    deltas: &Vec<PatchDelta>,
    lines: &Vec<PatchLine>,
    path: &str,
    first: FileDiff,
    second: FileDiff,
)
    requires
        first@ == parsed_diff(deltas@, lines@, path@),
        second@ == parsed_diff(deltas@, lines@, path@),
    ensures
        first@.hunks == second@.hunks,
        sealed(BuilderView { hunks: sealed(run(lines@, path@)), lines: Seq::empty(), ..run(lines@, path@) })
            == sealed(run(lines@, path@)),
{
}

/// A synthetic diff is one hunk from nothing to the file's lines, each an
/// addition numbered on the new side only.
pub proof fn lemma_synthesized_shape(path: Seq<char>, content: Seq<char>, status: FileStatus)
    requires
        text_lines(content).len() <= u32::MAX,
    ensures
        synthesized_diff(path, content, status).hunks.len() == 1,
        synthesized_diff(path, content, status).hunks[0].old_start == 0,
        synthesized_diff(path, content, status).hunks[0].old_lines == 0,
        synthesized_diff(path, content, status).hunks[0].new_start == 1,
        synthesized_diff(path, content, status).hunks[0].new_lines as nat == text_lines(content).len(),
        synthesized_diff(path, content, status).hunks[0].lines.len() == text_lines(content).len(),
        hunks_numbered(synthesized_diff(path, content, status).hunks, true),
        synthesized_diff(path, content, status).hunks[0].header == addition_header(
            text_lines(content).len(),
        ),
{
    let d = synthesized_diff(path, content, status);
    assert forall|h: int, j: int|
        0 <= h < d.hunks.len() && 0 <= j < d.hunks[h].lines.len() implies line_numbered(
        #[trigger] d.hunks[h].lines[j],
        true,
    ) by {}
}

/// A path that the deltas mark binary has no hunks, whatever the lines.
pub proof fn lemma_binary_no_hunks(deltas: Seq<PatchDelta>, lines: Seq<PatchLine>, path: Seq<char>)
    requires
        summarize(deltas, path).is_binary,
    ensures
        parsed_diff(deltas, lines, path).is_binary,
        parsed_diff(deltas, lines, path).hunks.len() == 0,
        parsed_diff(deltas, lines, path).well_formed(),
{
}

} // verus!
