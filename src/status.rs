use vstd::prelude::*;

use crate::text::{
    chars_lt, chars_of, lemma_text_lt_irreflexive, lemma_text_lt_total,
    lemma_text_lt_transitive, text_lt,
};
use crate::types::{opt_view, FileEntry, FileEntryView, FileStatus, RepositoryStatus};

verus! {

/// The change flags of one path on both axes, as the engine reports them.
#[derive(Debug, Clone, Copy, PartialEq, Eq, Structural)]
pub struct StatusFlags {
    pub index_new: bool,
    pub index_modified: bool,
    pub index_deleted: bool,
    pub index_renamed: bool,
    pub wt_new: bool,
    pub wt_modified: bool,
    pub wt_deleted: bool,
    pub wt_renamed: bool,
}

/// One path of a status enumeration; `renamed_from` is the source of a rename
/// detected between the committed tree and the index.
#[derive(Debug, Clone)]
pub struct StatusEntry {
    pub path: String,
    pub flags: StatusFlags,
    pub renamed_from: Option<String>,
}

/// The staged change of a path, if any.
pub open spec fn staged_change(f: StatusFlags) -> Option<FileStatus> {
    if f.index_new {
        Some(FileStatus::Added)
    } else if f.index_deleted {
        Some(FileStatus::Deleted)
    } else if f.index_renamed {
        Some(FileStatus::Renamed)
    } else if f.index_modified {
        Some(FileStatus::Modified)
    } else {
        None
    }
}

/// The unstaged change of a path, if any.
pub open spec fn unstaged_change(f: StatusFlags) -> Option<FileStatus> {
    if f.wt_new {
        Some(FileStatus::Untracked)
    } else if f.wt_deleted {
        Some(FileStatus::Deleted)
    } else if f.wt_renamed {
        Some(FileStatus::Renamed)
    } else if f.wt_modified {
        Some(FileStatus::Modified)
    } else {
        None
    }
}

impl StatusFlags {
    pub fn staged_status(&self) -> (r: Option<FileStatus>)
        ensures
            r == staged_change(*self),
    {
        if self.index_new {
            Some(FileStatus::Added)
        } else if self.index_deleted {
            Some(FileStatus::Deleted)
        } else if self.index_renamed {
            Some(FileStatus::Renamed)
        } else if self.index_modified {
            Some(FileStatus::Modified)
        } else {
            None
        }
    }

    pub fn unstaged_status(&self) -> (r: Option<FileStatus>)
        ensures
            r == unstaged_change(*self),
    {
        if self.wt_new {
            Some(FileStatus::Untracked)
        } else if self.wt_deleted {
            Some(FileStatus::Deleted)
        } else if self.wt_renamed {
            Some(FileStatus::Renamed)
        } else if self.wt_modified {
            Some(FileStatus::Modified)
        } else {
            None
        }
    }
}

/// The staged entry of a path; it carries the rename source only when renamed.
pub open spec fn staged_entry(e: StatusEntry, st: FileStatus) -> FileEntryView {
    FileEntryView {
        path: e.path@,
        status: st,
        staged: true,
        old_path: if st == FileStatus::Renamed {
            opt_view(e.renamed_from)
        } else {
            None
        },
    }
}

/// The index of the first unstaged entry of `path` at or after `i`, or -1.
pub open spec fn unstaged_index(s: Seq<FileEntryView>, path: Seq<char>, i: int) -> int
    decreases s.len() - i,
{
    if i < 0 || i >= s.len() {
        -1
    } else if s[i].path == path && !s[i].staged {
        i
    } else {
        unstaged_index(s, path, i + 1)
    }
}

/// Records an unstaged change: in place when the path has an unstaged entry,
/// else as a new entry.
pub open spec fn add_unstaged(s: Seq<FileEntryView>, path: Seq<char>, st: FileStatus) -> Seq<
    FileEntryView,
> {
    let k = unstaged_index(s, path, 0);
    if k >= 0 {
        s.update(k, FileEntryView { status: st, ..s[k] })
    } else {
        s.push(FileEntryView { path: path, status: st, staged: false, old_path: None })
    }
}

pub open spec fn merge_entry(s: Seq<FileEntryView>, e: StatusEntry) -> Seq<FileEntryView> {
    let with_staged = match staged_change(e.flags) {
        Some(st) => s.push(staged_entry(e, st)),
        None => s,
    };
    match unstaged_change(e.flags) {
        Some(st) => add_unstaged(with_staged, e.path@, st),
        None => with_staged,
    }
}

/// The entries of a status enumeration, in the order they are recorded.
pub open spec fn merged(entries: Seq<StatusEntry>) -> Seq<FileEntryView>
    decreases entries.len(),
{
    if entries.len() == 0 {
        Seq::empty()
    } else {
        merge_entry(merged(entries.drop_last()), entries.last())
    }
}

/// Inserts `e` after every entry whose path does not come after its own.
pub open spec fn insert_by_path(s: Seq<FileEntryView>, e: FileEntryView) -> Seq<FileEntryView>
    decreases s.len(),
{
    if s.len() == 0 {
        seq![e]
    } else if text_lt(e.path, s[0].path) {
        seq![e] + s
    } else {
        seq![s[0]] + insert_by_path(s.drop_first(), e)
    }
}

/// The stable sort of entries by path.
pub open spec fn sort_by_path(s: Seq<FileEntryView>) -> Seq<FileEntryView>
    decreases s.len(),
{
    if s.len() == 0 {
        Seq::empty()
    } else {
        insert_by_path(sort_by_path(s.drop_last()), s.last())
    }
}

pub open spec fn sorted_by_path(s: Seq<FileEntryView>) -> bool {
    forall|i: int, j: int| 0 <= i < j < s.len() ==> !text_lt(#[trigger] s[j].path, #[trigger] s[i].path)
}

/// The number of entries with the given `staged` flag.
pub open spec fn count_staged(s: Seq<FileEntryView>, staged: bool) -> nat
    decreases s.len(),
{
    if s.len() == 0 {
        0
    } else {
        count_staged(s.drop_last(), staged) + if s.last().staged == staged {
            1nat
        } else {
            0nat
        }
    }
}

/// The number of entries of `path` with the given `staged` flag.
pub open spec fn count_path(s: Seq<FileEntryView>, path: Seq<char>, staged: bool) -> nat
    decreases s.len(),
{
    if s.len() == 0 {
        0
    } else {
        count_path(s.drop_last(), path, staged) + if s.last().path == path && s.last().staged
            == staged {
            1nat
        } else {
            0nat
        }
    }
}

/// The status report made of a status enumeration.
pub open spec fn reconciled_files(entries: Seq<StatusEntry>) -> Seq<FileEntryView> {
    sort_by_path(merged(entries))
}

proof fn lemma_insert_at(s: Seq<FileEntryView>, e: FileEntryView, j: int)
    requires
        0 <= j <= s.len(),
        forall|k: int| 0 <= k < j ==> !text_lt(e.path, #[trigger] s[k].path),
        j < s.len() ==> text_lt(e.path, s[j].path),
    ensures
        insert_by_path(s, e) == s.insert(j, e),
    decreases s.len(),
{
    if s.len() == 0 {
        assert(s.insert(j, e) =~= seq![e]);
    } else if j == 0 {
        assert(s.insert(j, e) =~= seq![e] + s);
    } else {
        let t = s.drop_first();
        assert forall|k: int| 0 <= k < j - 1 implies !text_lt(e.path, #[trigger] t[k].path) by {
            assert(t[k] == s[k + 1]);
        }
        lemma_insert_at(t, e, j - 1);
        assert(s.insert(j, e) =~= seq![s[0]] + t.insert(j - 1, e));
    }
}

proof fn lemma_insert_bounded(s: Seq<FileEntryView>, e: FileEntryView, lo: Seq<char>)
    requires
        forall|k: int| 0 <= k < s.len() ==> !text_lt(#[trigger] s[k].path, lo),
        !text_lt(e.path, lo),
    ensures
        forall|k: int|
            0 <= k < insert_by_path(s, e).len() ==> !text_lt(
                #[trigger] insert_by_path(s, e)[k].path,
                lo,
            ),
        insert_by_path(s, e).len() == s.len() + 1,
    decreases s.len(),
{
    if s.len() > 0 && !text_lt(e.path, s[0].path) {
        let t = s.drop_first();
        assert forall|k: int| 0 <= k < t.len() implies !text_lt(#[trigger] t[k].path, lo) by {
            assert(t[k] == s[k + 1]);
        }
        lemma_insert_bounded(t, e, lo);
        let r = insert_by_path(s, e);
        assert forall|k: int| 0 <= k < r.len() implies !text_lt(#[trigger] r[k].path, lo) by {
            if k > 0 {
                assert(r[k] == insert_by_path(t, e)[k - 1]);
            }
        }
    }
}

proof fn lemma_insert_sorted(s: Seq<FileEntryView>, e: FileEntryView)
    requires
        sorted_by_path(s),
    ensures
        sorted_by_path(insert_by_path(s, e)),
    decreases s.len(),
{
    if s.len() == 0 {
    } else if text_lt(e.path, s[0].path) {
        let r = seq![e] + s;
        assert forall|i: int, j: int| 0 <= i < j < r.len() implies !text_lt(
            #[trigger] r[j].path,
            #[trigger] r[i].path,
        ) by {
            if i == 0 {
                if text_lt(s[j - 1].path, e.path) {
                    lemma_text_lt_transitive(s[j - 1].path, e.path, s[0].path);
                    if j - 1 > 0 {
                        assert(!text_lt(s[j - 1].path, s[0].path));
                    } else {
                        lemma_text_lt_irreflexive(s[0].path);
                    }
                }
            }
        }
    } else {
        let t = s.drop_first();
        assert(sorted_by_path(t)) by {
            assert forall|i: int, j: int| 0 <= i < j < t.len() implies !text_lt(
                #[trigger] t[j].path,
                #[trigger] t[i].path,
            ) by {
                assert(t[i] == s[i + 1] && t[j] == s[j + 1]);
            }
        }
        lemma_insert_sorted(t, e);
        assert forall|k: int| 0 <= k < t.len() implies !text_lt(#[trigger] t[k].path, s[0].path) by {
            assert(t[k] == s[k + 1]);
        }
        lemma_insert_bounded(t, e, s[0].path);
        let ti = insert_by_path(t, e);
        let r = seq![s[0]] + ti;
        assert forall|i: int, j: int| 0 <= i < j < r.len() implies !text_lt(
            #[trigger] r[j].path,
            #[trigger] r[i].path,
        ) by {
            if i == 0 {
                assert(r[j] == ti[j - 1]);
            } else {
                assert(r[i] == ti[i - 1] && r[j] == ti[j - 1]);
            }
        }
    }
}

/// Sorting by path gives entries in path order.
pub proof fn lemma_sort_sorted(s: Seq<FileEntryView>)
    ensures
        sorted_by_path(sort_by_path(s)),
        sort_by_path(s).len() == s.len(),
    decreases s.len(),
{
    if s.len() > 0 {
        lemma_sort_sorted(s.drop_last());
        lemma_insert_sorted(sort_by_path(s.drop_last()), s.last());
        lemma_insert_len(sort_by_path(s.drop_last()), s.last());
    }
}

proof fn lemma_insert_len(s: Seq<FileEntryView>, e: FileEntryView)
    ensures
        insert_by_path(s, e).len() == s.len() + 1,
    decreases s.len(),
{
    if s.len() > 0 && !text_lt(e.path, s[0].path) {
        lemma_insert_len(s.drop_first(), e);
    }
}

proof fn lemma_count_path_prepend(x: FileEntryView, s: Seq<FileEntryView>, path: Seq<char>, staged: bool)
    ensures
        count_path(seq![x] + s, path, staged) == count_path(s, path, staged) + if x.path == path
            && x.staged == staged {
            1nat
        } else {
            0nat
        },
    decreases s.len(),
{
    if s.len() > 0 {
        lemma_count_path_prepend(x, s.drop_last(), path, staged);
        assert((seq![x] + s).drop_last() =~= seq![x] + s.drop_last());
    } else {
        assert((seq![x] + s).drop_last() =~= s);
    }
}

proof fn lemma_count_path_insert(s: Seq<FileEntryView>, e: FileEntryView, path: Seq<char>, staged: bool)
    ensures
        count_path(insert_by_path(s, e), path, staged) == count_path(s, path, staged) + if e.path
            == path && e.staged == staged {
            1nat
        } else {
            0nat
        },
    decreases s.len(),
{
    if s.len() == 0 {
        assert(seq![e].drop_last() =~= s);
        assert(insert_by_path(s, e) == seq![e]);
    } else if text_lt(e.path, s[0].path) {
        lemma_count_path_prepend(e, s, path, staged);
    } else {
        let t = s.drop_first();
        lemma_count_path_insert(t, e, path, staged);
        lemma_count_path_prepend(s[0], insert_by_path(t, e), path, staged);
        lemma_count_path_prepend(s[0], t, path, staged);
        assert(seq![s[0]] + t =~= s);
    }
}

/// Sorting by path keeps the number of entries of each path on each axis.
pub proof fn lemma_sort_counts(s: Seq<FileEntryView>, path: Seq<char>, staged: bool)
    ensures
        count_path(sort_by_path(s), path, staged) == count_path(s, path, staged),
    decreases s.len(),
{
    if s.len() > 0 {
        lemma_sort_counts(s.drop_last(), path, staged);
        lemma_count_path_insert(sort_by_path(s.drop_last()), s.last(), path, staged);
    }
}

/// A copy of an entry.
fn copy_entry(e: &FileEntry) -> (r: FileEntry)
    ensures
        r@ == e@,
{
    FileEntry {
        path: e.path.clone(),
        status: e.status,
        staged: e.staged,
        old_path: match &e.old_path {
            Some(p) => Some(p.clone()),
            None => None,
        },
    }
}

/// The entries sorted by path; entries of equal paths keep their order.
pub fn sort_entries(v: &Vec<FileEntry>) -> (r: Vec<FileEntry>)
    ensures
        r@.map_values(|f: FileEntry| f@) == sort_by_path(v@.map_values(|f: FileEntry| f@)),
{
    let ghost vs = v@.map_values(|f: FileEntry| f@);
    let mut out: Vec<FileEntry> = Vec::new();
    let mut keys: Vec<Vec<char>> = Vec::new();
    let mut i: usize = 0;
    while i < v.len()
        invariant
            i <= v@.len(),
            vs == v@.map_values(|f: FileEntry| f@),
            out@.map_values(|f: FileEntry| f@) == sort_by_path(vs.take(i as int)),
            keys@.len() == out@.len(),
            forall|k: int| 0 <= k < keys@.len() ==> (#[trigger] keys@[k])@ == out@[k].path@,
        decreases v@.len() - i,
    {
        let ghost os = out@.map_values(|f: FileEntry| f@);
        proof {
            lemma_sort_sorted(vs.take(i as int));
        }
        let e = copy_entry(&v[i]);
        let key = chars_of(e.path.as_str());
        let mut j: usize = out.len();
        while j > 0 && chars_lt(&key, &keys[j - 1])
            invariant
                j <= out@.len(),
                keys@.len() == out@.len(),
                forall|k: int| 0 <= k < keys@.len() ==> (#[trigger] keys@[k])@ == out@[k].path@,
                os == out@.map_values(|f: FileEntry| f@),
                key@ == e.path@,
                forall|k: int| j <= k < os.len() ==> text_lt(e.path@, #[trigger] os[k].path),
            decreases j,
        {
            j = j - 1;
        }
        proof {
            let ev = e@;
            assert forall|k: int| 0 <= k < j implies !text_lt(ev.path, #[trigger] os[k].path) by {
                let a = os[j - 1].path;
                let b = os[k].path;
                assert(!text_lt(ev.path, a));
                if k < j - 1 {
                    assert(!text_lt(a, b));
                    if text_lt(ev.path, b) {
                        lemma_text_lt_total(ev.path, a);
                        if text_lt(a, ev.path) {
                            lemma_text_lt_transitive(a, ev.path, b);
                        }
                    }
                }
            }
            lemma_insert_at(os, ev, j as int);
            assert(vs.take(i + 1).drop_last() =~= vs.take(i as int));
            assert(vs.take(i + 1).last() == ev);
        }
        out.insert(j, e);
        keys.insert(j, key);
        assert(out@.map_values(|f: FileEntry| f@) =~= os.insert(j as int, e@));
        i = i + 1;
    }
    assert(vs.take(v@.len() as int) =~= vs);
    out
}

/// The number of entries with the given `staged` flag.
pub fn count_entries(files: &Vec<FileEntry>, staged: bool) -> (r: usize)
    ensures
        r == count_staged(files@.map_values(|f: FileEntry| f@), staged),
{
    let ghost fs = files@.map_values(|f: FileEntry| f@);
    let mut n: usize = 0;
    let mut i: usize = 0;
    while i < files.len()
        invariant
            i <= files@.len(),
            fs == files@.map_values(|f: FileEntry| f@),
            n == count_staged(fs.take(i as int), staged),
            n <= i,
        decreases files@.len() - i,
    {
        assert(fs.take(i + 1).drop_last() =~= fs.take(i as int));
        if files[i].staged == staged {
            n = n + 1;
        }
        i = i + 1;
    }
    assert(fs.take(files@.len() as int) =~= fs);
    n
}

proof fn lemma_unstaged_index_skip(s: Seq<FileEntryView>, path: Seq<char>, i: int, j: int)
    requires
        0 <= i <= j <= s.len(),
        forall|k: int| i <= k < j ==> !((#[trigger] s[k]).path == path && !s[k].staged),
    ensures
        unstaged_index(s, path, i) == unstaged_index(s, path, j),
    decreases j - i,
{
    if i < j {
        lemma_unstaged_index_skip(s, path, i + 1, j);
    }
}

/// Records an unstaged change of `path` in `files`, in place when the path
/// already has an unstaged entry.
fn record_unstaged(files: &mut Vec<FileEntry>, path: &String, st: FileStatus)
    ensures
        final(files)@.map_values(|f: FileEntry| f@) == add_unstaged(
            old(files)@.map_values(|f: FileEntry| f@),
            path@,
            st,
        ),
{
    let ghost fs = files@.map_values(|f: FileEntry| f@);
    let mut k: usize = 0;
    while k < files.len() && !(files[k].path.eq(path) && !files[k].staged)
        invariant
            k <= files@.len(),
            fs == files@.map_values(|f: FileEntry| f@),
            forall|m: int| 0 <= m < k ==> !((#[trigger] fs[m]).path == path@ && !fs[m].staged),
        decreases files@.len() - k,
    {
        k = k + 1;
    }
    proof {
        lemma_unstaged_index_skip(fs, path@, 0, k as int);
    }
    if k < files.len() {
        let mut f = copy_entry(&files[k]);
        f.status = st;
        files.set(k, f);
        assert(files@.map_values(|x: FileEntry| x@) =~= fs.update(
            k as int,
            FileEntryView { status: st, ..fs[k as int] },
        ));
    } else {
        files.push(FileEntry { path: path.clone(), status: st, staged: false, old_path: None });
        assert(files@.map_values(|x: FileEntry| x@) =~= fs.push(
            FileEntryView { path: path@, status: st, staged: false, old_path: None },
        ));
    }
}

/// Merges a status enumeration into a status report of the working tree at
/// `path` on `branch`: a staged entry for each path with a staged change, an
/// unstaged entry for each path with an unstaged change (a repeated path
/// updates its unstaged entry), sorted by path, with the counts of each.
pub fn reconcile(path: String, branch: Option<String>, entries: &Vec<StatusEntry>) -> (r:
    RepositoryStatus)
    ensures
        r@.path == path@,
        r@.branch == opt_view(branch),
        r@.files == reconciled_files(entries@),
        r@.staged_count == count_staged(r@.files, true),
        r@.unstaged_count == count_staged(r@.files, false),
{
    let mut files: Vec<FileEntry> = Vec::new();
    let mut i: usize = 0;
    while i < entries.len()
        invariant
            i <= entries@.len(),
            files@.map_values(|f: FileEntry| f@) == merged(entries@.take(i as int)),
        decreases entries@.len() - i,
    {
        let e = &entries[i];
        let ghost before = files@.map_values(|f: FileEntry| f@);
        assert(entries@.take(i + 1).drop_last() =~= entries@.take(i as int));
        match e.flags.staged_status() {
            Some(st) => {
                let old_path = if st == FileStatus::Renamed {
                    match &e.renamed_from {
                        Some(p) => Some(p.clone()),
                        None => None,
                    }
                } else {
                    None
                };
                let f = FileEntry { path: e.path.clone(), status: st, staged: true, old_path };
                files.push(f);
                assert(files@.map_values(|x: FileEntry| x@) =~= before.push(staged_entry(*e, st)));
            },
            None => {},
        }
        match e.flags.unstaged_status() {
            Some(st) => {
                record_unstaged(&mut files, &e.path, st);
            },
            None => {},
        }
        i = i + 1;
    }
    assert(entries@.take(entries@.len() as int) =~= entries@);
    let files = sort_entries(&files);
    let staged_count = count_entries(&files, true);
    let unstaged_count = count_entries(&files, false);
    RepositoryStatus { path, branch, files, staged_count, unstaged_count }
}

proof fn lemma_count_path_push(s: Seq<FileEntryView>, x: FileEntryView, path: Seq<char>, staged: bool)
    ensures
        count_path(s.push(x), path, staged) == count_path(s, path, staged) + if x.path == path
            && x.staged == staged {
            1nat
        } else {
            0nat
        },
{
    assert(s.push(x).drop_last() =~= s);
}

proof fn lemma_count_path_update(
    s: Seq<FileEntryView>,
    k: int,
    x: FileEntryView,
    path: Seq<char>,
    staged: bool,
)
    requires
        0 <= k < s.len(),
        x.path == s[k].path,
        x.staged == s[k].staged,
    ensures
        count_path(s.update(k, x), path, staged) == count_path(s, path, staged),
    decreases s.len(),
{
    if k < s.len() - 1 {
        lemma_count_path_update(s.drop_last(), k, x, path, staged);
        assert(s.update(k, x).drop_last() =~= s.drop_last().update(k, x));
    } else {
        assert(s.update(k, x).drop_last() =~= s.drop_last());
    }
}

proof fn lemma_count_path_present(s: Seq<FileEntryView>, k: int, path: Seq<char>, staged: bool)
    requires
        0 <= k < s.len(),
        s[k].path == path,
        s[k].staged == staged,
    ensures
        count_path(s, path, staged) >= 1,
    decreases s.len(),
{
    if k < s.len() - 1 {
        lemma_count_path_present(s.drop_last(), k, path, staged);
    }
}

proof fn lemma_unstaged_index_found(s: Seq<FileEntryView>, path: Seq<char>, i: int)
    requires
        0 <= i,
    ensures
        unstaged_index(s, path, i) >= 0 ==> {
            let k = unstaged_index(s, path, i);
            &&& i <= k < s.len()
            &&& s[k].path == path
            &&& !s[k].staged
        },
    decreases s.len() - i,
{
    if i < s.len() && !(s[i].path == path && !s[i].staged) {
        lemma_unstaged_index_found(s, path, i + 1);
    }
}

proof fn lemma_merge_entry_other(s: Seq<FileEntryView>, e: StatusEntry, path: Seq<char>, staged: bool)
    requires
        e.path@ != path,
    ensures
        count_path(merge_entry(s, e), path, staged) == count_path(s, path, staged),
{
    let ws = match staged_change(e.flags) {
        Some(st) => s.push(staged_entry(e, st)),
        None => s,
    };
    if let Some(st) = staged_change(e.flags) {
        lemma_count_path_push(s, staged_entry(e, st), path, staged);
    }
    if let Some(st) = unstaged_change(e.flags) {
        let k = unstaged_index(ws, e.path@, 0);
        lemma_unstaged_index_found(ws, e.path@, 0);
        if k >= 0 {
            lemma_count_path_update(ws, k, FileEntryView { status: st, ..ws[k] }, path, staged);
        } else {
            lemma_count_path_push(
                ws,
                FileEntryView { path: e.path@, status: st, staged: false, old_path: None },
                path,
                staged,
            );
        }
    }
}

proof fn lemma_merge_entry_own(s: Seq<FileEntryView>, e: StatusEntry)
    requires
        count_path(s, e.path@, true) == 0,
        count_path(s, e.path@, false) == 0,
    ensures
        count_path(merge_entry(s, e), e.path@, true) == if staged_change(e.flags) is Some {
            1nat
        } else {
            0nat
        },
        count_path(merge_entry(s, e), e.path@, false) == if unstaged_change(e.flags) is Some {
            1nat
        } else {
            0nat
        },
{
    let p = e.path@;
    let ws = match staged_change(e.flags) {
        Some(st) => s.push(staged_entry(e, st)),
        None => s,
    };
    if let Some(st) = staged_change(e.flags) {
        lemma_count_path_push(s, staged_entry(e, st), p, true);
        lemma_count_path_push(s, staged_entry(e, st), p, false);
    }
    if let Some(st) = unstaged_change(e.flags) {
        let k = unstaged_index(ws, p, 0);
        lemma_unstaged_index_found(ws, p, 0);
        if k >= 0 {
            lemma_count_path_present(ws, k, p, false);
        }
        let x = FileEntryView { path: p, status: st, staged: false, old_path: None };
        lemma_count_path_push(ws, x, p, true);
        lemma_count_path_push(ws, x, p, false);
    }
}

/// No two entries of the enumeration share a path.
pub open spec fn distinct_paths(entries: Seq<StatusEntry>) -> bool {
    forall|i: int, j: int|
        0 <= i < j < entries.len() ==> (#[trigger] entries[i]).path@ != (#[trigger] entries[j]).path@
}

proof fn lemma_merged_path(entries: Seq<StatusEntry>, i: int, n: int)
    requires
        distinct_paths(entries),
        0 <= i < entries.len(),
        0 <= n <= entries.len(),
    ensures
        count_path(merged(entries.take(n)), entries[i].path@, true) == if i < n && staged_change(
            entries[i].flags,
        ) is Some {
            1nat
        } else {
            0nat
        },
        count_path(merged(entries.take(n)), entries[i].path@, false) == if i < n
            && unstaged_change(entries[i].flags) is Some {
            1nat
        } else {
            0nat
        },
    decreases n,
{
    if n > 0 {
        lemma_merged_path(entries, i, n - 1);
        assert(entries.take(n).drop_last() =~= entries.take(n - 1));
        let prev = merged(entries.take(n - 1));
        let e = entries[n - 1];
        assert(merged(entries.take(n)) == merge_entry(prev, e));
        if n - 1 == i {
            lemma_merge_entry_own(prev, e);
        } else {
            lemma_merge_entry_other(prev, e, entries[i].path@, true);
            lemma_merge_entry_other(prev, e, entries[i].path@, false);
        }
    } else {
        assert(entries.take(0) =~= Seq::<StatusEntry>::empty());
    }
}

/// In the status report of an enumeration with one entry per path, a path
/// has one staged entry if it has a staged change and none otherwise, and one
/// unstaged entry if it has an unstaged change and none otherwise: a path
/// changed on both axes appears twice, a path changed on one axis once.
pub proof fn lemma_reconciled_path_counts(entries: Seq<StatusEntry>, i: int)
    requires
        distinct_paths(entries),
        0 <= i < entries.len(),
    ensures
        count_path(reconciled_files(entries), entries[i].path@, true) == if staged_change(
            entries[i].flags,
        ) is Some {
            1nat
        } else {
            0nat
        },
        count_path(reconciled_files(entries), entries[i].path@, false) == if unstaged_change(
            entries[i].flags,
        ) is Some {
            1nat
        } else {
            0nat
        },
{
    lemma_merged_path(entries, i, entries.len() as int);
    assert(entries.take(entries.len() as int) =~= entries);
    lemma_sort_counts(merged(entries), entries[i].path@, true);
    lemma_sort_counts(merged(entries), entries[i].path@, false);
}

/// The entries of a status report are sorted by path.
pub proof fn lemma_reconciled_sorted(entries: Seq<StatusEntry>)
    ensures
        sorted_by_path(reconciled_files(entries)),
{
    lemma_sort_sorted(merged(entries));
}

/// Every staged entry of `path` in `s` is `t`.
pub open spec fn staged_entries_are(s: Seq<FileEntryView>, path: Seq<char>, t: FileEntryView) -> bool {
    forall|k: int| 0 <= k < s.len() && (#[trigger] s[k]).path == path && s[k].staged ==> s[k] == t
}

proof fn lemma_insert_staged_entries(s: Seq<FileEntryView>, e: FileEntryView, path: Seq<char>, t: FileEntryView)
    requires
        staged_entries_are(s, path, t),
        e.path == path && e.staged ==> e == t,
    ensures
        staged_entries_are(insert_by_path(s, e), path, t),
    decreases s.len(),
{
    let r = insert_by_path(s, e);
    if s.len() == 0 {
    } else if text_lt(e.path, s[0].path) {
        assert forall|k: int| 0 <= k < r.len() && (#[trigger] r[k]).path == path && r[k].staged implies r[k] == t by {
            if k > 0 {
                assert(r[k] == s[k - 1]);
            }
        }
    } else {
        let u = s.drop_first();
        assert forall|k: int| 0 <= k < u.len() && (#[trigger] u[k]).path == path && u[k].staged implies u[k] == t by {
            assert(u[k] == s[k + 1]);
        }
        lemma_insert_staged_entries(u, e, path, t);
        assert forall|k: int| 0 <= k < r.len() && (#[trigger] r[k]).path == path && r[k].staged implies r[k] == t by {
            if k > 0 {
                assert(r[k] == insert_by_path(u, e)[k - 1]);
            }
        }
    }
}

proof fn lemma_sort_staged_entries(s: Seq<FileEntryView>, path: Seq<char>, t: FileEntryView)
    requires
        staged_entries_are(s, path, t),
    ensures
        staged_entries_are(sort_by_path(s), path, t),
    decreases s.len(),
{
    if s.len() > 0 {
        let init = s.drop_last();
        assert forall|k: int| 0 <= k < init.len() && (#[trigger] init[k]).path == path && init[k].staged implies init[k] == t by {
            assert(init[k] == s[k]);
        }
        lemma_sort_staged_entries(init, path, t);
        assert(s[s.len() - 1] == s.last());
        lemma_insert_staged_entries(sort_by_path(init), s.last(), path, t);
    }
}

proof fn lemma_merge_staged_entries(s: Seq<FileEntryView>, e: StatusEntry, path: Seq<char>, t: FileEntryView)
    requires
        staged_entries_are(s, path, t),
        staged_change(e.flags) is Some && e.path@ == path ==> staged_entry(e, staged_change(e.flags)->0) == t,
    ensures
        staged_entries_are(merge_entry(s, e), path, t),
{
    let ws = match staged_change(e.flags) {
        Some(st) => s.push(staged_entry(e, st)),
        None => s,
    };
    assert(staged_entries_are(ws, path, t)) by {
        assert forall|k: int| 0 <= k < ws.len() && (#[trigger] ws[k]).path == path && ws[k].staged implies ws[k] == t by {
            if k < s.len() {
                assert(ws[k] == s[k]);
            }
        }
    }
    if let Some(st) = unstaged_change(e.flags) {
        let k0 = unstaged_index(ws, e.path@, 0);
        lemma_unstaged_index_found(ws, e.path@, 0);
        let r = add_unstaged(ws, e.path@, st);
        assert forall|k: int| 0 <= k < r.len() && (#[trigger] r[k]).path == path && r[k].staged implies r[k] == t by {
            if k < ws.len() && k != k0 {
                assert(r[k] == ws[k]);
            }
        }
    }
}

proof fn lemma_merged_staged_entries(entries: Seq<StatusEntry>, i: int, n: int)
    requires
        distinct_paths(entries),
        0 <= i < entries.len(),
        staged_change(entries[i].flags) is Some,
        0 <= n <= entries.len(),
    ensures
        staged_entries_are(
            merged(entries.take(n)),
            entries[i].path@,
            staged_entry(entries[i], staged_change(entries[i].flags)->0),
        ),
    decreases n,
{
    if n > 0 {
        lemma_merged_staged_entries(entries, i, n - 1);
        assert(entries.take(n).drop_last() =~= entries.take(n - 1));
        let e = entries[n - 1];
        assert(n - 1 != i ==> e.path@ != entries[i].path@);
        lemma_merge_staged_entries(
            merged(entries.take(n - 1)),
            e,
            entries[i].path@,
            staged_entry(entries[i], staged_change(entries[i].flags)->0),
        );
    } else {
        assert(entries.take(0) =~= Seq::<StatusEntry>::empty());
    }
}

/// In the status report of an enumeration with one entry per path, a path
/// with a staged change has exactly one staged entry, and it carries the
/// status of that change; a staged rename carries its source as old path.
pub proof fn lemma_reconciled_staged_entry(entries: Seq<StatusEntry>, i: int)
    requires
        distinct_paths(entries),
        0 <= i < entries.len(),
        staged_change(entries[i].flags) is Some,
    ensures
        count_path(reconciled_files(entries), entries[i].path@, true) == 1,
        forall|k: int|
            0 <= k < reconciled_files(entries).len() && (#[trigger] reconciled_files(entries)[k]).path
                == entries[i].path@ && reconciled_files(entries)[k].staged ==> {
                &&& reconciled_files(entries)[k].status == staged_change(entries[i].flags)->0
                &&& reconciled_files(entries)[k].old_path == if staged_change(entries[i].flags)
                    == Some(FileStatus::Renamed) {
                    opt_view(entries[i].renamed_from)
                } else {
                    None
                }
            },
{
    lemma_reconciled_path_counts(entries, i);
    lemma_merged_staged_entries(entries, i, entries.len() as int);
    assert(entries.take(entries.len() as int) =~= entries);
    lemma_sort_staged_entries(
        merged(entries),
        entries[i].path@,
        staged_entry(entries[i], staged_change(entries[i].flags)->0),
    );
}

} // verus!
