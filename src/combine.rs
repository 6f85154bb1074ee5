use vstd::prelude::*;

use crate::diff::{built_diff, finish_file_diff, parse_stream, stream_diff, NewFileProbe};
use crate::patch::{PatchDelta, PatchLine};
use crate::types::{FileDiff, FileDiffView};

verus! {

/// Whether some diff of `diffs` is of `path`.
pub open spec fn has_path(diffs: Seq<FileDiffView>, path: Seq<char>) -> bool {
    exists|k: int| 0 <= k < diffs.len() && (#[trigger] diffs[k]).path == path
}

/// The probe fetched for the `i`th delta of a stream, if any.
pub open spec fn probe_at(probes: Seq<Option<NewFileProbe>>, i: int) -> Option<NewFileProbe> {
    if 0 <= i < probes.len() {
        probes[i]
    } else {
        None
    }
}

/// The diff built for the path of the `i`th delta of a stream, or none
/// where that build failed.
pub open spec fn built_at(
    deltas: Seq<PatchDelta>,
    lines: Option<Seq<PatchLine>>,
    probes: Seq<Option<NewFileProbe>>,
    staged: bool,
    i: int,
) -> Option<FileDiffView> {
    match stream_diff(deltas, lines, deltas[i].path_spec()) {
        Some(d) => built_diff(d, probe_at(probes, i), staged),
        None => None,
    }
}

/// The diffs built for the first `n` deltas of the staged stream, in order;
/// a failed build adds nothing.
pub open spec fn staged_diffs(
    deltas: Seq<PatchDelta>,
    lines: Option<Seq<PatchLine>>,
    probes: Seq<Option<NewFileProbe>>,
    n: int,
) -> Seq<FileDiffView>
    decreases n,
{
    if n <= 0 {
        Seq::empty()
    } else {
        let prev = staged_diffs(deltas, lines, probes, n - 1);
        match built_at(deltas, lines, probes, true, n - 1) {
            Some(d) => prev.push(d),
            None => prev,
        }
    }
}

/// `acc` followed by the diffs built for the first `n` unstaged deltas whose
/// path has no diff yet; a failed build adds nothing.
pub open spec fn add_unstaged_diffs(
    acc: Seq<FileDiffView>,
    deltas: Seq<PatchDelta>,
    lines: Option<Seq<PatchLine>>,
    probes: Seq<Option<NewFileProbe>>,
    n: int,
) -> Seq<FileDiffView>
    decreases n,
{
    if n <= 0 {
        acc
    } else {
        let prev = add_unstaged_diffs(acc, deltas, lines, probes, n - 1);
        if has_path(prev, deltas[n - 1].path_spec()) {
            prev
        } else {
            match built_at(deltas, lines, probes, false, n - 1) {
                Some(d) => prev.push(d),
                None => prev,
            }
        }
    }
}

/// The combined diff: the diff of every path of the staged stream, then the
/// diff of every path of the unstaged stream that has none yet.
pub open spec fn combined_diffs(
    staged_deltas: Seq<PatchDelta>,
    staged_lines: Option<Seq<PatchLine>>,
    staged_probes: Seq<Option<NewFileProbe>>,
    unstaged_deltas: Seq<PatchDelta>,
    unstaged_lines: Option<Seq<PatchLine>>,
    unstaged_probes: Seq<Option<NewFileProbe>>,
) -> Seq<FileDiffView> {
    add_unstaged_diffs(
        staged_diffs(staged_deltas, staged_lines, staged_probes, staged_deltas.len() as int),
        unstaged_deltas,
        unstaged_lines,
        unstaged_probes,
        unstaged_deltas.len() as int,
    )
}

pub open spec fn opt_lines(o: Option<Vec<PatchLine>>) -> Option<Seq<PatchLine>> {
    match o {
        Some(v) => Some(v@),
        None => None,
    }
}

/// Whether some diff of `diffs` is of `path`.
fn contains_path(diffs: &Vec<FileDiff>, path: &String) -> (r: bool)
    ensures
        r == has_path(diffs@.map_values(|d: FileDiff| d@), path@),
{
    let ghost ds = diffs@.map_values(|d: FileDiff| d@);
    let mut k: usize = 0;
    while k < diffs.len()
        invariant
            k <= diffs@.len(),
            ds == diffs@.map_values(|d: FileDiff| d@),
            forall|m: int| 0 <= m < k ==> (#[trigger] ds[m]).path != path@,
        decreases diffs@.len() - k,
    {
        if diffs[k].path.eq(path) {
            assert(ds[k as int].path == path@);
            return true;
        }
        k = k + 1;
    }
    false
}

/// Builds the diff of the path of the `i`th delta of a stream.
fn build_at(
    deltas: &Vec<PatchDelta>,
    lines: &Option<Vec<PatchLine>>,
    probes: &Vec<Option<NewFileProbe>>,
    staged: bool,
    i: usize,
) -> (r: Option<FileDiff>)
    requires
        i < deltas@.len(),
    ensures
        opt_diff(r) == built_at(deltas@, opt_lines(*lines), probes@, staged, i as int),
{
    let path = deltas[i].path();
    let probe = if i < probes.len() {
        match &probes[i] {
            Some(p) => Some(p),
            None => None,
        }
    } else {
        None
    };
    match parse_stream(deltas, lines, path.as_str()) {
        Some(d) => finish_file_diff(d, probe, staged),
        None => None,
    }
}

pub open spec fn opt_diff(o: Option<FileDiff>) -> Option<FileDiffView> {
    match o {
        Some(d) => Some(d@),
        None => None,
    }
}

/// One diff per changed path across the staged and the unstaged stream, the
/// staged one preferred where a path is in both. Each path is built as a
/// single-file diff is, with the probe fetched for its delta; a path whose
/// build fails is left out.
pub fn combine_diffs(
    staged_deltas: &Vec<PatchDelta>,
    staged_lines: &Option<Vec<PatchLine>>,
    staged_probes: &Vec<Option<NewFileProbe>>,
    unstaged_deltas: &Vec<PatchDelta>,
    unstaged_lines: &Option<Vec<PatchLine>>,
    unstaged_probes: &Vec<Option<NewFileProbe>>,
) -> (r: Vec<FileDiff>)
    ensures
        r@.map_values(|d: FileDiff| d@) == combined_diffs(
            staged_deltas@,
            opt_lines(*staged_lines),
            staged_probes@,
            unstaged_deltas@,
            opt_lines(*unstaged_lines),
            unstaged_probes@,
        ),
{
    let mut diffs: Vec<FileDiff> = Vec::new();
    let mut i: usize = 0;
    while i < staged_deltas.len()
        invariant
            i <= staged_deltas@.len(),
            diffs@.map_values(|d: FileDiff| d@) == staged_diffs(
                staged_deltas@,
                opt_lines(*staged_lines),
                staged_probes@,
                i as int,
            ),
        decreases staged_deltas@.len() - i,
    {
        let ghost before = diffs@.map_values(|x: FileDiff| x@);
        match build_at(staged_deltas, staged_lines, staged_probes, true, i) {
            Some(d) => {
                diffs.push(d);
                assert(diffs@.map_values(|x: FileDiff| x@) =~= before.push(d@));
            },
            None => {},
        }
        i = i + 1;
    }
    let ghost first = diffs@.map_values(|x: FileDiff| x@);
    let mut j: usize = 0;
    while j < unstaged_deltas.len()
        invariant
            j <= unstaged_deltas@.len(),
            first == staged_diffs(
                staged_deltas@,
                opt_lines(*staged_lines),
                staged_probes@,
                staged_deltas@.len() as int,
            ),
            diffs@.map_values(|d: FileDiff| d@) == add_unstaged_diffs(
                first,
                unstaged_deltas@,
                opt_lines(*unstaged_lines),
                unstaged_probes@,
                j as int,
            ),
        decreases unstaged_deltas@.len() - j,
    {
        let path = unstaged_deltas[j].path();
        if !contains_path(&diffs, &path) {
            let ghost before = diffs@.map_values(|x: FileDiff| x@);
            match build_at(unstaged_deltas, unstaged_lines, unstaged_probes, false, j) {
                Some(d) => {
                    diffs.push(d);
                    assert(diffs@.map_values(|x: FileDiff| x@) =~= before.push(d@));
                },
                None => {},
            }
        }
        j = j + 1;
    }
    diffs
}

pub open spec fn distinct_diff_paths(diffs: Seq<FileDiffView>) -> bool {
    forall|i: int, j: int|
        0 <= i < j < diffs.len() ==> (#[trigger] diffs[i]).path != (#[trigger] diffs[j]).path
}

pub open spec fn distinct_delta_paths(deltas: Seq<PatchDelta>) -> bool {
    forall|i: int, j: int|
        0 <= i < j < deltas.len() ==> (#[trigger] deltas[i]).path_spec() != (
        #[trigger] deltas[j]).path_spec()
}

proof fn lemma_built_path(
    deltas: Seq<PatchDelta>,
    lines: Option<Seq<PatchLine>>,
    probes: Seq<Option<NewFileProbe>>,
    staged: bool,
    i: int,
)
    requires
        0 <= i < deltas.len(),
        built_at(deltas, lines, probes, staged, i) is Some,
    ensures
        built_at(deltas, lines, probes, staged, i)->0.path == deltas[i].path_spec(),
{
}

proof fn lemma_staged_diffs(
    deltas: Seq<PatchDelta>,
    lines: Option<Seq<PatchLine>>,
    probes: Seq<Option<NewFileProbe>>,
    n: int,
)
    requires
        distinct_delta_paths(deltas),
        0 <= n <= deltas.len(),
    ensures
        distinct_diff_paths(staged_diffs(deltas, lines, probes, n)),
        forall|k: int|
            0 <= k < staged_diffs(deltas, lines, probes, n).len() ==> exists|j: int|
                0 <= j < n && built_at(deltas, lines, probes, true, j) == Some(
                    #[trigger] staged_diffs(deltas, lines, probes, n)[k],
                ),
        forall|j: int|
            0 <= j < n && (#[trigger] built_at(deltas, lines, probes, true, j)) is Some ==> has_path(
                staged_diffs(deltas, lines, probes, n),
                deltas[j].path_spec(),
            ),
    decreases n,
{
    if n > 0 {
        lemma_staged_diffs(deltas, lines, probes, n - 1);
        let prev = staged_diffs(deltas, lines, probes, n - 1);
        let r = staged_diffs(deltas, lines, probes, n);
        if let Some(d) = built_at(deltas, lines, probes, true, n - 1) {
            lemma_built_path(deltas, lines, probes, true, n - 1);
            assert(r == prev.push(d));
            assert forall|k: int| 0 <= k < r.len() implies exists|j: int|
                0 <= j < n && built_at(deltas, lines, probes, true, j) == Some(#[trigger] r[k]) by {
                if k < prev.len() {
                    assert(r[k] == prev[k]);
                } else {
                    assert(built_at(deltas, lines, probes, true, n - 1) == Some(r[k]));
                }
            }
            assert forall|a: int, b: int| 0 <= a < b < r.len() implies (#[trigger] r[a]).path != (
            #[trigger] r[b]).path by {
                if b == prev.len() {
                    assert(r[a] == prev[a]);
                    let j = choose|j: int|
                        0 <= j < n - 1 && built_at(deltas, lines, probes, true, j) == Some(prev[a]);
                    lemma_built_path(deltas, lines, probes, true, j);
                } else {
                    assert(r[a] == prev[a] && r[b] == prev[b]);
                }
            }
            assert forall|j: int|
                0 <= j < n && (#[trigger] built_at(deltas, lines, probes, true, j)) is Some implies has_path(
                r,
                deltas[j].path_spec(),
            ) by {
                if j < n - 1 {
                    let k = choose|k: int| 0 <= k < prev.len() && (#[trigger] prev[k]).path == deltas[j].path_spec();
                    assert(r[k] == prev[k]);
                } else {
                    assert(r[prev.len() as int] == d);
                }
            }
        }
    }
}

proof fn lemma_add_unstaged_diffs(
    acc: Seq<FileDiffView>,
    deltas: Seq<PatchDelta>,
    lines: Option<Seq<PatchLine>>,
    probes: Seq<Option<NewFileProbe>>,
    n: int,
)
    requires
        distinct_diff_paths(acc),
        0 <= n <= deltas.len(),
    ensures
        distinct_diff_paths(add_unstaged_diffs(acc, deltas, lines, probes, n)),
        add_unstaged_diffs(acc, deltas, lines, probes, n).len() >= acc.len(),
        add_unstaged_diffs(acc, deltas, lines, probes, n).take(acc.len() as int) == acc,
        forall|k: int|
            acc.len() <= k < add_unstaged_diffs(acc, deltas, lines, probes, n).len() ==> !has_path(
                acc,
                (#[trigger] add_unstaged_diffs(acc, deltas, lines, probes, n)[k]).path,
            ),
    decreases n,
{
    if n > 0 {
        lemma_add_unstaged_diffs(acc, deltas, lines, probes, n - 1);
        let prev = add_unstaged_diffs(acc, deltas, lines, probes, n - 1);
        let p = deltas[n - 1].path_spec();
        if !has_path(prev, p) {
            if let Some(d) = built_at(deltas, lines, probes, false, n - 1) {
                lemma_built_path(deltas, lines, probes, false, n - 1);
                let r = prev.push(d);
                assert forall|i: int, j: int| 0 <= i < j < r.len() implies (#[trigger] r[i]).path != (
                #[trigger] r[j]).path by {
                    if j == prev.len() {
                        assert(r[i] == prev[i]);
                    } else {
                        assert(r[i] == prev[i] && r[j] == prev[j]);
                    }
                }
                assert(r.take(acc.len() as int) =~= prev.take(acc.len() as int));
                assert forall|k: int| acc.len() <= k < r.len() implies !has_path(acc, (#[trigger] r[k]).path) by {
                    if k < prev.len() {
                        assert(r[k] == prev[k]);
                    } else if has_path(acc, p) {
                        let m = choose|m: int| 0 <= m < acc.len() && (#[trigger] acc[m]).path == p;
                        assert(prev.take(acc.len() as int)[m] == prev[m]);
                    }
                }
            }
        }
    } else {
        assert(acc.take(acc.len() as int) =~= acc);
    }
}

/// The combined diff has at most one diff per path, given a staged stream
/// with one delta per path; a path whose staged build succeeds is
/// represented by that staged diff.
pub proof fn lemma_combined_unique(
    staged_deltas: Seq<PatchDelta>,
    staged_lines: Option<Seq<PatchLine>>,
    staged_probes: Seq<Option<NewFileProbe>>,
    unstaged_deltas: Seq<PatchDelta>,
    unstaged_lines: Option<Seq<PatchLine>>,
    unstaged_probes: Seq<Option<NewFileProbe>>,
)
    requires
        distinct_delta_paths(staged_deltas),
    ensures
        distinct_diff_paths(
            combined_diffs(
                staged_deltas,
                staged_lines,
                staged_probes,
                unstaged_deltas,
                unstaged_lines,
                unstaged_probes,
            ),
        ),
        forall|i: int, k: int|
            0 <= i < staged_deltas.len() && built_at(
                staged_deltas,
                staged_lines,
                staged_probes,
                true,
                i,
            ) is Some && 0 <= k < combined_diffs(
                staged_deltas,
                staged_lines,
                staged_probes,
                unstaged_deltas,
                unstaged_lines,
                unstaged_probes,
            ).len() && (#[trigger] combined_diffs(
                staged_deltas,
                staged_lines,
                staged_probes,
                unstaged_deltas,
                unstaged_lines,
                unstaged_probes,
            )[k]).path == (#[trigger] staged_deltas[i]).path_spec() ==> Some(
                combined_diffs(
                    staged_deltas,
                    staged_lines,
                    staged_probes,
                    unstaged_deltas,
                    unstaged_lines,
                    unstaged_probes,
                )[k],
            ) == built_at(staged_deltas, staged_lines, staged_probes, true, i),
{
    let n = staged_deltas.len() as int;
    let first = staged_diffs(staged_deltas, staged_lines, staged_probes, n);
    lemma_staged_diffs(staged_deltas, staged_lines, staged_probes, n);
    lemma_add_unstaged_diffs(
        first,
        unstaged_deltas,
        unstaged_lines,
        unstaged_probes,
        unstaged_deltas.len() as int,
    );
    let r = combined_diffs(
        staged_deltas,
        staged_lines,
        staged_probes,
        unstaged_deltas,
        unstaged_lines,
        unstaged_probes,
    );
    assert forall|i: int, k: int|
        0 <= i < staged_deltas.len() && built_at(staged_deltas, staged_lines, staged_probes, true, i)
            is Some && 0 <= k < r.len() && (#[trigger] r[k]).path == (
        #[trigger] staged_deltas[i]).path_spec() implies Some(r[k]) == built_at(
        staged_deltas,
        staged_lines,
        staged_probes,
        true,
        i,
    ) by {
        assert(has_path(first, staged_deltas[i].path_spec()));
        if k < first.len() {
            assert(r.take(first.len() as int)[k] == r[k]);
            let j = choose|j: int|
                0 <= j < n && built_at(staged_deltas, staged_lines, staged_probes, true, j) == Some(
                    first[k],
                );
            lemma_built_path(staged_deltas, staged_lines, staged_probes, true, j);
        }
    }
}

} // verus!
