use revu::{
    axis_status, create_new_file_diff, needs_status_check, parse_diff, synthesis_status,
    DeltaKind, FileStatus, HunkBuilder, LineType, PatchDelta, PatchHunk, PatchLine, StatusFlags,
};

fn delta(path: &str, kind: DeltaKind, binary: bool) -> PatchDelta {
    PatchDelta {
        new_path: Some(path.to_string()),
        old_path: Some(path.to_string()),
        kind,
        is_binary: binary,
    }
}

fn hunk(header: &str, old_start: u32, old_lines: u32, new_start: u32, new_lines: u32) -> PatchHunk {
    PatchHunk { header: header.to_string(), old_start, old_lines, new_start, new_lines }
}

fn line(path: &str, h: Option<PatchHunk>, origin: char, content: &str, old: Option<u32>, new: Option<u32>) -> PatchLine {
    PatchLine {
        new_path: Some(path.to_string()),
        old_path: Some(path.to_string()),
        hunk: h,
        origin,
        content: content.to_string(),
        old_lineno: old,
        new_lineno: new,
    }
}

fn two_hunk_stream() -> (Vec<PatchDelta>, Vec<PatchLine>) {
    let h1 = hunk("@@ -1,2 +1,2 @@\n", 1, 2, 1, 2);
    let h2 = hunk("@@ -10,1 +10,2 @@ fn main\n", 10, 1, 10, 2);
    let lines = vec![
        line("a.rs", Some(h1.clone()), 'F', "diff --git a/a.rs b/a.rs\n", None, None),
        line("a.rs", Some(h1.clone()), 'H', "@@ -1,2 +1,2 @@\n", None, None),
        line("a.rs", Some(h1.clone()), ' ', "keep\n", Some(1), Some(1)),
        line("a.rs", Some(h1.clone()), '-', "old\n", Some(2), None),
        line("a.rs", Some(h1.clone()), '+', "new\n", None, Some(2)),
        line("b.rs", Some(hunk("@@ -1 +1 @@", 1, 1, 1, 1)), '+', "other\n", None, Some(1)),
        line("a.rs", Some(h2.clone()), ' ', "ctx\n", Some(10), Some(10)),
        line("a.rs", Some(h2.clone()), '+', "added\n", None, Some(11)),
    ];
    (vec![delta("a.rs", DeltaKind::Modified, false), delta("b.rs", DeltaKind::Added, false)], lines)
}

#[test]
fn parse_groups_lines_into_hunks() {
    let (deltas, lines) = two_hunk_stream();
    let d = parse_diff(&deltas, &lines, "a.rs");
    assert_eq!(d.path, "a.rs");
    assert_eq!(d.status, FileStatus::Modified);
    assert!(!d.is_binary);
    assert_eq!(d.language, Some("rust".to_string()));
    assert_eq!(d.hunks.len(), 2);
    let h = &d.hunks[0];
    assert_eq!(h.header, "@@ -1,2 +1,2 @@");
    assert_eq!((h.old_start, h.old_lines, h.new_start, h.new_lines), (1, 2, 1, 2));
    assert_eq!(h.lines.len(), 3);
    assert_eq!(h.lines[0].line_type, LineType::Context);
    assert_eq!((h.lines[0].old_line_no, h.lines[0].new_line_no), (Some(1), Some(1)));
    assert_eq!(h.lines[1].line_type, LineType::Deletion);
    assert_eq!(h.lines[1].content, "old\n");
    assert_eq!((h.lines[1].old_line_no, h.lines[1].new_line_no), (Some(2), None));
    assert_eq!(h.lines[2].line_type, LineType::Addition);
    assert_eq!((h.lines[2].old_line_no, h.lines[2].new_line_no), (None, Some(2)));
    let h = &d.hunks[1];
    assert_eq!(h.header, "@@ -10,1 +10,2 @@ fn main");
    assert_eq!((h.old_start, h.old_lines, h.new_start, h.new_lines), (10, 1, 10, 2));
    assert_eq!(h.lines.len(), 2);
    assert_eq!(h.lines[1].content, "added\n");
}

#[test]
fn parse_is_deterministic() {
    let (deltas, lines) = two_hunk_stream();
    let a = parse_diff(&deltas, &lines, "a.rs");
    let b = parse_diff(&deltas, &lines, "a.rs");
    assert_eq!(format!("{:?}", a.hunks), format!("{:?}", b.hunks));
}

#[test]
fn lines_are_numbered_by_type() {
    let (deltas, lines) = two_hunk_stream();
    let d = parse_diff(&deltas, &lines, "a.rs");
    for h in &d.hunks {
        for l in &h.lines {
            match l.line_type {
                LineType::Addition => assert!(l.old_line_no.is_none() && l.new_line_no.is_some()),
                LineType::Deletion => assert!(l.old_line_no.is_some() && l.new_line_no.is_none()),
                LineType::Context => assert!(l.old_line_no.is_some() && l.new_line_no.is_some()),
                LineType::Header => panic!("header lines are not kept"),
            }
        }
    }
}

#[test]
fn other_paths_are_ignored() {
    let (deltas, lines) = two_hunk_stream();
    let d = parse_diff(&deltas, &lines, "b.rs");
    assert_eq!(d.status, FileStatus::Added);
    assert_eq!(d.hunks.len(), 1);
    assert_eq!(d.hunks[0].header, "@@ -1 +1 @@");
    assert_eq!(d.hunks[0].lines[0].content, "other\n");
    let none = parse_diff(&deltas, &lines, "c.rs");
    assert_eq!(none.status, FileStatus::Modified);
    assert!(none.hunks.is_empty());
    assert_eq!(none.old_path, None);
}

#[test]
fn repeated_hunk_header_does_not_split_hunk() {
    let h = hunk("  @@ -3,0 +4,2 @@  ", 3, 0, 4, 2);
    let lines = vec![
        line("f.py", Some(h.clone()), '+', "x\n", None, Some(4)),
        line("f.py", Some(h.clone()), '+', "y\n", None, Some(5)),
    ];
    let d = parse_diff(&vec![delta("f.py", DeltaKind::Modified, false)], &lines, "f.py");
    assert_eq!(d.hunks.len(), 1);
    assert_eq!(d.hunks[0].header, "@@ -3,0 +4,2 @@");
    assert_eq!(d.hunks[0].lines.len(), 2);
    assert_eq!(d.language, Some("python".to_string()));
}

#[test]
fn binary_file_has_no_hunks() {
    let (_, lines) = two_hunk_stream();
    let deltas = vec![delta("a.rs", DeltaKind::Modified, true)];
    let d = parse_diff(&deltas, &lines, "a.rs");
    assert!(d.is_binary);
    assert!(d.hunks.is_empty());
    assert!(!needs_status_check(&d));
}

#[test]
fn rename_sets_old_path_and_status() {
    let deltas = vec![PatchDelta {
        new_path: Some("new.txt".to_string()),
        old_path: Some("old.txt".to_string()),
        kind: DeltaKind::Renamed,
        is_binary: false,
    }];
    let d = parse_diff(&deltas, &vec![], "new.txt");
    assert_eq!(d.status, FileStatus::Renamed);
    assert_eq!(d.old_path, Some("old.txt".to_string()));
    assert_eq!(d.language, None);
}

#[test]
fn deleted_file_is_found_by_old_path() {
    let deltas = vec![
        PatchDelta { new_path: None, old_path: Some("gone.c".to_string()), kind: DeltaKind::Deleted, is_binary: false },
        PatchDelta { new_path: Some("cp.c".to_string()), old_path: Some("src.c".to_string()), kind: DeltaKind::Copied, is_binary: false },
        PatchDelta { new_path: Some("t.c".to_string()), old_path: None, kind: DeltaKind::Other, is_binary: false },
    ];
    assert_eq!(parse_diff(&deltas, &vec![], "gone.c").status, FileStatus::Deleted);
    assert_eq!(parse_diff(&deltas, &vec![], "cp.c").status, FileStatus::Copied);
    assert_eq!(parse_diff(&deltas, &vec![], "t.c").status, FileStatus::Modified);
    assert_eq!(parse_diff(&deltas, &vec![], "gone.c").language, Some("c".to_string()));
}

#[test]
fn builder_seals_on_boundary_change() {
    let mut b = HunkBuilder::new();
    let h1 = hunk("@@ -1 +1 @@", 1, 1, 1, 1);
    let h2 = hunk("@@ -5 +5 @@", 5, 1, 5, 1);
    b.feed(&line("p", Some(h1.clone()), '-', "a\n", Some(1), None));
    b.feed(&line("p", Some(h2.clone()), 'H', "@@ -5 +5 @@\n", None, None));
    b.feed(&line("p", Some(h2.clone()), '+', "b\n", None, Some(5)));
    let hunks = b.finish();
    assert_eq!(hunks.len(), 2);
    assert_eq!(hunks[0].old_start, 1);
    assert_eq!(hunks[1].new_start, 5);
    assert_eq!(hunks[1].lines.len(), 1);
}

#[test]
fn new_untracked_file_gets_synthetic_hunk() {
    let flags = StatusFlags {
        index_new: false,
        index_modified: false,
        index_deleted: false,
        index_renamed: false,
        wt_new: true,
        wt_modified: false,
        wt_deleted: false,
        wt_renamed: false,
    };
    let parsed = parse_diff(&vec![], &vec![], "a.txt");
    assert!(needs_status_check(&parsed));
    let st = synthesis_status(&flags, false).unwrap();
    assert_eq!(st, FileStatus::Untracked);
    let d = create_new_file_diff("a.txt", "first\nsecond\n", st);
    assert_eq!(d.hunks.len(), 1);
    let h = &d.hunks[0];
    assert_eq!(h.header, "@@ -0,0 +1,2 @@");
    assert_eq!((h.old_start, h.old_lines, h.new_start, h.new_lines), (0, 0, 1, 2));
    assert_eq!(h.lines.len(), 2);
    assert_eq!(h.lines[0].line_type, LineType::Addition);
    assert_eq!(h.lines[0].content, "first\n");
    assert_eq!(h.lines[0].new_line_no, Some(1));
    assert_eq!(h.lines[0].old_line_no, None);
    assert_eq!(h.lines[1].line_type, LineType::Addition);
    assert_eq!(h.lines[1].content, "second\n");
    assert_eq!(h.lines[1].new_line_no, Some(2));
    assert_eq!(d.status, FileStatus::Untracked);
    assert_eq!(d.path, "a.txt");
    assert!(!d.is_binary);
    assert_eq!(d.old_path, None);
}

#[test]
fn synthetic_hunk_line_endings() {
    let d = create_new_file_diff("w.md", "one\r\ntwo\r\nlast", FileStatus::Added);
    let h = &d.hunks[0];
    assert_eq!(h.new_lines, 3);
    assert_eq!(h.header, "@@ -0,0 +1,3 @@");
    assert_eq!(h.lines[0].content, "one\n");
    assert_eq!(h.lines[1].content, "two\n");
    assert_eq!(h.lines[2].content, "last\n");
    assert_eq!(d.language, Some("markdown".to_string()));
    let d = create_new_file_diff("bare", "a\rb\n\n", FileStatus::Added);
    let contents: Vec<&str> = d.hunks[0].lines.iter().map(|l| l.content.as_str()).collect();
    assert_eq!(contents, vec!["a\rb\n", "\n"]);
}

#[test]
fn synthetic_hunk_of_empty_file() {
    let d = create_new_file_diff("empty.txt", "", FileStatus::Added);
    assert_eq!(d.hunks.len(), 1);
    assert_eq!(d.hunks[0].header, "@@ -0,0 +1,0 @@");
    assert_eq!(d.hunks[0].new_lines, 0);
    assert!(d.hunks[0].lines.is_empty());
}

#[test]
fn synthetic_hunk_counts_many_lines() {
    let text: String = (0..1234).map(|i| format!("line {}\n", i)).collect();
    let d = create_new_file_diff("big.txt", &text, FileStatus::Untracked);
    assert_eq!(d.hunks[0].header, "@@ -0,0 +1,1234 @@");
    assert_eq!(d.hunks[0].new_lines, 1234);
    assert_eq!(d.hunks[0].lines[1233].new_line_no, Some(1234));
    assert_eq!(d.hunks[0].lines[1233].content, "line 1233\n");
}

#[test]
fn axis_status_on_each_axis() {
    let mut f = StatusFlags {
        index_new: false,
        index_modified: true,
        index_deleted: false,
        index_renamed: true,
        wt_new: false,
        wt_modified: true,
        wt_deleted: false,
        wt_renamed: false,
    };
    assert_eq!(axis_status(&f, true), FileStatus::Modified);
    assert_eq!(axis_status(&f, false), FileStatus::Modified);
    assert_eq!(synthesis_status(&f, true), None);
    f.index_new = true;
    f.wt_deleted = true;
    assert_eq!(axis_status(&f, true), FileStatus::Added);
    assert_eq!(synthesis_status(&f, true), Some(FileStatus::Added));
    assert_eq!(axis_status(&f, false), FileStatus::Deleted);
    assert_eq!(synthesis_status(&f, false), None);
    f.index_new = false;
    f.index_deleted = true;
    assert_eq!(axis_status(&f, true), FileStatus::Deleted);
}

#[test]
fn hunk_header_trims_unicode_white_space() {
    let h = hunk("\u{3000}\t@@ -2 +2 @@ ctx\u{a0}\r\n", 2, 1, 2, 1);
    let lines = vec![line("s.sh", Some(h), '-', "x\n", Some(2), None)];
    let d = parse_diff(&vec![delta("s.sh", DeltaKind::Modified, false)], &lines, "s.sh");
    assert_eq!(d.hunks[0].header, "@@ -2 +2 @@ ctx");
}
