use revu::text::{chars_lt, push_decimal, split_lines, string_of};
use revu::{
    combine_diffs, detect_language, finish_file_diff, new_file_diff, parse_diff, parse_stream,
    review_file_name, AppError, DeltaKind, FileStatus, NewFileProbe, PatchDelta, PatchHunk,
    PatchLine, StatusFlags,
};

fn delta(path: &str, kind: DeltaKind) -> PatchDelta {
    PatchDelta { new_path: Some(path.to_string()), old_path: Some(path.to_string()), kind, is_binary: false }
}

fn add_line(path: &str, content: &str) -> PatchLine {
    PatchLine {
        new_path: Some(path.to_string()),
        old_path: Some(path.to_string()),
        hunk: Some(PatchHunk { header: "@@ -0,0 +1 @@".to_string(), old_start: 0, old_lines: 0, new_start: 1, new_lines: 1 }),
        origin: '+',
        content: content.to_string(),
        old_lineno: None,
        new_lineno: Some(1),
    }
}

fn flags(index_new: bool, wt_new: bool) -> StatusFlags {
    StatusFlags {
        index_new,
        index_modified: false,
        index_deleted: false,
        index_renamed: false,
        wt_new,
        wt_modified: !wt_new,
        wt_deleted: false,
        wt_renamed: false,
    }
}

#[test]
fn combined_prefers_staged_and_has_no_duplicates() {
    let staged = vec![delta("a.txt", DeltaKind::Added), delta("b.txt", DeltaKind::Modified)];
    let staged_lines = Some(vec![add_line("a.txt", "staged a\n"), add_line("b.txt", "staged b\n")]);
    let unstaged = vec![delta("c.txt", DeltaKind::Modified), delta("a.txt", DeltaKind::Modified)];
    let unstaged_lines = Some(vec![add_line("c.txt", "wt c\n"), add_line("a.txt", "wt a\n")]);
    let r = combine_diffs(&staged, &staged_lines, &vec![], &unstaged, &unstaged_lines, &vec![]);
    let paths: Vec<&str> = r.iter().map(|d| d.path.as_str()).collect();
    assert_eq!(paths, vec!["a.txt", "b.txt", "c.txt"]);
    assert_eq!(r[0].status, FileStatus::Added);
    assert_eq!(r[0].hunks[0].lines[0].content, "staged a\n");
    assert_eq!(r[2].hunks[0].lines[0].content, "wt c\n");
}

#[test]
fn combined_synthesizes_new_files() {
    let staged = vec![delta("new.rs", DeltaKind::Added)];
    let staged_probes = vec![Some(NewFileProbe {
        flags: Some(flags(true, false)),
        content: Some("fn main() {}\n".to_string()),
    })];
    let unstaged = vec![delta("u.txt", DeltaKind::Added), delta("m.txt", DeltaKind::Modified)];
    let unstaged_probes = vec![
        Some(NewFileProbe { flags: Some(flags(false, true)), content: Some("x\ny\n".to_string()) }),
        Some(NewFileProbe { flags: Some(flags(false, false)), content: None }),
    ];
    let r = combine_diffs(&staged, &Some(vec![]), &staged_probes, &unstaged, &Some(vec![]), &unstaged_probes);
    let paths: Vec<&str> = r.iter().map(|d| d.path.as_str()).collect();
    assert_eq!(paths, vec!["new.rs", "u.txt", "m.txt"]);
    assert_eq!(r[0].status, FileStatus::Added);
    assert_eq!(r[0].hunks[0].header, "@@ -0,0 +1,1 @@");
    assert_eq!(r[0].language, Some("rust".to_string()));
    assert_eq!(r[1].status, FileStatus::Untracked);
    assert_eq!(r[1].hunks[0].new_lines, 2);
    assert_eq!(r[2].status, FileStatus::Modified);
    assert!(r[2].hunks.is_empty());
}

#[test]
fn combined_skips_only_failed_paths() {
    let staged = vec![delta("a.txt", DeltaKind::Added), delta("ok.txt", DeltaKind::Modified)];
    let staged_probes = vec![
        Some(NewFileProbe { flags: Some(flags(true, false)), content: None }),
        None,
    ];
    let staged_lines = Some(vec![add_line("ok.txt", "line\n")]);
    let unstaged = vec![delta("a.txt", DeltaKind::Modified), delta("gone.txt", DeltaKind::Deleted)];
    let unstaged_lines = Some(vec![add_line("a.txt", "wt a\n")]);
    let r = combine_diffs(&staged, &staged_lines, &staged_probes, &unstaged, &unstaged_lines, &vec![]);
    let paths: Vec<&str> = r.iter().map(|d| d.path.as_str()).collect();
    assert_eq!(paths, vec!["ok.txt", "a.txt"]);
    assert_eq!(r[1].status, FileStatus::Modified);
    assert_eq!(r[1].hunks[0].lines[0].content, "wt a\n");
}

#[test]
fn combined_keeps_binary_paths_of_unreadable_stream() {
    let staged = vec![
        PatchDelta { is_binary: true, ..delta("img.png", DeltaKind::Modified) },
        delta("t.txt", DeltaKind::Modified),
    ];
    let r = combine_diffs(&staged, &None, &vec![], &vec![], &None, &vec![]);
    assert_eq!(r.len(), 1);
    assert_eq!(r[0].path, "img.png");
    assert!(r[0].is_binary);
    assert!(r[0].hunks.is_empty());
    assert!(combine_diffs(&vec![], &None, &vec![], &vec![], &None, &vec![]).is_empty());
}

#[test]
fn finish_file_diff_cases() {
    let parsed = parse_diff(&vec![], &vec![], "n.txt");
    let probe = NewFileProbe { flags: Some(flags(false, true)), content: Some("a".to_string()) };
    let d = finish_file_diff(parsed.clone(), Some(&probe), false).unwrap();
    assert_eq!(d.hunks[0].header, "@@ -0,0 +1,1 @@");
    assert_eq!(d.hunks[0].lines[0].content, "a\n");
    assert!(finish_file_diff(parsed.clone(), None, false).is_none());
    let no_flags = NewFileProbe { flags: None, content: None };
    assert!(finish_file_diff(parsed.clone(), Some(&no_flags), false).is_none());
    let kept = finish_file_diff(parsed, Some(&probe), true).unwrap();
    assert!(kept.hunks.is_empty());
    assert_eq!(kept.status, FileStatus::Modified);
}

#[test]
fn parse_stream_without_lines() {
    let deltas = vec![PatchDelta { is_binary: true, ..delta("b.bin", DeltaKind::Added) }, delta("t.txt", DeltaKind::Added)];
    let b = parse_stream(&deltas, &None, "b.bin").unwrap();
    assert!(b.is_binary);
    assert_eq!(b.status, FileStatus::Added);
    assert!(parse_stream(&deltas, &None, "t.txt").is_none());
    assert_eq!(parse_stream(&deltas, &Some(vec![add_line("t.txt", "z\n")]), "t.txt").unwrap().hunks.len(), 1);
}

#[test]
fn new_file_diff_within_limits() {
    let d = new_file_diff("k.kt", "one\ntwo", FileStatus::Added).unwrap();
    assert_eq!(d.hunks[0].header, "@@ -0,0 +1,2 @@");
    assert_eq!(d.language, Some("kotlin".to_string()));
}

#[test]
fn languages_from_extensions() {
    assert_eq!(detect_language("src/main.rs"), Some("rust".to_string()));
    assert_eq!(detect_language("web/App.TSX"), Some("tsx".to_string()));
    assert_eq!(detect_language("Lib.MJS"), Some("javascript".to_string()));
    assert_eq!(detect_language("a/b.hpp"), Some("cpp".to_string()));
    assert_eq!(detect_language("notes.markdown"), Some("markdown".to_string()));
    assert_eq!(detect_language("build.Dockerfile"), Some("dockerfile".to_string()));
    assert_eq!(detect_language("run.zsh"), Some("bash".to_string()));
    assert_eq!(detect_language("Dockerfile"), None);
    assert_eq!(detect_language(".bashrc"), None);
    assert_eq!(detect_language("archive.tar.gz"), None);
    assert_eq!(detect_language("dir.rs/file"), None);
    assert_eq!(detect_language(""), None);
}

#[test]
fn error_messages() {
    assert_eq!(AppError::Git("bad ref".to_string()).message(), "Git error: bad ref");
    assert_eq!(AppError::RepoNotFound("/tmp/x".to_string()).message(), "Repository not found: /tmp/x");
    assert_eq!(AppError::Io("denied".to_string()).message(), "IO error: denied");
    assert_eq!(AppError::Custom("No working directory".to_string()).message(), "No working directory");
}

#[test]
fn review_file_names() {
    assert_eq!(review_file_name("/home/me/proj", 1700000000), "proj-1700000000.md");
    assert_eq!(review_file_name("/home/me/proj/", 7), "proj-7.md");
    assert_eq!(review_file_name("/", 0), "unknown-0.md");
    assert_eq!(review_file_name("..", 42), "unknown-42.md");
}

#[test]
fn decimal_rendering() {
    let mut s = String::from("n=");
    push_decimal(&mut s, 0);
    assert_eq!(s, "n=0");
    let mut s = String::new();
    push_decimal(&mut s, u64::MAX);
    assert_eq!(s, "18446744073709551615");
    let mut s = String::new();
    push_decimal(&mut s, 1000);
    assert_eq!(s, "1000");
}

#[test]
fn text_helpers() {
    assert_eq!(split_lines("a\nb\r\n\nc"), vec!["a", "b", "", "c"]);
    assert!(split_lines("").is_empty());
    assert_eq!(split_lines("\n"), vec![""]);
    assert_eq!(string_of(&['h', 'é', '!']), "hé!");
    assert!(chars_lt(&vec!['a'], &vec!['a', 'b']));
    assert!(!chars_lt(&vec!['b'], &vec!['a', 'z']));
    assert!(!chars_lt(&vec!['a'], &vec!['a']));
}

#[test]
fn review_names_from_directory_names() {
    assert_eq!(revu::review_name_for(Some("repo".to_string()), 12), "repo-12.md");
    assert_eq!(revu::review_name_for(None, 3), "unknown-3.md");
}

#[test]
fn language_table_lookups() {
    assert_eq!(revu::language_for_extension(&"yml".to_string()), Some("yaml".to_string()));
    assert_eq!(revu::language_for_extension(&"kts".to_string()), Some("kotlin".to_string()));
    assert_eq!(revu::language_for_extension(&"RS".to_string()), None);
    assert_eq!(revu::language_for_extension(&"".to_string()), None);
}
