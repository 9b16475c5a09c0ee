use blame_compare::config::Args;
use blame_compare::format::{kind_for_executable, ExecutableKind, UnrecognizedExecutable};
use blame_compare::listing::text_file_of_listing;

fn args(work_tree: &str, skip: Option<usize>, take: Option<usize>) -> Args {
    Args {
        git_work_tree: work_tree.to_string(),
        baseline_executable: "git".to_string(),
        comparison_executable: "gix".to_string(),
        args: None,
        skip,
        take,
    }
}

#[test]
fn executables_resolve_by_file_name() {
    assert_eq!(kind_for_executable("/usr/bin/git"), Ok(ExecutableKind::ReferenceTool));
    assert_eq!(kind_for_executable("git"), Ok(ExecutableKind::ReferenceTool));
    assert_eq!(kind_for_executable("target/release/gix"), Ok(ExecutableKind::CandidateTool));
    assert_eq!(kind_for_executable("/opt/gix/"), Ok(ExecutableKind::CandidateTool));
}

#[test]
fn unknown_executables_are_rejected() {
    assert_eq!(kind_for_executable("/usr/bin/gitx"), Err(UnrecognizedExecutable));
    assert_eq!(kind_for_executable("/git/blame"), Err(UnrecognizedExecutable));
    assert_eq!(kind_for_executable(""), Err(UnrecognizedExecutable));
    assert_eq!(kind_for_executable("/usr/bin/git.exe"), Err(UnrecognizedExecutable));
}

#[test]
fn git_dir_joins_work_tree() {
    assert_eq!(args("/repo", None, None).git_dir(), "/repo/.git");
    assert_eq!(args("/repo/", None, None).git_dir(), "/repo/.git");
    assert_eq!(args("", None, None).git_dir(), ".git");
}

#[test]
fn file_window_skip_and_take() {
    assert_eq!(args("r", None, None).file_window(10), (0, 10));
    assert_eq!(args("r", Some(3), None).file_window(10), (3, 10));
    assert_eq!(args("r", Some(3), Some(4)).file_window(10), (3, 7));
    assert_eq!(args("r", Some(8), Some(4)).file_window(10), (8, 10));
    assert_eq!(args("r", Some(12), None).file_window(10), (10, 10));
    assert_eq!(args("r", Some(1), Some(usize::MAX)).file_window(10), (1, 10));
}

#[test]
fn listing_keeps_text_files() {
    let chars = |s: &str| -> Vec<char> { s.chars().collect() };
    assert_eq!(text_file_of_listing("src/main.rs lf"), Some(chars("src/main.rs")));
    assert_eq!(text_file_of_listing("  README.md\tcrlf "), Some(chars("README.md")));
    assert_eq!(text_file_of_listing("logo.png -text"), None);
    assert_eq!(text_file_of_listing("my file.txt lf"), None);
    assert_eq!(text_file_of_listing("lonely"), None);
    assert_eq!(text_file_of_listing(""), None);
}
