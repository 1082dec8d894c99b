use cmux_diff::git::{
    build_snapshot, diff_command, diff_content_for_entry, empty_diff_fallback,
    git_command_result, is_retryable_spawn_error, parse_numstat_output, parse_status_output,
    retry_delay_ms, stage_command, GitError,
};
use cmux_diff::git::{commit_command, invocation_args, pager_environment, unstage_command};
use cmux_diff::model::{ChangeEntry, ChangeSection};

#[test]
fn parses_status_lines_into_sections() {
    let input = "\
# branch.oid abcdef
# branch.head main
1 MM N... 100644 100644 100644 abc def src/main.rs
1 .M N... 100644 100644 100644 abc def Cargo.toml
? notes.txt
";

    let (branch, entries) = parse_status_output(input);
    assert_eq!(branch, "main");
    assert_eq!(entries.len(), 4);
    assert_eq!(entries[0].section, ChangeSection::Staged);
    assert_eq!(entries[0].path, "src/main.rs");
    assert_eq!(entries[1].section, ChangeSection::Unstaged);
    assert_eq!(entries[1].path, "Cargo.toml");
    assert_eq!(entries[2].section, ChangeSection::Unstaged);
    assert_eq!(entries[2].path, "src/main.rs");
    assert_eq!(entries[3].section, ChangeSection::Untracked);
}

#[test]
fn parses_rename_record_display_data() {
    let input = "\
# branch.head feature
2 R. N... 100644 100644 100644 abc def R100 src/new.rs\tsrc/old.rs
";

    let (_, entries) = parse_status_output(input);
    assert_eq!(entries.len(), 1);
    assert_eq!(entries[0].section, ChangeSection::Staged);
    assert_eq!(entries[0].path, "src/new.rs");
    assert_eq!(entries[0].original_path.as_deref(), Some("src/old.rs"));
}

#[test]
fn parses_numstat_output_for_text_and_binary_changes() {
    assert_eq!(parse_numstat_output("12\t3\tsrc/app.rs\n"), (12, 3));
    assert_eq!(parse_numstat_output("-\t-\tassets/logo.png\n"), (0, 0));
    assert_eq!(parse_numstat_output(""), (0, 0));
}

#[test]
fn detached_heads_and_missing_heads_read_as_detached() {
    assert_eq!(parse_status_output("# branch.head (detached)\n").0, "detached");
    assert_eq!(parse_status_output("? a\n").0, "detached");
    assert_eq!(parse_status_output("# branch.head  topic  \n").0, "topic");
    assert_eq!(parse_status_output("# branch.head a\n# branch.head b\n").0, "b");
}

#[test]
fn status_entries_are_sorted_by_section_then_path() {
    let input = "? z.txt\n? a.txt\n1 .M N... 1 1 1 a b zeta\n1 A. N... 1 1 1 a b beta\n1 M. N... 1 1 1 a b alpha\n";
    let (_, entries) = parse_status_output(input);
    let got: Vec<(ChangeSection, &str)> =
        entries.iter().map(|e| (e.section, e.path.as_str())).collect();
    assert_eq!(
        got,
        vec![
            (ChangeSection::Staged, "alpha"),
            (ChangeSection::Staged, "beta"),
            (ChangeSection::Unstaged, "zeta"),
            (ChangeSection::Untracked, "a.txt"),
            (ChangeSection::Untracked, "z.txt"),
        ]
    );
    assert_eq!(entries[0].staged_status, Some('M'));
    assert_eq!(entries[0].unstaged_status, None);
    assert_eq!(entries[2].unstaged_status, Some('M'));
}

#[test]
fn short_records_and_other_lines_add_nothing() {
    let input = "1 M. N... 1 1 1 a\n2 R. N... 1 1 1 a b R100 nopath\nu UU N... x\n";
    let (_, entries) = parse_status_output(input);
    assert!(entries.is_empty());
}

#[test]
fn paths_with_spaces_are_kept_whole() {
    let (_, entries) = parse_status_output("1 .M N... 1 1 1 a b my file.txt\n");
    assert_eq!(entries.len(), 1);
    assert_eq!(entries[0].path, "my file.txt");
}

#[test]
fn numstat_takes_the_first_counting_line() {
    assert_eq!(parse_numstat_output("noise\n7\t0\tf\n1\t1\tg\n"), (7, 0));
    assert_eq!(parse_numstat_output("+4\t2\tf\n"), (4, 2));
}

#[test]
fn empty_diffs_fall_back_to_a_message() {
    assert_eq!(empty_diff_fallback(" \n\t".to_string(), "none"), "none");
    assert_eq!(empty_diff_fallback(" x ".to_string(), "none"), " x ");
}

#[test]
fn failed_git_commands_report_stderr_then_stdout_then_status() {
    match git_command_result(Some(1), &vec![0], "out".to_string(), "  bad thing \n".to_string()) {
        Err(GitError::CommandFailed(m)) => assert_eq!(m, "bad thing"),
        Ok(_) => panic!("expected a failure"),
    }
    match git_command_result(Some(2), &vec![0], " o ".to_string(), "".to_string()) {
        Err(GitError::CommandFailed(m)) => assert_eq!(m, "o"),
        Ok(_) => panic!("expected a failure"),
    }
    match git_command_result(None, &vec![0], "".to_string(), "".to_string()) {
        Err(GitError::CommandFailed(m)) => assert_eq!(m, "git exited with status -1"),
        Ok(_) => panic!("expected a failure"),
    }
    match git_command_result(Some(1), &vec![0, 1], " raw ".to_string(), "e".to_string()) {
        Ok(out) => assert_eq!(out, " raw "),
        Err(_) => panic!("expected success"),
    }
}

#[test]
fn spawn_retries_double_their_delay_three_times() {
    assert!(is_retryable_spawn_error(true, None));
    assert!(is_retryable_spawn_error(false, Some(35)));
    assert!(!is_retryable_spawn_error(false, Some(2)));
    assert_eq!(retry_delay_ms(0, true), Some(25));
    assert_eq!(retry_delay_ms(1, true), Some(50));
    assert_eq!(retry_delay_ms(2, true), Some(100));
    assert_eq!(retry_delay_ms(3, true), None);
    assert_eq!(retry_delay_ms(0, false), None);
}

fn entry(section: ChangeSection, path: &str) -> ChangeEntry {
    ChangeEntry {
        section,
        path: path.to_string(),
        original_path: None,
        staged_status: None,
        unstaged_status: None,
        additions: 0,
        deletions: 0,
    }
}

#[test]
fn diff_commands_depend_on_section_and_history() {
    let staged = entry(ChangeSection::Staged, "a.rs");
    assert_eq!(diff_command(&staged, true, false).args, vec!["diff", "--cached", "--", "a.rs"]);
    assert_eq!(
        diff_command(&staged, false, true).args,
        vec!["diff", "--cached", "--root", "--numstat", "--", "a.rs"]
    );
    let untracked = entry(ChangeSection::Untracked, "n.rs");
    let cmd = diff_command(&untracked, true, false);
    assert_eq!(cmd.args, vec!["diff", "--no-index", "--", "/dev/null", "n.rs"]);
    assert_eq!(cmd.allowed_exit_codes, vec![0, 1]);
    let unstaged = entry(ChangeSection::Unstaged, "u.rs");
    assert_eq!(diff_command(&unstaged, true, true).args, vec!["diff", "--numstat", "--", "u.rs"]);
    assert_eq!(stage_command("p q").args, vec!["add", "--", "p q"]);
}

#[test]
fn diff_content_titles_and_parses_the_output() {
    let mut renamed = entry(ChangeSection::Staged, "src/new.rs");
    renamed.original_path = Some("src/old.rs".to_string());
    let content = diff_content_for_entry(&renamed, "@@ -1 +3 @@\n+x\n".to_string());
    assert_eq!(content.title, "Staged · src/old.rs -> src/new.rs");
    assert_eq!(content.hunks.len(), 1);
    assert_eq!(content.hunks[0].new_start, 3);
    let empty = diff_content_for_entry(&entry(ChangeSection::Untracked, "n"), "\n".to_string());
    assert_eq!(empty.body, "Untracked file preview is not available.");
    assert!(empty.hunks.is_empty());
}

#[test]
fn snapshots_are_named_after_the_repository_root() {
    let snap = build_snapshot("/home/me/project/".to_string(), "# branch.head dev\n? x\n", true);
    assert_eq!(snap.repo_name, "project");
    assert_eq!(snap.branch, "dev");
    assert_eq!(snap.entries.len(), 1);
    assert_eq!(build_snapshot("/".to_string(), "", false).repo_name, "repo");
}

#[test]
fn every_git_invocation_turns_off_pager_and_colours() {
    let args = invocation_args(&stage_command("src/a b.rs"));
    assert_eq!(args, vec!["--no-pager", "-c", "color.ui=never", "add", "--", "src/a b.rs"]);
    let args = invocation_args(&unstage_command("x.rs"));
    assert_eq!(
        args,
        vec!["--no-pager", "-c", "color.ui=never", "restore", "--staged", "--", "x.rs"]
    );
    let args = invocation_args(&commit_command("fix: it; rm -rf /"));
    assert_eq!(args, vec!["--no-pager", "-c", "color.ui=never", "commit", "-m", "fix: it; rm -rf /"]);
    assert_eq!(pager_environment(), ("GIT_PAGER".to_string(), "cat".to_string()));
}
