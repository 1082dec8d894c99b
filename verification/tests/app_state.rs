use cmux_diff::app::{AppState, GitRequest, KeyOutcome};
use cmux_diff::keys::KeyInput;
use cmux_diff::model::{ChangeEntry, ChangeSection, FocusArea, StatusLevel, StatusSnapshot};

fn entry(section: ChangeSection, path: &str) -> ChangeEntry {
    ChangeEntry {
        section,
        path: path.to_string(),
        original_path: None,
        staged_status: None,
        unstaged_status: None,
        additions: 0,
        deletions: 0,
    }
}

fn snapshot(entries: Vec<ChangeEntry>) -> StatusSnapshot {
    StatusSnapshot {
        repo_root: "/work/repo".to_string(),
        repo_name: "repo".to_string(),
        branch: "main".to_string(),
        has_commits: true,
        entries,
    }
}

fn three() -> Vec<ChangeEntry> {
    vec![
        entry(ChangeSection::Staged, "a.rs"),
        entry(ChangeSection::Unstaged, "b.rs"),
        entry(ChangeSection::Untracked, "c.rs"),
    ]
}

#[test]
fn a_new_screen_is_waiting_for_its_first_status() {
    let app = AppState::new();
    assert!(app.changes.is_empty());
    assert_eq!(app.diff.body, "Loading diff…");
    assert_eq!(app.status.text, "Ready.");
    assert_eq!(app.focus, FocusArea::FileList);
}

#[test]
fn refresh_selects_the_first_entry_and_asks_for_its_diff() {
    let mut app = AppState::new();
    let load = app.refresh(snapshot(three()), None).unwrap();
    assert_eq!(load.path, "a.rs");
    assert_eq!(app.selected_entry_id.as_deref(), Some("staged:a.rs"));
    assert_eq!(app.status.text, "Refreshed local changes.");
    assert_eq!(app.section_count(ChangeSection::Unstaged), 1);
    assert_eq!(app.entries_in_section(ChangeSection::Untracked)[0].path, "c.rs");
}

#[test]
fn clean_repo_shows_the_clean_message() {
    let mut app = AppState::new();
    assert!(app.refresh(snapshot(vec![]), None).is_none());
    assert!(app.selected_entry().is_none());
    assert!(app.diff.body.contains("Working tree is clean"));
}

#[test]
fn refresh_keeps_the_selection_or_prefers_the_given_entry() {
    let mut app = AppState::new();
    app.refresh(snapshot(three()), None);
    app.move_selection(1);
    assert_eq!(app.selected_entry_id.as_deref(), Some("unstaged:b.rs"));
    app.refresh(snapshot(three()), None);
    assert_eq!(app.selected_entry_id.as_deref(), Some("unstaged:b.rs"));
    app.refresh(snapshot(three()), Some(("c.rs".to_string(), ChangeSection::Untracked)));
    assert_eq!(app.selected_entry_id.as_deref(), Some("untracked:c.rs"));
    app.refresh(snapshot(three()), Some(("gone.rs".to_string(), ChangeSection::Staged)));
    assert_eq!(app.selected_entry_id.as_deref(), Some("untracked:c.rs"));
    app.refresh(snapshot(vec![entry(ChangeSection::Staged, "z.rs")]), None);
    assert_eq!(app.selected_entry_id.as_deref(), Some("staged:z.rs"));
}

#[test]
fn moves_stop_at_the_ends_of_the_list() {
    let mut app = AppState::new();
    app.refresh(snapshot(three()), None);
    app.move_selection(-5);
    assert_eq!(app.selected_entry_id.as_deref(), Some("staged:a.rs"));
    let load = app.move_selection(isize::MAX).unwrap();
    assert_eq!(load.path, "c.rs");
    assert_eq!(app.status.text, "Untracked file selected.");
    app.move_selection(isize::MIN);
    assert_eq!(app.selected_entry_id.as_deref(), Some("staged:a.rs"));
    assert_eq!(app.status.text, "Staged file selected.");
}

#[test]
fn moving_in_an_empty_list_changes_nothing() {
    let mut app = AppState::new();
    app.refresh(snapshot(vec![]), None);
    assert!(app.move_selection(1).is_none());
    assert_eq!(app.status.text, "Refreshed local changes.");
}

#[test]
fn staging_asks_git_and_prefers_the_staged_entry() {
    let mut app = AppState::new();
    app.refresh(snapshot(three()), None);
    assert!(app.stage_selected().is_none());
    assert_eq!(app.status.text, "Selected file is already staged.");
    app.move_selection(2);
    let action = app.stage_selected().unwrap();
    match &action.request {
        GitRequest::Stage(path) => assert_eq!(path, "c.rs"),
        _ => panic!("expected a stage request"),
    }
    let after = vec![entry(ChangeSection::Staged, "a.rs"), entry(ChangeSection::Staged, "c.rs")];
    let load = app.finish_action(&action, snapshot(after)).unwrap();
    assert_eq!(load.path, "c.rs");
    assert_eq!(app.selected_entry_id.as_deref(), Some("staged:c.rs"));
    assert_eq!(app.status.level, StatusLevel::Success);
    assert_eq!(app.status.text, "Staged selected file.");
}

#[test]
fn unstaging_only_applies_to_staged_entries() {
    let mut app = AppState::new();
    app.refresh(snapshot(three()), None);
    let action = app.unstage_selected().unwrap();
    match &action.request {
        GitRequest::Unstage(path) => assert_eq!(path, "a.rs"),
        _ => panic!("expected an unstage request"),
    }
    app.move_selection(1);
    assert!(app.unstage_selected().is_none());
    assert_eq!(app.status.text, "Selected file is not in the staged section.");
}

#[test]
fn commits_need_a_message_and_staged_changes() {
    let mut app = AppState::new();
    app.refresh(snapshot(vec![entry(ChangeSection::Unstaged, "b.rs")]), None);
    app.commit.message = "   ".to_string();
    assert!(app.commit().is_none());
    assert_eq!(app.status.level, StatusLevel::Error);
    assert!(app.status.text.contains("cannot be empty"));
    app.commit.message = "add world".to_string();
    assert!(app.commit().is_none());
    assert!(app.status.text.contains("No staged changes"));
    assert_eq!(app.commit.message, "add world");
}

#[test]
fn committing_clears_the_message_once_done() {
    let mut app = AppState::new();
    app.refresh(snapshot(three()), None);
    app.focus_commit();
    app.commit.message = "  fix it \n".to_string();
    let action = app.commit().unwrap();
    match &action.request {
        GitRequest::Commit(message) => assert_eq!(message, "fix it"),
        _ => panic!("expected a commit request"),
    }
    assert!(app.finish_action(&action, snapshot(vec![])).is_none());
    assert!(app.commit.message.is_empty());
    assert_eq!(app.focus, FocusArea::FileList);
    assert_eq!(app.status.text, "Created commit from staged changes.");
    assert_eq!(app.section_count(ChangeSection::Staged), 0);
}

#[test]
fn typing_and_backspace_edit_the_message() {
    let mut app = AppState::new();
    app.push_commit_char('h');
    app.push_commit_char('é');
    assert_eq!(app.commit.message, "hé");
    app.backspace_commit();
    assert_eq!(app.commit.message, "h");
    app.backspace_commit();
    app.backspace_commit();
    assert_eq!(app.commit.message, "");
}

#[test]
fn focus_switches_back_and_forth() {
    let mut app = AppState::new();
    app.toggle_focus();
    assert_eq!(app.focus, FocusArea::CommitInput);
    app.toggle_focus();
    assert_eq!(app.focus, FocusArea::FileList);
    app.focus_commit();
    app.focus_file_list();
    assert_eq!(app.focus, FocusArea::FileList);
    assert_eq!(app.status.text, "Working tree is clean.");
}

#[test]
fn entry_ids_and_display_paths() {
    let mut e = entry(ChangeSection::Unstaged, "src/x.rs");
    assert_eq!(e.id(), "unstaged:src/x.rs");
    assert_eq!(e.display_path(), "src/x.rs");
    e.original_path = Some("src/y.rs".to_string());
    assert_eq!(e.display_path(), "src/y.rs -> src/x.rs");
    assert_eq!(e.file_name(), "x.rs");
    assert_eq!(e.parent_path().as_deref(), Some("src"));
    assert_eq!(e.tree_depth(), 1);
    assert_eq!(ChangeSection::Untracked.title(), "Untracked");
    assert_eq!(ChangeSection::Staged.as_str(), "staged");
}

#[test]
fn the_three_sections_hold_every_entry() {
    let mut app = AppState::new();
    let mut entries = three();
    entries.push(entry(ChangeSection::Staged, "b.rs"));
    app.refresh(snapshot(entries), None);
    let total = app.section_count(ChangeSection::Staged)
        + app.section_count(ChangeSection::Unstaged)
        + app.section_count(ChangeSection::Untracked);
    assert_eq!(total, app.changes.len());
}

#[test]
fn the_same_path_in_two_sections_has_two_ids() {
    let staged = entry(ChangeSection::Staged, "a.rs");
    let unstaged = entry(ChangeSection::Unstaged, "a.rs");
    assert_ne!(staged.id(), unstaged.id());
    let mut app = AppState::new();
    app.refresh(snapshot(vec![staged, unstaged]), None);
    app.move_selection(1);
    assert_eq!(app.selected_entry().map(|e| e.section), Some(ChangeSection::Unstaged));
}

#[test]
fn x_in_the_file_list_does_nothing() {
    let mut app = AppState::new();
    app.refresh(snapshot(three()), None);
    let before_selected = app.selected_entry_id.clone();
    let before_status = app.status.text.clone();
    assert!(matches!(app.apply_key(KeyInput::Char('x')), KeyOutcome::Continue));
    assert_eq!(app.selected_entry_id, before_selected);
    assert_eq!(app.status.text, before_status);
    assert_eq!(app.changes.len(), 3);
    assert_eq!(app.focus, FocusArea::FileList);
}

#[test]
fn keys_run_the_screen_commands() {
    let mut app = AppState::new();
    app.refresh(snapshot(three()), None);
    match app.apply_key(KeyInput::Char('j')) {
        KeyOutcome::LoadDiff(e) => assert_eq!(e.path, "b.rs"),
        _ => panic!("moving down loads the next diff"),
    }
    assert_eq!(app.selected_entry_id.as_deref(), Some("unstaged:b.rs"));
    match app.apply_key(KeyInput::Char('s')) {
        KeyOutcome::Perform(action) => {
            assert!(matches!(action.request, GitRequest::Stage(ref p) if p == "b.rs"))
        }
        _ => panic!("s stages the selected entry"),
    }
    assert!(matches!(app.apply_key(KeyInput::Char('r')), KeyOutcome::RefreshStatus));
    assert!(matches!(app.apply_key(KeyInput::Char('c')), KeyOutcome::Continue));
    assert_eq!(app.focus, FocusArea::CommitInput);
    assert!(matches!(app.apply_key(KeyInput::Char('h')), KeyOutcome::Continue));
    assert!(matches!(app.apply_key(KeyInput::Char('i')), KeyOutcome::Continue));
    assert_eq!(app.commit.message, "hi");
    assert!(matches!(app.apply_key(KeyInput::Backspace), KeyOutcome::Continue));
    assert_eq!(app.commit.message, "h");
    assert!(matches!(app.apply_key(KeyInput::Esc), KeyOutcome::Continue));
    assert_eq!(app.focus, FocusArea::FileList);
    assert!(matches!(app.apply_key(KeyInput::Char('\t')), KeyOutcome::Continue));
    assert_eq!(app.focus, FocusArea::CommitInput);
    assert!(matches!(app.apply_key(KeyInput::Char('q')), KeyOutcome::Quit));
}

#[test]
fn frames_stay_when_the_message_is_edited() {
    let mut app = AppState::new();
    app.refresh(snapshot(three()), None);
    app.push_commit_char('a');
    app.backspace_commit();
    app.toggle_focus();
    app.focus_commit();
    app.focus_file_list();
    assert_eq!(app.repo_name, "repo");
    assert_eq!(app.repo_root, "/work/repo");
    assert_eq!(app.branch, "main");
    assert!(app.has_commits);
}

#[test]
fn o_asks_to_open_the_selected_file() {
    let mut app = AppState::new();
    assert!(matches!(app.apply_key(KeyInput::Char('o')), KeyOutcome::Continue));
    app.refresh(snapshot(three()), None);
    app.move_selection(1);
    match app.apply_key(KeyInput::Char('o')) {
        KeyOutcome::OpenEditor(e) => assert_eq!(e.path, "b.rs"),
        _ => panic!("o opens the selected entry"),
    }
    assert_eq!(app.selected_entry_id.as_deref(), Some("unstaged:b.rs"));
}

#[test]
fn unstaging_right_after_staging_names_the_same_file() {
    let mut app = AppState::new();
    app.refresh(snapshot(three()), None);
    app.move_selection(1);
    let stage = app.stage_selected().unwrap();
    let after = vec![entry(ChangeSection::Staged, "a.rs"), entry(ChangeSection::Staged, "b.rs"), entry(ChangeSection::Untracked, "c.rs")];
    app.finish_action(&stage, snapshot(after));
    let unstage = app.unstage_selected().unwrap();
    match &unstage.request {
        GitRequest::Unstage(path) => assert_eq!(path, "b.rs"),
        _ => panic!("expected an unstage request"),
    }
    assert_eq!(unstage.preferred, Some(("b.rs".to_string(), ChangeSection::Unstaged)));
    assert_eq!(unstage.success, "Unstaged selected file.");
    app.finish_action(&unstage, snapshot(three()));
    assert_eq!(app.section_count(ChangeSection::Staged), 1);
    assert_eq!(app.section_count(ChangeSection::Unstaged), 1);
    assert_eq!(app.status.text, "Unstaged selected file.");
    assert_eq!(app.selected_entry_id.as_deref(), Some("unstaged:b.rs"));
}
