use cmux_diff::app::AppState;
use cmux_diff::model::{ChangeEntry, ChangeSection, FocusArea, StatusSnapshot};
use cmux_diff::ui::{
    change_entry_line, change_entry_row, change_list, classify_diff_line, diff_line_style,
    digit_count, header_text, help_line, pad_line_for_background, pane_title, section_heading, stats_width,
    styled_diff_text, truncate_for_width, DiffLineKind, ListRow, Paint, SpanStyle,
};

#[test]
fn classifies_diff_metadata_before_add_remove_markers() {
    assert_eq!(
        classify_diff_line("+++ b/src/main.rs"),
        DiffLineKind::Header
    );
    assert_eq!(
        classify_diff_line("--- a/src/main.rs"),
        DiffLineKind::Header
    );
    assert_eq!(classify_diff_line("@@ -1,2 +1,2 @@"), DiffLineKind::Hunk);
    assert_eq!(classify_diff_line("+let x = 1;"), DiffLineKind::Added);
    assert_eq!(classify_diff_line("-let x = 0;"), DiffLineKind::Removed);
    assert_eq!(classify_diff_line(" context"), DiffLineKind::Plain);
}

#[test]
fn active_pane_titles_are_labeled() {
    assert_eq!(pane_title("Diff", true), "Diff • active");
    assert_eq!(pane_title("Diff", false), "Diff");
}

#[test]
fn change_rows_include_parent_path_and_diff_stats() {
    let entry = ChangeEntry {
        section: ChangeSection::Unstaged,
        path: "src/deep/file.rs".to_string(),
        original_path: None,
        staged_status: None,
        unstaged_status: Some('M'),
        additions: 12,
        deletions: 3,
    };

    let spans = change_entry_line(&entry, 40);
    let rendered: String = spans.iter().map(|span| span.text.as_str()).collect();

    assert!(rendered.contains("file.rs"));
    assert!(rendered.contains("src/deep"));
    assert!(rendered.contains("+12"));
    assert!(rendered.contains("-3"));
    assert!(rendered.ends_with(" +12 -3"));
    assert_eq!(rendered.chars().count(), 40);
}

#[test]
fn row_pieces_carry_their_styles() {
    let entry = ChangeEntry {
        section: ChangeSection::Unstaged,
        path: "src/deep/file.rs".to_string(),
        original_path: None,
        staged_status: None,
        unstaged_status: Some('M'),
        additions: 12,
        deletions: 3,
    };
    let spans = change_entry_line(&entry, 40);
    let styles: Vec<SpanStyle> = spans.iter().map(|span| span.style).collect();
    assert_eq!(
        styles,
        vec![
            SpanStyle::Plain,
            SpanStyle::Bold,
            SpanStyle::Plain,
            SpanStyle::Dim,
            SpanStyle::Plain,
            SpanStyle::Plain,
            SpanStyle::Added,
            SpanStyle::Plain,
            SpanStyle::Removed,
        ]
    );
    assert_eq!(spans[1].text, "file.rs");
    assert_eq!(spans[3].text, "src/deep");
    assert_eq!(spans[6].text, "+12");
    assert_eq!(spans[8].text, "-3");
    let only_deletions = ChangeEntry { additions: 0, ..entry };
    let spans = change_entry_line(&only_deletions, 40);
    let rendered: String = spans.iter().map(|span| span.text.as_str()).collect();
    assert!(rendered.ends_with(" -3"));
    assert_eq!(rendered.chars().count(), 40);
}

#[test]
fn rows_without_counts_end_after_the_parent() {
    let entry = ChangeEntry {
        section: ChangeSection::Staged,
        path: "src/lib.rs".to_string(),
        original_path: None,
        staged_status: Some('A'),
        unstaged_status: None,
        additions: 0,
        deletions: 0,
    };
    let spans = change_entry_line(&entry, 40);
    let rendered: String = spans.iter().map(|span| span.text.as_str()).collect();
    assert_eq!(rendered, "    lib.rs src");
}

#[test]
fn truncates_parent_paths_to_fit_available_width() {
    assert_eq!(truncate_for_width("src/really/long/path", 8), "src/rea…");
    assert_eq!(truncate_for_width("short", 8), "short");
    assert_eq!(truncate_for_width("path", 1), "…");
}

#[test]
fn truncating_to_no_width_leaves_nothing() {
    assert_eq!(truncate_for_width("abc", 0), "");
    assert_eq!(truncate_for_width("", 0), "");
}

#[test]
fn pads_added_and_removed_lines_to_the_pane_width() {
    let lines = styled_diff_text("+new\n-old\n ctx", 8);
    assert_eq!(lines.len(), 3);
    assert_eq!(lines[0].text, "+new    ");
    assert_eq!(lines[0].kind, DiffLineKind::Added);
    assert_eq!(lines[1].text, "-old    ");
    assert_eq!(lines[1].kind, DiffLineKind::Removed);
    assert_eq!(lines[2].text, " ctx");
    let empty = styled_diff_text("", 8);
    assert_eq!(empty.len(), 1);
    assert_eq!(empty[0].text, "");
    assert_eq!(pad_line_for_background("abc", 2), "abc");
    assert_eq!(pad_line_for_background("ab", 0), "ab");
    assert_eq!(pad_line_for_background("é", 3), "é  ");
}

#[test]
fn stats_widths_count_digits_and_signs() {
    assert_eq!(digit_count(0), 1);
    assert_eq!(digit_count(9), 1);
    assert_eq!(digit_count(10), 2);
    assert_eq!(digit_count(usize::MAX), usize::MAX.to_string().len());
    let mut entry = ChangeEntry {
        section: ChangeSection::Staged,
        path: "a".to_string(),
        original_path: None,
        staged_status: Some('M'),
        unstaged_status: None,
        additions: 0,
        deletions: 0,
    };
    assert_eq!(stats_width(&entry), 0);
    entry.additions = 120;
    assert_eq!(stats_width(&entry), 4);
    entry.deletions = 5;
    assert_eq!(stats_width(&entry), 7);
    entry.additions = 0;
    assert_eq!(stats_width(&entry), 2);
}

#[test]
fn rows_of_renames_show_where_they_came_from() {
    let entry = ChangeEntry {
        section: ChangeSection::Staged,
        path: "new.rs".to_string(),
        original_path: Some("old.rs".to_string()),
        staged_status: Some('R'),
        unstaged_status: None,
        additions: 0,
        deletions: 0,
    };
    let row = change_entry_row(&entry, 30);
    assert_eq!(row.indent, "  ");
    assert_eq!(row.name, "new.rs");
    assert_eq!(row.parent, "← old.rs");
    assert_eq!(row.spacer.len(), 30 - (2 + 6 + 1 + 8));
    assert!(row.additions.is_none() && row.deletions.is_none());
    let narrow = change_entry_row(&entry, 12);
    assert_eq!(narrow.parent, "← o…");
}

#[test]
fn pads_added_and_removed_lines_for_full_width_highlighting() {
    let t = styled_diff_text("+new\n-old", 8);
    assert_eq!(t.len(), 2);
    assert_eq!(t[0].text, "+new    ");
    assert_eq!(t[1].text, "-old    ");
    assert_eq!(t[0].style.bg, Some(Paint::Rgb(21, 68, 42)));
    assert_eq!(t[1].style.bg, Some(Paint::Rgb(96, 34, 40)));
}

#[test]
fn each_kind_of_diff_line_has_its_style() {
    let header = diff_line_style(DiffLineKind::Header);
    assert_eq!(header.fg, Some(Paint::Yellow));
    assert!(header.bold);
    let hunk = diff_line_style(DiffLineKind::Hunk);
    assert_eq!(hunk.fg, Some(Paint::Cyan));
    assert!(hunk.bold);
    let added = diff_line_style(DiffLineKind::Added);
    assert_eq!(added.fg, Some(Paint::Rgb(214, 255, 214)));
    let removed = diff_line_style(DiffLineKind::Removed);
    assert_eq!(removed.fg, Some(Paint::Rgb(255, 217, 217)));
    let plain = diff_line_style(DiffLineKind::Plain);
    assert_eq!(plain.fg, None);
    assert_eq!(plain.bg, None);
    assert!(!plain.bold);
}

fn change(section: ChangeSection, path: &str) -> ChangeEntry {
    ChangeEntry {
        section,
        path: path.to_string(),
        original_path: None,
        staged_status: None,
        unstaged_status: None,
        additions: 0,
        deletions: 0,
    }
}

#[test]
fn the_change_list_shows_headings_entries_and_empty_sections() {
    assert_eq!(section_heading(ChangeSection::Staged, 0), "Staged (0)");
    assert_eq!(section_heading(ChangeSection::Untracked, 12), "Untracked (12)");
    let mut app = AppState::new();
    app.refresh(
        StatusSnapshot {
            repo_name: "repo".to_string(),
            repo_root: "/tmp/repo".to_string(),
            branch: "main".to_string(),
            has_commits: true,
            entries: vec![
                change(ChangeSection::Unstaged, "a.rs"),
                change(ChangeSection::Unstaged, "b.rs"),
            ],
        },
        None,
    );
    app.move_selection(1);
    let list = change_list(&app);
    assert_eq!(list.rows.len(), 7);
    assert!(matches!(&list.rows[0], ListRow::Heading(ChangeSection::Staged, t) if t == "Staged (0)"));
    assert!(matches!(&list.rows[1], ListRow::Empty));
    assert!(matches!(&list.rows[2], ListRow::Heading(ChangeSection::Unstaged, t) if t == "Unstaged (2)"));
    assert!(matches!(&list.rows[3], ListRow::Entry(e) if e.path == "a.rs"));
    assert!(matches!(&list.rows[4], ListRow::Entry(e) if e.path == "b.rs"));
    assert!(matches!(&list.rows[5], ListRow::Heading(ChangeSection::Untracked, t) if t == "Untracked (0)"));
    assert!(matches!(&list.rows[6], ListRow::Empty));
    assert_eq!(list.highlighted, Some(4));
    let empty = change_list(&AppState::new());
    assert_eq!(empty.rows.len(), 6);
    assert_eq!(empty.highlighted, None);
}

#[test]
fn key_hints_follow_the_focused_pane() {
    assert_eq!(
        help_line(FocusArea::FileList),
        "j/k move  s stage  u unstage  c commit  o open  r refresh  tab next"
    );
    assert_eq!(help_line(FocusArea::CommitInput), "type message  Enter commit  tab files  Esc files");
    assert!(!help_line(FocusArea::FileList).contains("delete"));
}

#[test]
fn the_header_names_the_repository_branch_counts_and_focus() {
    let mut app = AppState::new();
    app.refresh(
        StatusSnapshot {
            repo_name: "repo".to_string(),
            repo_root: "/tmp/repo".to_string(),
            branch: "main".to_string(),
            has_commits: true,
            entries: vec![
                change(ChangeSection::Staged, "a.rs"),
                change(ChangeSection::Unstaged, "b.rs"),
                change(ChangeSection::Unstaged, "c.rs"),
            ],
        },
        None,
    );
    let header = header_text(&app);
    assert_eq!(header.name, "repo ");
    assert_eq!(header.root, "/tmp/repo");
    assert_eq!(header.branch, " branch: main ");
    assert_eq!(header.counts, "  staged 1  unstaged 2  untracked 0");
    assert_eq!(header.focus, " focus: files ");
    app.focus_commit();
    assert_eq!(header_text(&app).focus, " focus: commit ");
}
