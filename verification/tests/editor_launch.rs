use cmux_diff::editor::{build_known_editor_launch, editor_launch, opened_message};

#[test]
fn builds_code_style_goto_commands() {
    let path = "/tmp/project/src/main.rs";
    let launch = build_known_editor_launch("code", path, Some(14)).unwrap();

    assert_eq!(launch.program, "code");
    assert_eq!(launch.args, vec!["--goto", "/tmp/project/src/main.rs:14"]);
}

#[test]
fn rejects_unknown_editor_commands() {
    assert!(build_known_editor_launch("nvim", "/tmp/main.rs", Some(3)).is_none());
}

#[test]
fn plain_editors_take_the_location_alone() {
    let launch = build_known_editor_launch("/usr/local/bin/zed", "/tmp/a.rs", None).unwrap();
    assert_eq!(launch.program, "/usr/local/bin/zed");
    assert_eq!(launch.args, vec!["/tmp/a.rs"]);
    assert_eq!(launch.label, "zed");
}

#[test]
fn editor_settings_name_the_editor_by_their_first_word() {
    let launch = editor_launch(Some("  cursor --wait"), "/r/f.rs", Some(7), false).unwrap();
    assert_eq!(launch.program, "cursor");
    assert_eq!(launch.args, vec!["--goto", "/r/f.rs:7"]);
    let zero_line = editor_launch(Some("code"), "/r/f.rs", Some(0), false).unwrap();
    assert_eq!(zero_line.args, vec!["--goto", "/r/f.rs"]);
}

#[test]
fn unknown_or_missing_editors_are_errors_except_on_macos() {
    assert_eq!(
        editor_launch(Some("vim"), "/r/f.rs", None, false).err().unwrap(),
        "Unsupported editor command `vim`. Use a GUI editor like `code` or unset EDITOR."
    );
    assert_eq!(
        editor_launch(None, "/r/f.rs", None, false).err().unwrap(),
        "No supported editor was found. Set CMUX_DIFF_EDITOR to a GUI editor command such as `code`."
    );
    let open = editor_launch(Some("   "), "/r/f.rs", Some(2), true).unwrap();
    assert_eq!(open.program, "open");
    assert_eq!(open.args, vec!["/r/f.rs:2"]);
    assert_eq!(open.label, "the default macOS app");
}

#[test]
fn opened_message_names_file_and_line() {
    assert_eq!(opened_message("/tmp/x/main.rs", Some(3), "code"), "Opened main.rs:3 in code.");
    assert_eq!(opened_message("/", None, "zed"), "Opened file in zed.");
}
