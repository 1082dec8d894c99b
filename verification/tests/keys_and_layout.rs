use cmux_diff::keys::{handle_key, KeyCommand, KeyInput};
use cmux_diff::layout::{body_column_rules, compute, place_areas, screen_row_rules, Area, SizeRule};
use cmux_diff::model::FocusArea;

#[test]
fn file_list_keys_map_to_actions() {
    let f = FocusArea::FileList;
    assert_eq!(handle_key(f, KeyInput::Char('q')), KeyCommand::Quit);
    assert_eq!(handle_key(f, KeyInput::Char('j')), KeyCommand::MoveSelection(1));
    assert_eq!(handle_key(f, KeyInput::Up), KeyCommand::MoveSelection(-1));
    assert_eq!(handle_key(f, KeyInput::Char('s')), KeyCommand::Stage);
    assert_eq!(handle_key(f, KeyInput::Char('g')), KeyCommand::Commit);
    assert_eq!(handle_key(f, KeyInput::Char('\t')), KeyCommand::ToggleFocus);
    assert_eq!(handle_key(f, KeyInput::Char('z')), KeyCommand::Ignore);
    assert_eq!(handle_key(f, KeyInput::Char('x')), KeyCommand::Ignore);
    assert_eq!(handle_key(f, KeyInput::Char('o')), KeyCommand::OpenEditor);
    assert_eq!(handle_key(FocusArea::CommitInput, KeyInput::Char('o')), KeyCommand::Type('o'));
}

#[test]
fn commit_input_keys_type_and_edit() {
    let f = FocusArea::CommitInput;
    assert_eq!(handle_key(f, KeyInput::Char('q')), KeyCommand::Quit);
    assert_eq!(handle_key(f, KeyInput::Char('a')), KeyCommand::Type('a'));
    assert_eq!(handle_key(f, KeyInput::Char('\n')), KeyCommand::Commit);
    assert_eq!(handle_key(f, KeyInput::Char('\u{7}')), KeyCommand::Ignore);
    assert_eq!(handle_key(f, KeyInput::Esc), KeyCommand::FocusFileList);
    assert_eq!(handle_key(f, KeyInput::Backspace), KeyCommand::Backspace);
}

#[test]
fn screen_layout_stacks_header_body_commit_and_status() {
    let areas = compute(Area { x: 0, y: 0, width: 100, height: 40 });
    assert_eq!(areas.header, Area { x: 0, y: 0, width: 100, height: 5 });
    assert_eq!(areas.commit, Area { x: 0, y: 32, width: 100, height: 5 });
    assert_eq!(areas.status, Area { x: 0, y: 37, width: 100, height: 3 });
    assert_eq!(areas.changes.height, 27);
    assert_eq!(areas.changes.width + areas.diff.width, 100);
    assert_eq!(areas.diff.x, areas.changes.width);
}

#[test]
fn each_part_of_the_divisions_becomes_its_area() {
    let a = |y: u16| Area { x: 0, y, width: 80, height: 1 };
    let rows = vec![a(0), a(1), a(2), a(3)];
    let columns = vec![
        Area { x: 0, y: 1, width: 30, height: 1 },
        Area { x: 30, y: 1, width: 50, height: 1 },
    ];
    let areas = place_areas(&rows, &columns);
    assert_eq!(areas.header, a(0));
    assert_eq!(areas.commit, a(2));
    assert_eq!(areas.status, a(3));
    assert_eq!(areas.changes, columns[0]);
    assert_eq!(areas.diff, columns[1]);
}

#[test]
fn small_screens_keep_full_width_rows() {
    let frame = Area { x: 2, y: 1, width: 60, height: 12 };
    let areas = compute(frame);
    for row in [areas.header, areas.commit, areas.status] {
        assert_eq!(row.x, 2);
        assert_eq!(row.width, 60);
    }
    assert_eq!(areas.changes.y, areas.diff.y);
    assert_eq!(areas.changes.height, areas.diff.height);
    for part in [areas.header, areas.changes, areas.diff, areas.commit, areas.status] {
        assert!(part.x >= 2 && part.x + part.width <= 62);
        assert!(part.y >= 1 && part.y + part.height <= 13);
    }
}

#[test]
fn the_screen_is_divided_by_its_rules() {
    assert_eq!(
        screen_row_rules(),
        vec![SizeRule::Length(5), SizeRule::Min(10), SizeRule::Length(5), SizeRule::Length(3)]
    );
    assert_eq!(body_column_rules(), vec![SizeRule::Percentage(38), SizeRule::Percentage(62)]);
}
