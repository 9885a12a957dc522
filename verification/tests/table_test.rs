use rsnaker::controls::keys::Key;
use rsnaker::menus::table::{
    actions_for_key, calculate_max_column_widths, calculate_sum_inner_row_heights, constraint_length_from_widths,
    get_default_action_input, rows_all_selectable, table_can_be_built, ActionEffect, ActionInputs, CellValue, FooterData, GenericMenu, RowData,
    TableParameterAction,
};

fn opts(values: &[&str], index: usize) -> CellValue {
    CellValue::new_with_options("--speed".to_string(), values.iter().map(|v| v.to_string()).collect(), index)
}

fn sample_rows() -> Vec<RowData> {
    vec![
        RowData::new(vec![opts(&["slow", "normal", "fast"], 1), CellValue::new("speed".to_string())]),
        RowData::new(vec![opts(&["true", "false"], 0), CellValue::new("two\nlines here".to_string())]),
    ]
}

fn selected_index(c: &CellValue) -> usize {
    match c {
        CellValue::Options { index, .. } => *index,
        CellValue::Text(_) => usize::MAX,
    }
}

#[test]
fn option_values_cycle_both_ways() {
    let mut c = opts(&["a", "b", "c"], 2);
    c.next_value();
    assert_eq!(selected_index(&c), 0);
    c.previous_value();
    assert_eq!(selected_index(&c), 2);
    c.previous_value();
    assert_eq!(selected_index(&c), 1);
    let mut t = CellValue::new("x".to_string());
    t.next_value();
    assert!(matches!(t, CellValue::Text(_)));
}

#[test]
fn cell_sizes() {
    assert_eq!(opts(&["a", "bbb"], 0).width(), 9);
    assert_eq!(opts(&["a", "b\nc"], 0).height(), 2);
    assert_eq!(CellValue::new("ab\nabcd".to_string()).width(), 4);
    assert_eq!(CellValue::new("ab\nabcd".to_string()).height(), 2);
}

#[test]
fn row_sizes() {
    let rows = sample_rows();
    assert_eq!(rows[0].get_cell_widths(), vec![12, 5]);
    assert_eq!(rows[1].get_cell_heights(), vec![1, 2]);
    assert_eq!(rows[1].height(), 2);
    assert_eq!(calculate_sum_inner_row_heights(&rows), 3);
    assert_eq!(RowData::new(vec![]).height(), 1);
}

#[test]
fn column_widths_are_the_widest_of_header_and_cells() {
    let rows = sample_rows();
    let headers = vec!["Value".to_string(), "A long parameter header".to_string()];
    let widths = calculate_max_column_widths(&rows, &headers);
    assert_eq!(widths, vec![12, 24]);
    assert_eq!(constraint_length_from_widths(&widths), vec![12, 25]);
}

#[test]
fn key_bindings() {
    let inputs = get_default_action_input();
    assert_eq!(actions_for_key(&inputs, Key::Down), vec![TableParameterAction::NextRow]);
    assert_eq!(actions_for_key(&inputs, Key::Esc), vec![TableParameterAction::Quit]);
    assert!(actions_for_key(&inputs, Key::Char('z')).is_empty());
    let mut more = inputs.clone();
    more.push(ActionInputs {
        key: vec![Key::Enter, Key::Esc],
        action: vec![TableParameterAction::ApplyAndSave, TableParameterAction::Quit],
    });
    assert_eq!(
        actions_for_key(&more, Key::Esc),
        vec![TableParameterAction::Quit, TableParameterAction::ApplyAndSave, TableParameterAction::Quit]
    );
}

#[test]
fn menu_navigation() {
    let headers = vec!["Value".to_string(), "Name".to_string()];
    let footer = vec![FooterData { symbol: "Esc".to_string(), text: "Quit".to_string(), value: None }];
    let mut menu = GenericMenu::new(sample_rows(), &headers, footer, None);
    assert_eq!(menu.selected_row, 0);
    assert_eq!(menu.scroll_content_length, 3);
    menu.next_row();
    assert_eq!((menu.selected_row, menu.scroll_position), (1, 1));
    menu.next_row();
    assert_eq!((menu.selected_row, menu.scroll_position), (0, 0));
    menu.previous_row();
    assert_eq!(menu.selected_row, 1);
    menu.next_parameter_value();
    assert_eq!(selected_index(&menu.rows[1].cells[0]), 1);
    menu.previous_parameter_value();
    assert_eq!(selected_index(&menu.rows[1].cells[0]), 0);
    assert_eq!(menu.apply_action(TableParameterAction::NextValue), ActionEffect::Done);
    assert_eq!(selected_index(&menu.rows[1].cells[0]), 1);
    assert_eq!(menu.apply_action(TableParameterAction::Quit), ActionEffect::Quit);
    assert_eq!(menu.apply_action(TableParameterAction::LoadPreset(3)), ActionEffect::LoadPreset(3));
    menu.reload(None, None, 3);
    assert_eq!(menu.current_preset, Some(3));
    assert_eq!(menu.selected_row, 0);
}

#[test]
fn cell_texts() {
    assert_eq!(CellValue::new("abc".to_string()).to_string(), "abc");
    let mut c = opts(&["slow", "fast"], 0);
    assert_eq!(c.to_string(), "[ slow ]");
    c.next_value();
    assert_eq!(c.to_string(), "『 fast 』");
    let broken = CellValue::Options { option_name: "--x".to_string(), values: vec![], index: 0, index_ini: 0 };
    assert_eq!(broken.to_string(), "[ Bad index ]");
}

#[test]
fn out_of_range_index_cycles_modulo_the_values() {
    let mut c = opts(&["a", "b", "c"], 5);
    assert_eq!(c.to_string(), "[ Bad index ]");
    c.next_value();
    assert_eq!(selected_index(&c), 0);
    let mut d = opts(&["a", "b", "c"], 5);
    d.previous_value();
    assert_eq!(selected_index(&d), 1);
    let mut e = opts(&["a", "b", "c"], usize::MAX);
    e.next_value();
    assert_eq!(selected_index(&e), 1);
}

#[test]
fn apply_then_quit_on_an_empty_table() {
    let headers = vec!["Value".to_string()];
    let mut menu = GenericMenu::new(vec![], &headers, vec![], Some(2));
    assert!(menu.selected_row_can_change());
    assert_eq!(menu.apply_action(TableParameterAction::ApplyAndSave), ActionEffect::ApplyAndSave);
    assert_eq!(menu.apply_action(TableParameterAction::NextValue), ActionEffect::Done);
    assert_eq!(menu.apply_action(TableParameterAction::Quit), ActionEffect::Quit);
    assert!(menu.rows.is_empty());
    assert_eq!(menu.current_preset, Some(2));
}

#[test]
fn row_moves_from_an_out_of_range_selection() {
    let headers = vec!["Value".to_string(), "Name".to_string()];
    let mut menu = GenericMenu::new(sample_rows(), &headers, vec![], None);
    menu.selected = Some(7);
    menu.next_row();
    assert_eq!((menu.selected, menu.selected_row), (Some(0), 0));
    menu.selected = Some(7);
    menu.previous_row();
    assert_eq!((menu.selected, menu.selected_row), (Some(0), 0));
    menu.selected = None;
    menu.previous_row();
    assert_eq!((menu.selected, menu.selected_row, menu.scroll_position), (Some(0), 0, 0));
}

#[test]
fn selectable_rows_are_recognised() {
    assert!(rows_all_selectable(&sample_rows()));
    let broken = vec![RowData::new(vec![opts(&["a"], 1)])];
    assert!(!rows_all_selectable(&broken));
    let headers = vec!["Value".to_string()];
    let mut menu = GenericMenu::new(vec![RowData::new(vec![opts(&[], 0)])], &headers, vec![], None);
    assert!(!menu.selected_row_can_change());
    menu.selected_row = 4;
    assert!(menu.selected_row_can_change());
}

#[test]
fn tables_that_can_be_built() {
    let headers = vec!["Value".to_string(), "Name".to_string()];
    assert!(table_can_be_built(&sample_rows(), &headers));
    assert!(table_can_be_built(&[], &headers));
    assert!(!table_can_be_built(&sample_rows(), &[]));
    assert!(!table_can_be_built(&sample_rows(), &headers[..1]));
}
