use rsnaker::menus::parameters_cli::{
    add_unique_symbol, cli_arguments_from_rows, get_footer_data, get_headers_parameters, load_parameter_cli_in_table,
    load_parameter_in_table,
    negated_flag, ArgInfo,
};
use rsnaker::menus::table::{CellValue, RowData};

fn arg(long: &str, possible: &[&str], current: Option<&str>) -> ArgInfo {
    ArgInfo {
        long: long.to_string(),
        possible_values: possible.iter().map(|v| v.to_string()).collect(),
        help: format!("help of {long}"),
        current_value: current.map(|c| c.to_string()),
    }
}

fn option_cell(c: &CellValue) -> (String, Vec<String>, usize) {
    match c {
        CellValue::Options { option_name, values, index, .. } => (option_name.clone(), values.clone(), *index),
        CellValue::Text(t) => panic!("not an option cell: {t}"),
    }
}

fn text_cell(c: &CellValue) -> String {
    match c {
        CellValue::Text(t) => t.clone(),
        CellValue::Options { .. } => panic!("not a text cell"),
    }
}

#[test]
fn negated_flags() {
    assert_eq!(negated_flag("--fruit-timer"), "--no-fruit-timer");
    assert_eq!(negated_flag("caps"), "caps");
    assert_eq!(negated_flag("---x"), "--no--x");
}

#[test]
fn unique_symbols_are_added_once() {
    let mut v = vec!["a".to_string(), "b".to_string()];
    add_unique_symbol(&mut v, "b".to_string());
    assert_eq!(v.len(), 2);
    add_unique_symbol(&mut v, "c".to_string());
    assert_eq!(v, vec!["a", "b", "c"]);
}

#[test]
fn table_rows_from_the_arguments() {
    let args = vec![
        arg("speed", &["slow", "normal", "fast", "crazy"], Some("\"Fast\"")),
        arg("load", &[], None),
        arg("life", &[], Some("3")),
        arg("no-caps-fps", &["true", "false"], None),
        arg("head-symbol", &[], Some("\"🐍\"")),
        arg("fruit-timer", &["true", "false"], Some("false")),
    ];
    let rows = load_parameter_cli_in_table(&args, "🐍", "X");
    assert_eq!(rows.len(), 4);

    let (name, values, index) = option_cell(&rows[0].cells[0]);
    assert_eq!(name, "--speed");
    assert_eq!(values.len(), 4);
    assert_eq!(index, 2);
    assert_eq!(text_cell(&rows[0].cells[1]), "speed");
    assert_eq!(text_cell(&rows[0].cells[2]), "help of speed");

    let (_, values, index) = option_cell(&rows[1].cells[0]);
    assert_eq!(values.len(), 99);
    assert_eq!(values[0], "1");
    assert_eq!(values[98], "99");
    assert_eq!(index, 2);

    let (_, values, index) = option_cell(&rows[2].cells[0]);
    assert_eq!(values.len(), 39);
    assert_eq!(values[38], "X");
    assert_eq!(values[index], "🐍");

    let (_, _, index) = option_cell(&rows[3].cells[0]);
    assert_eq!(index, 1);
}

#[test]
fn command_line_from_the_selected_values() {
    let rows = vec![
        RowData::new(vec![
            CellValue::new_with_options("--fruit-timer".to_string(), vec!["true".to_string(), "false".to_string()], 1),
            CellValue::new("fruit-timer".to_string()),
        ]),
        RowData::new(vec![CellValue::new_with_options(
            "--caps-fps".to_string(),
            vec!["true".to_string(), "false".to_string()],
            0,
        )]),
        RowData::new(vec![CellValue::new_with_options(
            "--life".to_string(),
            vec!["1".to_string(), "2".to_string()],
            1,
        )]),
    ];
    assert_eq!(
        cli_arguments_from_rows("rsnaker", &rows),
        vec!["rsnaker", "--no-fruit-timer", "--caps-fps", "--life", "2"]
    );
}

#[test]
fn parameters_headers_and_footer() {
    assert_eq!(get_headers_parameters(), vec!["🎯 Value", "📋 Parameter", "📝 Description / super power"]);
    let f = get_footer_data();
    assert_eq!(f.len(), 3);
    assert_eq!((f[0].symbol.as_str(), f[0].text.as_str()), ("Esc", "Apply"));
    assert_eq!((f[2].symbol.as_str(), f[2].text.as_str()), ("← →", "Change value"));
}

#[test]
fn table_rows_with_only_the_offered_symbols() {
    let args = vec![
        arg("head-symbol", &[], Some("\"X\"")),
        arg("no-caps-fps", &["true", "false"], None),
        arg("life", &[], Some("3")),
    ];
    let rows = load_parameter_in_table(&args);
    assert_eq!(rows.len(), 2);
    let (name, values, index) = option_cell(&rows[0].cells[0]);
    assert_eq!(name, "--head-symbol");
    assert_eq!(values.len(), 38);
    assert!(!values.contains(&"X".to_string()));
    assert_eq!(index, 0);
    let (_, values, index) = option_cell(&rows[1].cells[0]);
    assert_eq!(values.len(), 99);
    assert_eq!(index, 2);
}
