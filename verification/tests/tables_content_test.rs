use rsnaker::high_score::HighScore;
use rsnaker::menus::table::CellValue;
use rsnaker::menus::tables_content::{
    doc_get_footer_data, doc_get_headers, fruits_get_headers, highs_get_footer_data, highs_get_headers,
    load_doc_info_in_table, load_fruits_info_in_table, load_highs_info_in_table, parameters_cli_get_footer_data,
    load_speed_info_in_table, speed_get_headers, SpeedConfig,
};

fn texts(cells: &[CellValue]) -> Vec<String> {
    cells
        .iter()
        .map(|c| match c {
            CellValue::Text(t) => t.clone(),
            CellValue::Options { .. } => String::from("<options>"),
        })
        .collect()
}

#[test]
fn documentation_rows() {
    let rows = load_doc_info_in_table();
    assert_eq!(rows.len(), 10);
    assert_eq!(texts(&rows[0].cells), vec!["🎯 Goal", "Eat fruits, grow, and score points."]);
    assert_eq!(texts(&rows[9].cells)[0], "🚪 Quit");
    assert_eq!(doc_get_headers(), vec!["📖 Topic", "ℹ️ Details"]);
    assert_eq!(doc_get_footer_data()[0].text, "Return to home");
}

#[test]
fn high_score_rows() {
    let empty = load_highs_info_in_table(&vec![]);
    assert_eq!(empty.len(), 1);
    assert_eq!(texts(&empty[0].cells), vec!["No scores", "Play the game!", "🐍", "-", "-", "-", "-"]);
    let scores = vec![
        HighScore {
            symbols: "🐍•".to_string(),
            score: 1200,
            speed: "Fast".to_string(),
            snake_growth_factor: 2,
            date: "01/02/2025".to_string(),
            version: "1.0.0".to_string(),
        },
        HighScore {
            symbols: "S".to_string(),
            score: 0,
            speed: "Slow".to_string(),
            snake_growth_factor: 1,
            date: "03/04/2025".to_string(),
            version: "1.0.0".to_string(),
        },
    ];
    let rows = load_highs_info_in_table(&scores);
    assert_eq!(rows.len(), 2);
    assert_eq!(texts(&rows[0].cells), vec!["#1", "🐍•", "1200", "Fast", "x2", "01/02/2025", "1.0.0"]);
    assert_eq!(texts(&rows[1].cells)[0], "#2");
    assert_eq!(texts(&rows[1].cells)[2], "0");
    assert_eq!(highs_get_headers().len(), 7);
    assert_eq!(highs_get_footer_data()[1].text, "Scroll");
}

#[test]
fn fruit_rows() {
    let computed: Vec<String> = (0..11).map(|i| format!("{i}s")).collect();
    let rows = load_fruits_info_in_table(&computed);
    assert_eq!(rows.len(), 11);
    assert_eq!(texts(&rows[0].cells), vec!["🦞", "-50", "5%", "-150", "0s"]);
    assert_eq!(texts(&rows[10].cells), vec!["🍒", "200", "1%", "25", "10s"]);
    assert_eq!(fruits_get_headers()[1], "🎯 Score x Speed Modifier");
}

#[test]
fn other_headers_and_footers() {
    assert_eq!(speed_get_headers(), vec!["🏁 Speed Level", "⏱️ Delay Value", "🎯 Score Modifier", "🔣 Symbol"]);
    let f = parameters_cli_get_footer_data();
    assert_eq!(f.len(), 4);
    assert_eq!(f[1].text, "Quit & Apply");
}

#[test]
fn speed_rows() {
    let configs = vec![
        SpeedConfig { name: "Slow".to_string(), ms_value: 150, score_modifier: 1, symbol: "🐢".to_string() },
        SpeedConfig { name: "Crazy".to_string(), ms_value: 35, score_modifier: 12, symbol: "🚀".to_string() },
    ];
    let rows = load_speed_info_in_table(&configs);
    assert_eq!(rows.len(), 2);
    assert_eq!(texts(&rows[0].cells), vec!["Slow", "150ms", "x1", "🐢"]);
    assert_eq!(texts(&rows[1].cells), vec!["Crazy", "35ms", "x12", "🚀"]);
    assert!(load_speed_info_in_table(&[]).is_empty());
}
