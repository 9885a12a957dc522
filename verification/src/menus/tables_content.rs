//! The content of the retro tables: the documentation rows, and the
//! headers and footers of each table.
use vstd::prelude::*;
use crate::menus::table::{CellValue, CellView, FooterData, RowData, strings_view};
use crate::high_score::HighScore;
use crate::text::{decimal, push_decimal, push_str, push_signed_decimal, signed_decimal};
use crate::sprites::fruit::{fruit_kind, kind_image, kind_probability, kind_score, kind_size_effect, FRUIT_KINDS_COUNT};

verus! {

/// A text cell with the characters of `s`.
pub fn text_cell(s: &str) -> (c: CellValue)
    ensures
        c@ == CellView::Text(s@),
{
    CellValue::new(s.to_string())
}

/// A footer entry without a value.
pub fn footer_entry(symbol: &str, text: &str) -> (f: FooterData)
    ensures
        f.symbol@ == symbol@,
        f.text@ == text@,
        f.value.is_none(),
{
    FooterData { symbol: symbol.to_string(), text: text.to_string(), value: None }
}

/// A row of two text cells.
pub fn two_text_row(a: &str, b: &str) -> (r: RowData)
    ensures
        r@ == seq![CellView::Text(a@), CellView::Text(b@)],
{
    let mut cells: Vec<CellValue> = Vec::new();
    cells.push(text_cell(a));
    cells.push(text_cell(b));
    let r = RowData::new(cells);
    proof {
        assert(r@ =~= seq![CellView::Text(a@), CellView::Text(b@)]);
    }
    r
}

/// The topics of the documentation table and their details.
pub open spec fn doc_table() -> Seq<(Seq<char>, Seq<char>)> {
    seq![
        ("🎯 Goal"@, "Eat fruits, grow, and score points."@),
        ("🍎 Fruits"@, "Different fruits give various scores and effects.\nSome can even reduce your size (and score)."@),
        ("🏁 Speed"@, "Game speed changes difficulty and score multipliers.\nSee the Speed menu for more details."@),
        ("🎮 Movement"@, "Use ← ↕ → to control the snake."@),
        ("💥 Collisions"@, "Avoid hitting yourself or your own tail."@),
        ("🌍 Walls"@, "The arena wraps around: going out on one side\nmakes you appear on the opposite side."@),
        ("⏸️ Pause"@, "Press P or Space to pause / resume."@),
        ("🔁 New game"@, "Press R to start a new game."@),
        ("📋 Main menu"@, "Press M to return to the main menu."@),
        ("🚪 Quit"@, "Press Q to quit at any time."@)

    ]
}

/// The rows of the documentation table: the rules and controls of the game.
pub fn load_doc_info_in_table() -> (rows: Vec<RowData>)
    ensures
        rows.len() == doc_table().len(),
        forall|i: int| 0 <= i < rows.len() ==> #[trigger] rows@[i]@
            == seq![CellView::Text(doc_table()[i].0), CellView::Text(doc_table()[i].1)],
{
    let mut rows: Vec<RowData> = Vec::new();
    rows.push(two_text_row("🎯 Goal", "Eat fruits, grow, and score points."));
    rows.push(two_text_row("🍎 Fruits", "Different fruits give various scores and effects.\nSome can even reduce your size (and score)."));
    rows.push(two_text_row("🏁 Speed", "Game speed changes difficulty and score multipliers.\nSee the Speed menu for more details."));
    rows.push(two_text_row("🎮 Movement", "Use ← ↕ → to control the snake."));
    rows.push(two_text_row("💥 Collisions", "Avoid hitting yourself or your own tail."));
    rows.push(two_text_row("🌍 Walls", "The arena wraps around: going out on one side\nmakes you appear on the opposite side."));
    rows.push(two_text_row("⏸️ Pause", "Press P or Space to pause / resume."));
    rows.push(two_text_row("🔁 New game", "Press R to start a new game."));
    rows.push(two_text_row("📋 Main menu", "Press M to return to the main menu."));
    rows.push(two_text_row("🚪 Quit", "Press Q to quit at any time."));
    proof {
        assert forall|i: int| 0 <= i < rows.len() implies #[trigger] rows@[i]@
            == seq![CellView::Text(doc_table()[i].0), CellView::Text(doc_table()[i].1)] by {
        }
    }
    rows
}

/// The row of the high scores table for the score of rank `rank`.
pub open spec fn highs_row(rank: nat, h: HighScore) -> Seq<CellView> {
    seq![
        CellView::Text(seq!['#'] + decimal(rank)),
        CellView::Text(h.symbols@),
        CellView::Text(decimal(h.score as nat)),
        CellView::Text(h.speed@),
        CellView::Text(seq!['x'] + decimal(h.snake_growth_factor as nat)),
        CellView::Text(h.date@),
        CellView::Text(h.version@),
    ]
}

/// The row shown when no score is stored yet.
pub open spec fn no_scores_row() -> Seq<CellView> {
    seq![
        CellView::Text("No scores"@),
        CellView::Text("Play the game!"@),
        CellView::Text("🐍"@),
        CellView::Text("-"@),
        CellView::Text("-"@),
        CellView::Text("-"@),
        CellView::Text("-"@),
    ]
}

/// `prefix` followed by the decimal writing of `n`.
fn prefixed_decimal(prefix: &str, n: u64) -> (s: String)
    ensures
        s@ == prefix@ + decimal(n as nat),
{
    let mut s = String::new();
    push_str(&mut s, prefix);
    push_decimal(&mut s, n);
    s
}

/// The row of the high scores table for the score of rank `rank`.
fn high_score_row(rank: usize, h: &HighScore) -> (r: RowData)
    ensures
        r@ == highs_row(rank as nat, *h),
{
    let mut cells: Vec<CellValue> = Vec::new();
    cells.push(CellValue::new(prefixed_decimal("#", rank as u64)));
    cells.push(CellValue::new(h.symbols.clone()));
    let mut score = String::new();
    push_decimal(&mut score, h.score as u64);
    cells.push(CellValue::new(score));
    cells.push(CellValue::new(h.speed.clone()));
    cells.push(CellValue::new(prefixed_decimal("x", h.snake_growth_factor as u64)));
    cells.push(CellValue::new(h.date.clone()));
    cells.push(CellValue::new(h.version.clone()));
    let r = RowData::new(cells);
    proof {
        reveal_strlit("#");
        reveal_strlit("x");
        assert("#"@ =~= seq!['#']);
        assert("x"@ =~= seq!['x']);
        assert(score@ =~= decimal(h.score as nat));
        assert(r@ =~= highs_row(rank as nat, *h));
    }
    r
}

/// The rows of the high scores table: the scores from best to worst with
/// their rank, or a single row inviting to play when there is none.
pub fn load_highs_info_in_table(high_scores: &Vec<HighScore>) -> (rows: Vec<RowData>)
    requires
        high_scores.len() < u64::MAX,
    ensures
        high_scores.len() == 0 ==> rows.len() == 1 && rows@[0]@ == no_scores_row(),
        high_scores.len() > 0 ==> rows.len() == high_scores.len() && forall|i: int|
            0 <= i < rows.len() ==> #[trigger] rows@[i]@ == highs_row((i + 1) as nat, high_scores@[i]),
{
    let mut rows: Vec<RowData> = Vec::new();
    let mut i: usize = 0;
    while i < high_scores.len()
        invariant
            i <= high_scores.len() < u64::MAX,
            rows.len() == i,
            forall|j: int| 0 <= j < i ==> #[trigger] rows@[j]@ == highs_row((j + 1) as nat, high_scores@[j]),
        decreases high_scores.len() - i,
    {
        rows.push(high_score_row(i + 1, &high_scores[i]));
        i = i + 1;
    }
    if rows.len() == 0 {
        let mut cells: Vec<CellValue> = Vec::new();
        cells.push(text_cell("No scores"));
        cells.push(text_cell("Play the game!"));
        cells.push(text_cell("🐍"));
        cells.push(text_cell("-"));
        cells.push(text_cell("-"));
        cells.push(text_cell("-"));
        cells.push(text_cell("-"));
        let r = RowData::new(cells);
        proof {
            assert(r@ =~= no_scores_row());
        }
        rows.push(r);
    }
    rows
}

/// The row of the fruits table for the fruit kind `k`: its symbol, score,
/// chance, size effect and the text of its computed lifetime.
pub open spec fn fruit_table_row(k: int, computed: Seq<char>) -> Seq<CellView> {
    seq![
        CellView::Text(kind_image(k)),
        CellView::Text(signed_decimal(kind_score(k) as int)),
        CellView::Text(decimal(kind_probability(k) as nat) + seq!['%']),
        CellView::Text(signed_decimal(kind_size_effect(k) as int)),
        CellView::Text(computed),
    ]
}

/// The rows of the fruits table, one per kind of fruit in the order of the
/// lottery; `computed` holds the text of the lifetime of each kind.
pub fn load_fruits_info_in_table(computed: &Vec<String>) -> (rows: Vec<RowData>)
    requires
        computed.len() == FRUIT_KINDS_COUNT,
    ensures
        rows.len() == FRUIT_KINDS_COUNT,
        forall|k: int| 0 <= k < FRUIT_KINDS_COUNT ==> #[trigger] rows@[k]@ == fruit_table_row(k, computed@[k]@),
{
    let mut rows: Vec<RowData> = Vec::new();
    let mut k: usize = 0;
    while k < FRUIT_KINDS_COUNT
        invariant
            k <= FRUIT_KINDS_COUNT,
            computed.len() == FRUIT_KINDS_COUNT,
            rows.len() == k,
            forall|j: int| 0 <= j < k ==> #[trigger] rows@[j]@ == fruit_table_row(j, computed@[j]@),
        decreases FRUIT_KINDS_COUNT - k,
    {
        let kind = fruit_kind(k);
        let mut score = String::new();
        push_signed_decimal(&mut score, kind.score);
        let mut chance = String::new();
        push_decimal(&mut chance, kind.probability as u64);
        push_str(&mut chance, "%");
        let mut size = String::new();
        push_signed_decimal(&mut size, kind.size_effect as i32);
        let mut cells: Vec<CellValue> = Vec::new();
        cells.push(text_cell(kind.image));
        cells.push(CellValue::new(score));
        cells.push(CellValue::new(chance));
        cells.push(CellValue::new(size));
        cells.push(CellValue::new(computed[k].clone()));
        let r = RowData::new(cells);
        proof {
            reveal_strlit("%");
            assert("%"@ =~= seq!['%']);
            assert(score@ =~= signed_decimal(kind_score(k as int) as int));
            assert(size@ =~= signed_decimal(kind_size_effect(k as int) as int));
            assert(chance@ =~= decimal(kind_probability(k as int) as nat) + seq!['%']);
            assert(r@ =~= fruit_table_row(k as int, computed@[k as int]@));
        }
        rows.push(r);
        k = k + 1;
    }
    rows
}

/// What the speed table shows of a speed: its name, the delay between two
/// moves of the snake in milliseconds, the multiplier of the scores and its
/// symbol.
#[derive(Debug, Clone)]
pub struct SpeedConfig {
    pub name: String,
    pub ms_value: u64,
    pub score_modifier: u16,
    pub symbol: String,
}

/// The row of the speed table for `c`: its name, its delay followed by
/// `ms`, its score multiplier after an `x`, and its symbol.
pub open spec fn speed_table_row(c: SpeedConfig) -> Seq<CellView> {
    seq![
        CellView::Text(c.name@),
        CellView::Text(decimal(c.ms_value as nat) + seq!['m', 's']),
        CellView::Text(seq!['x'] + decimal(c.score_modifier as nat)),
        CellView::Text(c.symbol@),
    ]
}

/// The rows of the speed table, one per speed in the order given.
pub fn load_speed_info_in_table(configs: &[SpeedConfig]) -> (rows: Vec<RowData>)
    ensures
        rows.len() == configs.len(),
        forall|k: int| 0 <= k < configs.len() ==> #[trigger] rows@[k]@ == speed_table_row(configs@[k]),
{
    let mut rows: Vec<RowData> = Vec::new();
    let mut k: usize = 0;
    while k < configs.len()
        invariant
            k <= configs.len(),
            rows.len() == k,
            forall|j: int| 0 <= j < k ==> #[trigger] rows@[j]@ == speed_table_row(configs@[j]),
        decreases configs.len() - k,
    {
        let c = &configs[k];
        let mut delay = String::new();
        push_decimal(&mut delay, c.ms_value);
        push_str(&mut delay, "ms");
        let mut modifier = String::new();
        push_str(&mut modifier, "x");
        push_decimal(&mut modifier, c.score_modifier as u64);
        let mut cells: Vec<CellValue> = Vec::new();
        cells.push(text_cell(c.name.as_str()));
        cells.push(CellValue::new(delay));
        cells.push(CellValue::new(modifier));
        cells.push(text_cell(c.symbol.as_str()));
        let r = RowData::new(cells);
        proof {
            reveal_strlit("ms");
            reveal_strlit("x");
            assert(delay@ =~= decimal(c.ms_value as nat) + seq!['m', 's']);
            assert(modifier@ =~= seq!['x'] + decimal(c.score_modifier as nat));
            assert(r@ =~= speed_table_row(configs@[k as int]));
        }
        rows.push(r);
        k = k + 1;
    }
    rows
}

/// The headers of the documentation table.
pub fn doc_get_headers() -> (v: Vec<String>)
    ensures
        strings_view(v@) == seq!["📖 Topic"@, "ℹ️ Details"@],
{
    let mut v: Vec<String> = Vec::new();
    v.push("📖 Topic".to_string());
    v.push("ℹ️ Details".to_string());
    proof {
        assert(strings_view(v@) =~= seq!["📖 Topic"@, "ℹ️ Details"@]);
    }
    v
}

/// The headers of the fruits table.
pub fn fruits_get_headers() -> (v: Vec<String>)
    ensures
        strings_view(v@) == seq!["🍎 Fruit"@, "🎯 Score x Speed Modifier"@, "🎲 Chance"@, "📏 Snake Size Effect"@, "⏱ Computed"@],
{
    let mut v: Vec<String> = Vec::new();
    v.push("🍎 Fruit".to_string());
    v.push("🎯 Score x Speed Modifier".to_string());
    v.push("🎲 Chance".to_string());
    v.push("📏 Snake Size Effect".to_string());
    v.push("⏱ Computed".to_string());
    proof {
        assert(strings_view(v@) =~= seq!["🍎 Fruit"@, "🎯 Score x Speed Modifier"@, "🎲 Chance"@, "📏 Snake Size Effect"@, "⏱ Computed"@]);
    }
    v
}

/// The headers of the high scores table.
pub fn highs_get_headers() -> (v: Vec<String>)
    ensures
        strings_view(v@) == seq!["🏆 Rank"@, "👤 Head & Body"@, "🎯 Score"@, "🏁 Celerity "@, "📏 Growth"@, "📅 Date"@, "🐍 Version"@],
{
    let mut v: Vec<String> = Vec::new();
    v.push("🏆 Rank".to_string());
    v.push("👤 Head & Body".to_string());
    v.push("🎯 Score".to_string());
    v.push("🏁 Celerity ".to_string());
    v.push("📏 Growth".to_string());
    v.push("📅 Date".to_string());
    v.push("🐍 Version".to_string());
    proof {
        assert(strings_view(v@) =~= seq!["🏆 Rank"@, "👤 Head & Body"@, "🎯 Score"@, "🏁 Celerity "@, "📏 Growth"@, "📅 Date"@, "🐍 Version"@]);
    }
    v
}

/// The headers of the speed table.
pub fn speed_get_headers() -> (v: Vec<String>)
    ensures
        strings_view(v@) == seq!["🏁 Speed Level"@, "⏱️ Delay Value"@, "🎯 Score Modifier"@, "🔣 Symbol"@],
{
    let mut v: Vec<String> = Vec::new();
    v.push("🏁 Speed Level".to_string());
    v.push("⏱️ Delay Value".to_string());
    v.push("🎯 Score Modifier".to_string());
    v.push("🔣 Symbol".to_string());
    proof {
        assert(strings_view(v@) =~= seq!["🏁 Speed Level"@, "⏱️ Delay Value"@, "🎯 Score Modifier"@, "🔣 Symbol"@]);
    }
    v
}

/// The headers of the parameters table.
pub fn parameters_cli_get_headers() -> (v: Vec<String>)
    ensures
        strings_view(v@) == seq!["🎯 Value"@, "📋 Parameter"@, "📝 Description / super power"@],
{
    let mut v: Vec<String> = Vec::new();
    v.push("🎯 Value".to_string());
    v.push("📋 Parameter".to_string());
    v.push("📝 Description / super power".to_string());
    proof {
        assert(strings_view(v@) =~= seq!["🎯 Value"@, "📋 Parameter"@, "📝 Description / super power"@]);
    }
    v
}

/// The footer of the documentation table.
pub fn doc_get_footer_data() -> (v: Vec<FooterData>)
    ensures
        v.len() == 2,
        v[0].symbol@ == "Esc"@ && v[0].text@ == "Return to home"@ && v[0].value.is_none(),
        v[1].symbol@ == "↕"@ && v[1].text@ == "Move"@ && v[1].value.is_none(),
{
    let mut v: Vec<FooterData> = Vec::new();
    v.push(footer_entry("Esc", "Return to home"));
    v.push(footer_entry("↕", "Move"));
    v
}

/// The footer of the fruits table.
pub fn fruits_get_footer_data() -> (v: Vec<FooterData>)
    ensures
        v.len() == 2,
        v[0].symbol@ == "Esc"@ && v[0].text@ == "Return to home"@ && v[0].value.is_none(),
        v[1].symbol@ == "↕"@ && v[1].text@ == "Move"@ && v[1].value.is_none(),
{
    let mut v: Vec<FooterData> = Vec::new();
    v.push(footer_entry("Esc", "Return to home"));
    v.push(footer_entry("↕", "Move"));
    v
}

/// The footer of the high scores table.
pub fn highs_get_footer_data() -> (v: Vec<FooterData>)
    ensures
        v.len() == 2,
        v[0].symbol@ == "Esc/Tab"@ && v[0].text@ == "Return to home"@ && v[0].value.is_none(),
        v[1].symbol@ == "↕"@ && v[1].text@ == "Scroll"@ && v[1].value.is_none(),
{
    let mut v: Vec<FooterData> = Vec::new();
    v.push(footer_entry("Esc/Tab", "Return to home"));
    v.push(footer_entry("↕", "Scroll"));
    v
}

/// The footer of the speed table.
pub fn speed_get_footer_data() -> (v: Vec<FooterData>)
    ensures
        v.len() == 2,
        v[0].symbol@ == "Esc/Tab"@ && v[0].text@ == "Return to home"@ && v[0].value.is_none(),
        v[1].symbol@ == "↕"@ && v[1].text@ == "Move"@ && v[1].value.is_none(),
{
    let mut v: Vec<FooterData> = Vec::new();
    v.push(footer_entry("Esc/Tab", "Return to home"));
    v.push(footer_entry("↕", "Move"));
    v
}

/// The footer of the parameters table: quit, quit and apply, move, change value.
pub fn parameters_cli_get_footer_data() -> (v: Vec<FooterData>)
    ensures
        v.len() == 4,
        v[0].symbol@ == "Esc"@ && v[0].text@ == "Quit"@ && v[0].value.is_none(),
        v[1].symbol@ == "x"@ && v[1].text@ == "Quit & Apply"@ && v[1].value.is_none(),
        v[2].symbol@ == "↕"@ && v[2].text@ == "Move"@ && v[2].value.is_none(),
        v[3].symbol@ == "← →"@ && v[3].text@ == "Change value"@ && v[3].value.is_none(),
{
    let mut v: Vec<FooterData> = Vec::new();
    v.push(footer_entry("Esc", "Quit"));
    v.push(footer_entry("x", "Quit & Apply"));
    v.push(footer_entry("↕", "Move"));
    v.push(footer_entry("← →", "Change value"));
    v
}

} // verus!
