//! The generic retro table of parameters: cells that are either text or a
//! list of values to choose from, rows of cells, the sizes they take on
//! screen, and the navigation of the table menu.
use vstd::prelude::*;
use crate::controls::keys::Key;
use crate::text::{chars_of, line_stats, split_lines, max_len, push_str};
use crate::unicode::{grapheme_count, grapheme_count_of};

verus! {

/// Columns added around an option value when it is displayed: the brackets
/// and spaces of `[ value ]`.
pub const DISPLAY_CELL_OUT_SPACE: usize = 6;

/// Height of a row without any cell.
pub const DEFAULT_ITEM_HEIGHT: usize = 1;

/// A cell of the table: a text, or a list of values of the option
/// `option_name` of which `index` is selected (`index_ini` was selected when
/// the table was loaded).
#[derive(Debug, Clone)]
pub enum CellValue {
    Text(String),
    Options { option_name: String, values: Vec<String>, index: usize, index_ini: usize },
}

/// The abstract content of a cell.
pub enum CellView {
    Text(Seq<char>),
    Options { option_name: Seq<char>, values: Seq<Seq<char>>, index: usize, index_ini: usize },
}

/// The characters of each string.
pub open spec fn strings_view(v: Seq<String>) -> Seq<Seq<char>> {
    v.map_values(|s: String| s@)
}

impl View for CellValue {
    type V = CellView;

    open spec fn view(&self) -> CellView {
        match self {
            CellValue::Text(t) => CellView::Text(t@),
            CellValue::Options { option_name, values, index, index_ini } => CellView::Options {
                option_name: option_name@,
                values: strings_view(values@),
                index: *index,
                index_ini: *index_ini,
            },
        }
    }
}

/// The text shown for a cell: a text as it is; for options, the selected
/// value in square brackets while it is the one the table was loaded with,
/// in corner brackets once changed.
pub open spec fn spec_cell_text(c: CellView) -> Seq<char> {
    match c {
        CellView::Text(t) => t,
        CellView::Options { values, index, index_ini, .. } => {
            let content = if index < values.len() { values[index as int] } else { "Bad index"@ };
            if index == index_ini {
                "[ "@ + content + " ]"@
            } else {
                "『 "@ + content + " 』"@
            }
        },
    }
}

/// Every text of the cell is short enough for its sizes to be counted.
pub open spec fn cell_fits(c: CellView) -> bool {
    match c {
        CellView::Text(t) => t.len() + DISPLAY_CELL_OUT_SPACE < usize::MAX,
        CellView::Options { values, .. } => forall|i: int|
            0 <= i < values.len() ==> #[trigger] values[i].len() + DISPLAY_CELL_OUT_SPACE < usize::MAX,
    }
}

/// An option cell has values and one of them is selected.
pub open spec fn cell_selectable(c: CellView) -> bool {
    match c {
        CellView::Text(_) => true,
        CellView::Options { values, index, .. } => 0 < values.len() <= usize::MAX && index < values.len(),
    }
}

/// The selected value of the cell can change: a text never changes, and an
/// option cell needs at least one value to cycle through.
pub open spec fn cell_changeable(c: CellView) -> bool {
    match c {
        CellView::Text(_) => true,
        CellView::Options { values, .. } => 0 < values.len(),
    }
}

/// The cell with the next value selected, cycling to the first.
pub open spec fn cell_next(c: CellView) -> CellView {
    match c {
        CellView::Text(_) => c,
        CellView::Options { option_name, values, index, index_ini } => CellView::Options {
            option_name,
            values,
            index: ((index + 1) % (values.len() as int)) as usize,
            index_ini,
        },
    }
}

/// The cell with the previous value selected, cycling to the last.
pub open spec fn cell_previous(c: CellView) -> CellView {
    match c {
        CellView::Text(_) => c,
        CellView::Options { option_name, values, index, index_ini } => CellView::Options {
            option_name,
            values,
            index: ((index + values.len() - 1) % (values.len() as int)) as usize,
            index_ini,
        },
    }
}

/// The largest number of grapheme clusters of the texts, 0 for none.
pub open spec fn max_graphemes(vs: Seq<Seq<char>>) -> nat
    decreases vs.len(),
{
    if vs.len() == 0 {
        0
    } else {
        let m = max_graphemes(vs.drop_last());
        if grapheme_count_of(vs.last()) > m { grapheme_count_of(vs.last()) } else { m }
    }
}

/// The largest number of lines of the texts, 0 for none.
pub open spec fn max_lines(vs: Seq<Seq<char>>) -> nat
    decreases vs.len(),
{
    if vs.len() == 0 {
        0
    } else {
        let m = max_lines(vs.drop_last());
        if split_lines(vs.last()).len() > m { split_lines(vs.last()).len() } else { m }
    }
}

/// Columns the cell takes: for options, the widest value (in grapheme
/// clusters) plus the brackets; for a text, its longest line (in characters).
pub open spec fn cell_width(c: CellView) -> nat {
    match c {
        CellView::Options { values, .. } => (max_graphemes(values) + DISPLAY_CELL_OUT_SPACE) as nat,
        CellView::Text(t) => max_len(split_lines(t)),
    }
}

/// Lines the cell takes: for options, the value with the most lines; for a
/// text, its number of lines.
pub open spec fn cell_height(c: CellView) -> nat {
    match c {
        CellView::Options { values, .. } => max_lines(values),
        CellView::Text(t) => split_lines(t).len(),
    }
}

impl CellValue {
    /// A text cell.
    pub fn new(text: String) -> (c: CellValue)
        ensures
            c@ == CellView::Text(text@),
    {
        CellValue::Text(text)
    }

    /// An option cell with `values`, of which `index` is selected.
    pub fn new_with_options(option_name: String, values: Vec<String>, index: usize) -> (c: CellValue)
        ensures
            c@ == (CellView::Options {
                option_name: option_name@,
                values: strings_view(values@),
                index,
                index_ini: index,
            }),
    {
        CellValue::Options { option_name, values, index, index_ini: index }
    }

    /// Selects the next value, cycling to the first: the index becomes one
    /// more than it was, modulo the number of values (whatever it was).
    pub fn next_value(&mut self)
        requires
            cell_changeable(old(self)@),
        ensures
            final(self)@ == cell_next(old(self)@),
            cell_selectable(final(self)@),
    {
        match self {
            CellValue::Options { values, index, .. } => {
                assert(strings_view(values@).len() == values@.len());
                let n = values.len();
                let r = *index % n;
                proof {
                    lemma_next_index(*index as int, n as int);
                }
                *index = (r + 1) % n;
            },
            CellValue::Text(_) => {},
        }
    }

    /// Selects the previous value, cycling to the last: the index becomes
    /// one less than it was plus the number of values, modulo that number
    /// (whatever it was).
    pub fn previous_value(&mut self)
        requires
            cell_changeable(old(self)@),
        ensures
            final(self)@ == cell_previous(old(self)@),
            cell_selectable(final(self)@),
    {
        match self {
            CellValue::Options { values, index, .. } => {
                assert(strings_view(values@).len() == values@.len());
                let n = values.len();
                let r = *index % n;
                proof {
                    lemma_previous_index(*index as int, n as int);
                }
                *index = if r == 0 { n - 1 } else { r - 1 };
            },
            CellValue::Text(_) => {},
        }
    }

    /// The text shown for the cell.
    pub fn to_string(&self) -> (s: String)
        ensures
            s@ == spec_cell_text(self@),
    {
        match self {
            CellValue::Text(t) => t.clone(),
            CellValue::Options { values, index, index_ini, .. } => {
                let mut s = String::new();
                let same = *index == *index_ini;
                push_str(&mut s, if same { "[ " } else { "『 " });
                if *index < values.len() {
                    proof {
                        assert(strings_view(values@)[*index as int] == values@[*index as int]@);
                    }
                    push_str(&mut s, values[*index].as_str());
                } else {
                    push_str(&mut s, "Bad index");
                }
                push_str(&mut s, if same { " ]" } else { " 』" });
                s
            },
        }
    }

    /// Columns the cell takes on screen.
    pub fn width(&self) -> (w: usize)
        requires
            cell_fits(self@),
        ensures
            w == cell_width(self@),
    {
        match self {
            CellValue::Options { values, .. } => {
                let mut m: usize = 0;
                let mut i: usize = 0;
                proof {
                    assert(self@->values == strings_view(values@));
                    assert forall|j: int| 0 <= j < values.len() implies #[trigger] values@[j]@.len() + DISPLAY_CELL_OUT_SPACE < usize::MAX by {
                        assert(strings_view(values@)[j].len() + DISPLAY_CELL_OUT_SPACE < usize::MAX);
                        assert(strings_view(values@)[j] == values@[j]@);
                    }
                }
                while i < values.len()
                    invariant
                        i <= values.len(),
                        forall|j: int| 0 <= j < values.len() ==> #[trigger] values@[j]@.len() + DISPLAY_CELL_OUT_SPACE < usize::MAX,
                        m == max_graphemes(strings_view(values@.take(i as int))),
                        m + DISPLAY_CELL_OUT_SPACE < usize::MAX,
                    decreases values.len() - i,
                {
                    let g = grapheme_count(values[i].as_str());
                    proof {
                        assert(strings_view(values@.take(i + 1)).drop_last() =~= strings_view(values@.take(i as int)));
                        assert(strings_view(values@)[i as int] == values@[i as int]@);
                    }
                    if g > m {
                        m = g;
                    }
                    i = i + 1;
                }
                proof {
                    assert(values@.take(values.len() as int) =~= values@);
                }
                m + DISPLAY_CELL_OUT_SPACE
            },
            CellValue::Text(v) => {
                let (_, w) = line_stats(v.as_str());
                w
            },
        }
    }

    /// Lines the cell takes on screen.
    pub fn height(&self) -> (h: usize)
        requires
            cell_fits(self@),
        ensures
            h == cell_height(self@),
    {
        match self {
            CellValue::Options { values, .. } => {
                let mut m: usize = 0;
                let mut i: usize = 0;
                proof {
                    assert(self@->values == strings_view(values@));
                    assert forall|j: int| 0 <= j < values.len() implies #[trigger] values@[j]@.len() + DISPLAY_CELL_OUT_SPACE < usize::MAX by {
                        assert(strings_view(values@)[j].len() + DISPLAY_CELL_OUT_SPACE < usize::MAX);
                        assert(strings_view(values@)[j] == values@[j]@);
                    }
                }
                while i < values.len()
                    invariant
                        i <= values.len(),
                        forall|j: int| 0 <= j < values.len() ==> #[trigger] values@[j]@.len() + DISPLAY_CELL_OUT_SPACE < usize::MAX,
                        m == max_lines(strings_view(values@.take(i as int))),
                    decreases values.len() - i,
                {
                    proof {
                        assert(strings_view(values@)[i as int] == values@[i as int]@);
                    }
                    let (n, _) = line_stats(values[i].as_str());
                    proof {
                        assert(strings_view(values@.take(i + 1)).drop_last() =~= strings_view(values@.take(i as int)));
                    }
                    if n > m {
                        m = n;
                    }
                    i = i + 1;
                }
                proof {
                    assert(values@.take(values.len() as int) =~= values@);
                }
                m
            },
            CellValue::Text(v) => {
                let (n, _) = line_stats(v.as_str());
                n
            },
        }
    }
}

/// One more than `i`, modulo `n`, computed from `i` modulo `n`.
proof fn lemma_next_index(i: int, n: int)
    requires
        0 <= i,
        0 < n,
    ensures
        (i % n + 1) % n == (i + 1) % n,
        i % n + 1 <= n,
{
    vstd::arithmetic::div_mod::lemma_add_mod_noop(i, 1, n);
    vstd::arithmetic::div_mod::lemma_mod_bound(i, n);
    if n == 1 {
        vstd::arithmetic::div_mod::lemma_mod_bound(i % n + 1, n);
        vstd::arithmetic::div_mod::lemma_mod_bound(i + 1, n);
    } else {
        vstd::arithmetic::div_mod::lemma_small_mod(1nat, n as nat);
    }
}

/// One less than `i` plus `n`, modulo `n`, computed from `i` modulo `n`
/// without going past the largest value.
proof fn lemma_previous_index(i: int, n: int)
    requires
        0 <= i,
        0 < n,
    ensures
        (if i % n == 0 { n - 1 } else { i % n - 1 }) == (i + n - 1) % n,
{
    vstd::arithmetic::div_mod::lemma_mod_bound(i, n);
    vstd::arithmetic::div_mod::lemma_add_mod_noop(i, n - 1, n);
    vstd::arithmetic::div_mod::lemma_small_mod((n - 1) as nat, n as nat);
    if i % n == 0 {
        vstd::arithmetic::div_mod::lemma_small_mod((n - 1) as nat, n as nat);
    } else {
        assert(i % n + n - 1 == (i % n - 1) + n);
        vstd::arithmetic::div_mod::lemma_mod_add_multiples_vanish(i % n - 1, n);
        vstd::arithmetic::div_mod::lemma_small_mod((i % n - 1) as nat, n as nat);
    }
}

/// Moving to the next value and back selects the same value again.
pub proof fn lemma_cell_next_previous(c: CellView)
    requires
        cell_selectable(c),
    ensures
        cell_previous(cell_next(c)) == c,
        cell_next(cell_previous(c)) == c,
{
    match c {
        CellView::Text(_) => {},
        CellView::Options { values, index, .. } => {
            let n = values.len() as int;
            let i = index as int;
            assert((((i + 1) % n) + n - 1) % n == i) by (nonlinear_arith)
                requires 0 <= i < n;
            assert((((i + n - 1) % n) + 1) % n == i) by (nonlinear_arith)
                requires 0 <= i < n;
        },
    }
}


/// A row of the table; moving to another value changes every option cell of
/// the row.
#[derive(Debug, Clone)]
pub struct RowData {
    pub cells: Vec<CellValue>,
}

/// The abstract content of each cell.
pub open spec fn cells_view(cells: Seq<CellValue>) -> Seq<CellView> {
    cells.map_values(|c: CellValue| c@)
}

impl View for RowData {
    type V = Seq<CellView>;

    open spec fn view(&self) -> Seq<CellView> {
        cells_view(self.cells@)
    }
}

/// The abstract content of each row.
pub open spec fn rows_view(rows: Seq<RowData>) -> Seq<Seq<CellView>> {
    rows.map_values(|r: RowData| r@)
}

/// Every cell of the row is short enough for its sizes to be counted.
pub open spec fn row_fits(r: Seq<CellView>) -> bool {
    forall|i: int| 0 <= i < r.len() ==> #[trigger] cell_fits(r[i])
}

/// Every option cell of the row has a selected value.
pub open spec fn row_selectable(r: Seq<CellView>) -> bool {
    forall|i: int| 0 <= i < r.len() ==> #[trigger] cell_selectable(r[i])
}

/// Every option cell of the row has a value to cycle through.
pub open spec fn row_changeable(r: Seq<CellView>) -> bool {
    forall|i: int| 0 <= i < r.len() ==> #[trigger] cell_changeable(r[i])
}

/// The row after selecting the next value of each option cell.
pub open spec fn row_next(r: Seq<CellView>) -> Seq<CellView> {
    r.map_values(|c: CellView| cell_next(c))
}

/// The row after selecting the previous value of each option cell.
pub open spec fn row_previous(r: Seq<CellView>) -> Seq<CellView> {
    r.map_values(|c: CellView| cell_previous(c))
}

/// The largest height of the cells of a row, `None` for no cell.
pub open spec fn max_cell_height(r: Seq<CellView>) -> Option<nat>
    decreases r.len(),
{
    if r.len() == 0 {
        None
    } else {
        let h = cell_height(r.last());
        match max_cell_height(r.drop_last()) {
            None => Some(h),
            Some(m) => Some(if h > m { h } else { m }),
        }
    }
}

/// Lines a row takes: its highest cell, or one line without any cell.
pub open spec fn row_height(r: Seq<CellView>) -> nat {
    match max_cell_height(r) {
        Some(h) => h,
        None => DEFAULT_ITEM_HEIGHT as nat,
    }
}

/// Lines all the rows take.
pub open spec fn sum_row_heights(rows: Seq<Seq<CellView>>) -> nat
    decreases rows.len(),
{
    if rows.len() == 0 {
        0
    } else {
        sum_row_heights(rows.drop_last()) + row_height(rows.last())
    }
}

proof fn lemma_sum_row_heights_prefix(rows: Seq<Seq<CellView>>, i: int)
    requires
        0 <= i <= rows.len(),
    ensures
        sum_row_heights(rows.take(i)) <= sum_row_heights(rows),
    decreases rows.len(),
{
    if i < rows.len() {
        assert(rows.drop_last().take(i) =~= rows.take(i));
        lemma_sum_row_heights_prefix(rows.drop_last(), i);
    } else {
        assert(rows.take(i) =~= rows);
    }
}

impl RowData {
    pub fn new(cells: Vec<CellValue>) -> (r: RowData)
        ensures
            r.cells == cells,
    {
        RowData { cells }
    }

    /// Columns each cell takes.
    pub fn get_cell_widths(&self) -> (v: Vec<usize>)
        requires
            row_fits(self@),
        ensures
            v.len() == self@.len(),
            forall|i: int| 0 <= i < v.len() ==> #[trigger] v[i] == cell_width(self@[i]),
    {
        let mut v: Vec<usize> = Vec::new();
        let mut i: usize = 0;
        while i < self.cells.len()
            invariant
                i <= self.cells.len(),
                row_fits(self@),
                v.len() == i,
                forall|j: int| 0 <= j < i ==> #[trigger] v[j] == cell_width(self@[j]),
            decreases self.cells.len() - i,
        {
            proof {
                assert(self@[i as int] == self.cells@[i as int]@);
                assert(cell_fits(self@[i as int]));
            }
            v.push(self.cells[i].width());
            i = i + 1;
        }
        v
    }

    /// Lines each cell takes.
    pub fn get_cell_heights(&self) -> (v: Vec<usize>)
        requires
            row_fits(self@),
        ensures
            v.len() == self@.len(),
            forall|i: int| 0 <= i < v.len() ==> #[trigger] v[i] == cell_height(self@[i]),
    {
        let mut v: Vec<usize> = Vec::new();
        let mut i: usize = 0;
        while i < self.cells.len()
            invariant
                i <= self.cells.len(),
                row_fits(self@),
                v.len() == i,
                forall|j: int| 0 <= j < i ==> #[trigger] v[j] == cell_height(self@[j]),
            decreases self.cells.len() - i,
        {
            proof {
                assert(self@[i as int] == self.cells@[i as int]@);
                assert(cell_fits(self@[i as int]));
            }
            v.push(self.cells[i].height());
            i = i + 1;
        }
        v
    }

    /// Lines the row takes.
    pub fn height(&self) -> (h: usize)
        requires
            row_fits(self@),
        ensures
            h == row_height(self@),
    {
        let hs = self.get_cell_heights();
        let mut m: Option<usize> = None;
        let mut i: usize = 0;
        while i < hs.len()
            invariant
                i <= hs.len(),
                hs.len() == self@.len(),
                forall|j: int| 0 <= j < hs.len() ==> #[trigger] hs[j] == cell_height(self@[j]),
                match m {
                    None => max_cell_height(self@.take(i as int)) == None::<nat>,
                    Some(x) => max_cell_height(self@.take(i as int)) == Some(x as nat),
                },
            decreases hs.len() - i,
        {
            proof {
                assert(self@.take(i + 1).drop_last() =~= self@.take(i as int));
                assert(self@.take(i + 1).last() == self@[i as int]);
            }
            let h = hs[i];
            m = match m {
                None => Some(h),
                Some(x) => Some(if h > x { h } else { x }),
            };
            i = i + 1;
        }
        proof {
            assert(self@.take(hs.len() as int) =~= self@);
        }
        match m {
            Some(x) => x,
            None => DEFAULT_ITEM_HEIGHT,
        }
    }

    /// Selects the next value of every option cell.
    pub fn next_cell_value(&mut self)
        requires
            row_changeable(old(self)@),
        ensures
            final(self)@ == row_next(old(self)@),
            row_selectable(final(self)@),
    {
        let ghost start = self@;
        let mut j: usize = 0;
        while j < self.cells.len()
            invariant
                j <= self.cells.len(),
                self@.len() == start.len(),
                forall|k: int| 0 <= k < j ==> #[trigger] self@[k] == cell_next(start[k]),
                forall|k: int| j <= k < start.len() ==> #[trigger] self@[k] == start[k],
                row_changeable(start),
                forall|k: int| 0 <= k < j ==> cell_selectable(#[trigger] self@[k]),
            decreases self.cells.len() - j,
        {
            proof {
                assert(self@[j as int] == self.cells@[j as int]@);
                assert(cell_changeable(start[j as int]));
            }
            let ghost before = self.cells@;
            self.cells[j].next_value();
            proof {
                assert forall|k: int| 0 <= k < self@.len() && k != j implies #[trigger] self@[k] == cells_view(before)[k] by {
                    assert(self.cells@[k] == before[k]);
                }
                assert(self@[j as int] == self.cells@[j as int]@);
            }
            j = j + 1;
        }
        proof {
            assert(self@ =~= row_next(start));
        }
    }

    /// Selects the previous value of every option cell.
    pub fn previous_cell_value(&mut self)
        requires
            row_changeable(old(self)@),
        ensures
            final(self)@ == row_previous(old(self)@),
            row_selectable(final(self)@),
    {
        let ghost start = self@;
        let mut j: usize = 0;
        while j < self.cells.len()
            invariant
                j <= self.cells.len(),
                self@.len() == start.len(),
                forall|k: int| 0 <= k < j ==> #[trigger] self@[k] == cell_previous(start[k]),
                forall|k: int| j <= k < start.len() ==> #[trigger] self@[k] == start[k],
                row_changeable(start),
                forall|k: int| 0 <= k < j ==> cell_selectable(#[trigger] self@[k]),
            decreases self.cells.len() - j,
        {
            proof {
                assert(self@[j as int] == self.cells@[j as int]@);
                assert(cell_changeable(start[j as int]));
            }
            let ghost before = self.cells@;
            self.cells[j].previous_value();
            proof {
                assert forall|k: int| 0 <= k < self@.len() && k != j implies #[trigger] self@[k] == cells_view(before)[k] by {
                    assert(self.cells@[k] == before[k]);
                }
                assert(self@[j as int] == self.cells@[j as int]@);
            }
            j = j + 1;
        }
        proof {
            assert(self@ =~= row_previous(start));
        }
    }
}

/// Lines the first `n` rows take on screen.
pub fn sum_row_heights_prefix(rows: &[RowData], n: usize) -> (s: usize)
    requires
        n <= rows@.len(),
        forall|i: int| 0 <= i < rows@.len() ==> #[trigger] row_fits(rows@[i]@),
        sum_row_heights(rows_view(rows@)) <= usize::MAX,
    ensures
        s == sum_row_heights(rows_view(rows@).take(n as int)),
{
    let mut s: usize = 0;
    let mut i: usize = 0;
    while i < n
        invariant
            i <= n,
            n <= rows@.len(),
            forall|j: int| 0 <= j < rows@.len() ==> #[trigger] row_fits(rows@[j]@),
            sum_row_heights(rows_view(rows@)) <= usize::MAX,
            s == sum_row_heights(rows_view(rows@).take(i as int)),
        decreases n - i,
    {
        proof {
            let rv = rows_view(rows@);
            assert(rv.take(i + 1).drop_last() =~= rv.take(i as int));
            assert(rv.take(i + 1).last() == rows@[i as int]@);
            lemma_sum_row_heights_prefix(rv, i + 1);
        }
        let h = rows[i].height();
        s = s + h;
        i = i + 1;
    }
    s
}

/// Lines all the rows take on screen.
pub fn calculate_sum_inner_row_heights(rows: &[RowData]) -> (s: usize)
    requires
        forall|i: int| 0 <= i < rows@.len() ==> #[trigger] row_fits(rows@[i]@),
        sum_row_heights(rows_view(rows@)) <= usize::MAX,
    ensures
        s == sum_row_heights(rows_view(rows@)),
{
    let s = sum_row_heights_prefix(rows, rows.len());
    proof {
        assert(rows_view(rows@).take(rows@.len() as int) =~= rows_view(rows@));
    }
    s
}


/// Columns a header takes: its grapheme clusters (as a `u16`) plus one for
/// the separator.
pub open spec fn header_width(h: Seq<char>) -> int {
    (grapheme_count_of(h) as u16) + 1
}

/// A header whose width can be counted in a `u16`.
pub open spec fn header_fits(h: Seq<char>) -> bool {
    (grapheme_count_of(h) as u16) < u16::MAX
}

/// The widths `w` after widening each column to the width (as a `u16`) of
/// the cell of row `r` in that column, where it is wider.
pub open spec fn widen_columns(w: Seq<u16>, r: Seq<CellView>) -> Seq<u16> {
    Seq::new(
        w.len(),
        |i: int|
            if i < r.len() && (cell_width(r[i]) as u16) > w[i] {
                cell_width(r[i]) as u16
            } else {
                w[i]
            },
    )
}

/// The widths `w` after widening the columns for each row in turn.
pub open spec fn widen_columns_for_rows(w: Seq<u16>, rows: Seq<Seq<CellView>>) -> Seq<u16>
    decreases rows.len(),
{
    if rows.len() == 0 {
        w
    } else {
        widen_columns(widen_columns_for_rows(w, rows.drop_last()), rows.last())
    }
}

/// The widths of the header columns.
pub open spec fn header_widths(headers: Seq<String>) -> Seq<u16> {
    headers.map_values(|h: String| header_width(h@) as u16)
}

/// The width of each column: the widest of its header and of its cells.
pub open spec fn max_column_widths(rows: Seq<RowData>, headers: Seq<String>) -> Seq<u16> {
    widen_columns_for_rows(header_widths(headers), rows_view(rows))
}

/// Each column of a table is at least as wide as its header and as each of
/// its cells, and is as wide as one of them.
pub proof fn lemma_column_width_is_max(rows: Seq<Seq<CellView>>, w: Seq<u16>, i: int)
    requires
        0 <= i < w.len(),
    ensures
        widen_columns_for_rows(w, rows).len() == w.len(),
        widen_columns_for_rows(w, rows)[i] >= w[i],
        forall|k: int| 0 <= k < rows.len() && i < rows[k].len() ==>
            widen_columns_for_rows(w, rows)[i] >= (cell_width(#[trigger] rows[k][i]) as u16),
        widen_columns_for_rows(w, rows)[i] == w[i] || exists|k: int| 0 <= k < rows.len() && i < rows[k].len()
            && widen_columns_for_rows(w, rows)[i] == (cell_width(#[trigger] rows[k][i]) as u16),
    decreases rows.len(),
{
    if rows.len() > 0 {
        let pre = rows.drop_last();
        lemma_column_width_is_max(pre, w, i);
        assert forall|k: int| 0 <= k < rows.len() && i < rows[k].len() implies
            widen_columns_for_rows(w, rows)[i] >= (cell_width(#[trigger] rows[k][i]) as u16) by {
            if k < rows.len() - 1 {
                assert(rows[k] == pre[k]);
            }
        }
        if widen_columns_for_rows(w, rows)[i] != widen_columns_for_rows(w, pre)[i] {
            let k = rows.len() - 1;
            assert(widen_columns_for_rows(w, rows)[i] == (cell_width(rows[k][i]) as u16));
        } else if widen_columns_for_rows(w, pre)[i] != w[i] {
            let k = choose|k: int| 0 <= k < pre.len() && i < pre[k].len()
                && widen_columns_for_rows(w, pre)[i] == (cell_width(#[trigger] pre[k][i]) as u16);
            assert(rows[k] == pre[k]);
        }
    }
}

/// The width of each column of the table: the widest of its header (plus a
/// separator) and of its cells, each counted as a `u16`.
pub fn calculate_max_column_widths(rows: &[RowData], headers: &[String]) -> (w: Vec<u16>)
    requires
        forall|i: int| 0 <= i < headers@.len() ==> #[trigger] header_fits(headers@[i]@),
        forall|i: int| 0 <= i < rows@.len() ==> #[trigger] row_fits(rows@[i]@),
        forall|i: int| 0 <= i < rows@.len() ==> (#[trigger] rows@[i]).cells@.len() <= headers@.len(),
    ensures
        w@ == max_column_widths(rows@, headers@),
        w.len() == headers.len(),
        forall|i: int| 0 <= i < w.len() ==> #[trigger] w@[i] >= header_width(headers@[i]@) as u16,
        forall|i: int, k: int| 0 <= i < w.len() && 0 <= k < rows@.len() && i < rows@[k]@.len()
            ==> #[trigger] w@[i] >= (cell_width(#[trigger] rows@[k]@[i]) as u16),
{
    let mut column_widths: Vec<u16> = Vec::new();
    let mut h: usize = 0;
    while h < headers.len()
        invariant
            h <= headers.len(),
            forall|i: int| 0 <= i < headers@.len() ==> #[trigger] header_fits(headers@[i]@),
            column_widths@ == header_widths(headers@.take(h as int)),
        decreases headers.len() - h,
    {
        let g = grapheme_count(headers[h].as_str());
        proof {
            assert(header_fits(headers@[h as int]@));
        }
        column_widths.push((#[verifier::truncate] (g as u16)) + 1);
        proof {
            assert(header_widths(headers@.take(h + 1)) =~= header_widths(headers@.take(h as int)).push(
                header_width(headers@[h as int]@) as u16,
            ));
        }
        h = h + 1;
    }
    proof {
        assert(headers@.take(headers.len() as int) =~= headers@);
    }
    let ghost init = column_widths@;
    let column_len = column_widths.len();
    let mut r: usize = 0;
    while r < rows.len()
        invariant
            r <= rows.len(),
            column_len == column_widths.len(),
            column_len == headers@.len(),
            init == header_widths(headers@),
            forall|i: int| 0 <= i < rows@.len() ==> #[trigger] row_fits(rows@[i]@),
            forall|i: int| 0 <= i < rows@.len() ==> (#[trigger] rows@[i]).cells@.len() <= headers@.len(),
            column_widths@ == widen_columns_for_rows(init, rows_view(rows@).take(r as int)),
        decreases rows.len() - r,
    {
        proof {
            assert(rows_view(rows@)[r as int] == rows@[r as int]@);
        }
        let cell_widths = rows[r].get_cell_widths();
        let ghost before = column_widths@;
        let ghost row = rows@[r as int]@;
        let mut i: usize = 0;
        while i < cell_widths.len()
            invariant
                i <= cell_widths.len(),
                cell_widths.len() == row.len(),
                row.len() <= column_len,
                forall|j: int| 0 <= j < cell_widths.len() ==> #[trigger] cell_widths[j] == cell_width(row[j]),
                column_len == column_widths.len(),
                column_len == before.len(),
                forall|j: int| 0 <= j < i ==> #[trigger] column_widths@[j] == widen_columns(before, row)[j],
                forall|j: int| i <= j < column_len ==> #[trigger] column_widths@[j] == before[j],
            decreases cell_widths.len() - i,
        {
            let width = cell_widths[i];
            let w16: u16 = #[verifier::truncate] (width as u16);
            if w16 > column_widths[i] {
                proof {
                    vstd::arithmetic::div_mod::lemma_small_mod(i as nat, column_len as nat);
                }
                column_widths.set(i % column_len, w16);
            }
            proof {
                assert(widen_columns(before, row)[i as int] == column_widths@[i as int]);
            }
            i = i + 1;
        }
        proof {
            assert(column_widths@ =~= widen_columns(before, row));
            let rv = rows_view(rows@);
            assert(rv.take(r + 1).drop_last() =~= rv.take(r as int));
            assert(rv.take(r + 1).last() == row);
        }
        r = r + 1;
    }
    proof {
        let rv = rows_view(rows@);
        assert(rv.take(rows.len() as int) =~= rv);
        assert forall|i: int| 0 <= i < column_widths.len() implies #[trigger] column_widths@[i]
            >= header_width(headers@[i]@) as u16 && forall|k: int| 0 <= k < rows@.len() && i < rows@[k]@.len()
            ==> column_widths@[i] >= (cell_width(#[trigger] rows@[k]@[i]) as u16) by {
            lemma_column_width_is_max(rv, init, i);
            assert forall|k: int| 0 <= k < rows@.len() && i < rows@[k]@.len()
                implies column_widths@[i] >= (cell_width(#[trigger] rows@[k]@[i]) as u16) by {
                assert(rv[k] == rows@[k]@);
                assert(cell_width(rv[k][i]) as u16 <= column_widths@[i]);
            }
        }
    }
    column_widths
}

/// The length of each column of the layout: the width of each column, the
/// last one taking one more column.
pub open spec fn spec_constraint_lengths(widths: Seq<u16>) -> Seq<u16> {
    Seq::new(widths.len(), |i: int| if i == widths.len() - 1 { (widths[i] + 1) as u16 } else { widths[i] })
}

/// The lengths of the layout columns for the given column widths.
pub fn constraint_length_from_widths(column_widths: &[u16]) -> (c: Vec<u16>)
    requires
        column_widths@.len() > 0 ==> column_widths@.last() < u16::MAX,
    ensures
        c@ == spec_constraint_lengths(column_widths@),
{
    let mut constraints: Vec<u16> = Vec::new();
    let mut i: usize = 0;
    while i < column_widths.len()
        invariant
            i <= column_widths.len(),
            column_widths@.len() > 0 ==> column_widths@.last() < u16::MAX,
            constraints@ == spec_constraint_lengths(column_widths@).take(i as int),
        decreases column_widths.len() - i,
    {
        let size = column_widths[i];
        if i + 1 < column_widths.len() {
            constraints.push(size);
        } else {
            constraints.push(size + 1);
        }
        proof {
            assert(spec_constraint_lengths(column_widths@).take(i + 1) =~= spec_constraint_lengths(column_widths@).take(i as int).push(
                constraints@.last(),
            ));
        }
        i = i + 1;
    }
    proof {
        assert(spec_constraint_lengths(column_widths@).take(column_widths.len() as int) =~= spec_constraint_lengths(column_widths@));
    }
    constraints
}


/// An entry of the footer: a key symbol, what it does and an optional value.
#[derive(Debug, Clone)]
pub struct FooterData {
    pub symbol: String,
    pub text: String,
    pub value: Option<u16>,
}

/// What the table menu can do on a key press. Applying the values and
/// loading a preset are carried out by the caller, which holds the options
/// to apply and the loader of presets.
#[derive(Debug, Clone, Copy, PartialEq, Eq, Structural)]
pub enum TableParameterAction {
    NextValue,
    PreviousValue,
    NextRow,
    PreviousRow,
    Quit,
    ApplyAndSave,
    LoadPreset(u16),
}

/// The keys that trigger a list of actions, performed in order.
#[derive(Debug, Clone)]
pub struct ActionInputs {
    pub key: Vec<Key>,
    pub action: Vec<TableParameterAction>,
}

/// The actions of `inputs` in the order a press of `key` performs them:
/// for each binding in turn, its actions once per occurrence of `key` in its
/// keys.
pub open spec fn actions_of_binding(keys: Seq<Key>, actions: Seq<TableParameterAction>, key: Key) -> Seq<TableParameterAction>
    decreases keys.len(),
{
    if keys.len() == 0 {
        Seq::empty()
    } else {
        actions_of_binding(keys.drop_last(), actions, key) + (if keys.last() == key { actions } else { Seq::empty() })
    }
}

/// The actions all the bindings perform for a press of `key`.
pub open spec fn spec_actions_for_key(inputs: Seq<ActionInputs>, key: Key) -> Seq<TableParameterAction>
    decreases inputs.len(),
{
    if inputs.len() == 0 {
        Seq::empty()
    } else {
        spec_actions_for_key(inputs.drop_last(), key) + actions_of_binding(inputs.last().key@, inputs.last().action@, key)
    }
}

fn binding_actions(keys: &Vec<Key>, actions: &Vec<TableParameterAction>, key: Key, out: &mut Vec<TableParameterAction>)
    ensures
        final(out)@ == old(out)@ + actions_of_binding(keys@, actions@, key),
{
    let ghost start = out@;
    let mut i: usize = 0;
    proof {
        assert(keys@.take(0) =~= Seq::<Key>::empty());
        assert(start + actions_of_binding(Seq::<Key>::empty(), actions@, key) =~= start);
    }
    while i < keys.len()
        invariant
            i <= keys.len(),
            out@ == start + actions_of_binding(keys@.take(i as int), actions@, key),
        decreases keys.len() - i,
    {
        let ghost before = out@;
        if keys[i] == key {
            let mut j: usize = 0;
            while j < actions.len()
                invariant
                    j <= actions.len(),
                    out@ == before + actions@.take(j as int),
                decreases actions.len() - j,
            {
                out.push(actions[j]);
                proof {
                    assert(actions@.take(j + 1) =~= actions@.take(j as int).push(actions@[j as int]));
                }
                j = j + 1;
            }
            proof {
                assert(actions@.take(actions.len() as int) =~= actions@);
            }
        }
        proof {
            assert(keys@.take(i + 1).drop_last() =~= keys@.take(i as int));
            assert(keys@.take(i + 1).last() == keys@[i as int]);
            if keys@[i as int] == key {
                assert(out@ =~= start + actions_of_binding(keys@.take(i + 1), actions@, key));
            } else {
                assert(out@ =~= start + actions_of_binding(keys@.take(i + 1), actions@, key));
            }
        }
        i = i + 1;
    }
    proof {
        assert(keys@.take(keys.len() as int) =~= keys@);
    }
}

/// The actions a press of `key` performs, in order.
pub fn actions_for_key(inputs: &Vec<ActionInputs>, key: Key) -> (v: Vec<TableParameterAction>)
    ensures
        v@ == spec_actions_for_key(inputs@, key),
{
    let mut v: Vec<TableParameterAction> = Vec::new();
    let mut i: usize = 0;
    proof {
        assert(inputs@.take(0) =~= Seq::<ActionInputs>::empty());
    }
    while i < inputs.len()
        invariant
            i <= inputs.len(),
            v@ == spec_actions_for_key(inputs@.take(i as int), key),
        decreases inputs.len() - i,
    {
        binding_actions(&inputs[i].key, &inputs[i].action, key, &mut v);
        proof {
            assert(inputs@.take(i + 1).drop_last() =~= inputs@.take(i as int));
            assert(inputs@.take(i + 1).last() == inputs@[i as int]);
        }
        i = i + 1;
    }
    proof {
        assert(inputs@.take(inputs.len() as int) =~= inputs@);
    }
    v
}

fn single_binding(key: Key, action: TableParameterAction) -> (b: ActionInputs)
    ensures
        b.key@ == seq![key],
        b.action@ == seq![action],
{
    let mut keys: Vec<Key> = Vec::new();
    keys.push(key);
    let mut actions: Vec<TableParameterAction> = Vec::new();
    actions.push(action);
    ActionInputs { key: keys, action: actions }
}

/// The bindings every table menu has: Down and Up move between rows, Right
/// and Left change the values, Esc quits.
pub fn get_default_action_input() -> (v: Vec<ActionInputs>)
    ensures
        v.len() == 5,
        v[0].key@ == seq![Key::Down] && v[0].action@ == seq![TableParameterAction::NextRow],
        v[1].key@ == seq![Key::Up] && v[1].action@ == seq![TableParameterAction::PreviousRow],
        v[2].key@ == seq![Key::Right] && v[2].action@ == seq![TableParameterAction::NextValue],
        v[3].key@ == seq![Key::Left] && v[3].action@ == seq![TableParameterAction::PreviousValue],
        v[4].key@ == seq![Key::Esc] && v[4].action@ == seq![TableParameterAction::Quit],
{
    let mut v: Vec<ActionInputs> = Vec::new();
    v.push(single_binding(Key::Down, TableParameterAction::NextRow));
    v.push(single_binding(Key::Up, TableParameterAction::PreviousRow));
    v.push(single_binding(Key::Right, TableParameterAction::NextValue));
    v.push(single_binding(Key::Left, TableParameterAction::PreviousValue));
    v.push(single_binding(Key::Esc, TableParameterAction::Quit));
    v
}


/// Rows and headers a table menu can be built from: at least one header (a
/// row highlight symbol goes on each side), no more headers than lines in a
/// `u16`, no row with more cells than headers, and sizes that can be counted.
pub open spec fn table_buildable(rows: Seq<RowData>, headers: Seq<String>) -> bool {
    &&& 1 <= headers.len() <= u16::MAX
    &&& forall|i: int| 0 <= i < headers.len() ==> #[trigger] header_fits(headers[i]@)
    &&& forall|i: int| 0 <= i < rows.len() ==> #[trigger] row_fits(rows[i]@)
    &&& forall|i: int| 0 <= i < rows.len() ==> (#[trigger] rows[i]).cells@.len() <= headers.len()
    &&& sum_row_heights(rows_view(rows)) <= usize::MAX
    &&& max_column_widths(rows, headers).last() < u16::MAX
}

/// Whether the texts of the cell are short enough for its sizes to be
/// counted.
pub fn cell_can_be_measured(c: &CellValue) -> (b: bool)
    ensures
        b == cell_fits(c@),
{
    match c {
        CellValue::Text(t) => chars_of(t.as_str()).len() < usize::MAX - DISPLAY_CELL_OUT_SPACE,
        CellValue::Options { values, .. } => {
            proof {
                assert(c@ is Options);
                assert(c@->values == strings_view(values@));
            }
            let mut i: usize = 0;
            while i < values.len()
                invariant
                    i <= values.len(),
                    c@ is Options,
                    c@->values == strings_view(values@),
                    forall|j: int| 0 <= j < i ==> #[trigger] strings_view(values@)[j].len() + DISPLAY_CELL_OUT_SPACE < usize::MAX,
                decreases values.len() - i,
            {
                let n = chars_of(values[i].as_str()).len();
                proof {
                    assert(strings_view(values@)[i as int] == values@[i as int]@);
                }
                if n >= usize::MAX - DISPLAY_CELL_OUT_SPACE {
                    proof {
                        assert(!(c@->values[i as int].len() + DISPLAY_CELL_OUT_SPACE < usize::MAX));
                    }
                    return false;
                }
                i = i + 1;
            }
            true
        },
    }
}

/// Whether every cell of the row is short enough for its sizes to be
/// counted.
pub fn row_can_be_measured(r: &RowData) -> (b: bool)
    ensures
        b == row_fits(r@),
{
    let mut i: usize = 0;
    while i < r.cells.len()
        invariant
            i <= r.cells.len(),
            forall|j: int| 0 <= j < i ==> #[trigger] cell_fits(r@[j]),
        decreases r.cells.len() - i,
    {
        proof {
            assert(r@[i as int] == r.cells@[i as int]@);
        }
        if !cell_can_be_measured(&r.cells[i]) {
            proof {
                assert(!cell_fits(r@[i as int]));
            }
            return false;
        }
        i = i + 1;
    }
    true
}

/// Whether a table menu can be built on these rows under these headers.
pub fn table_can_be_built(rows: &[RowData], headers: &[String]) -> (b: bool)
    ensures
        b == table_buildable(rows@, headers@),
{
    if headers.len() == 0 || headers.len() > 65535 {
        return false;
    }
    let mut h: usize = 0;
    while h < headers.len()
        invariant
            h <= headers.len(),
            forall|j: int| 0 <= j < h ==> #[trigger] header_fits(headers@[j]@),
        decreases headers.len() - h,
    {
        let g = grapheme_count(headers[h].as_str());
        let g16: u16 = #[verifier::truncate] (g as u16);
        if g16 == 65535 {
            proof {
                assert(!header_fits(headers@[h as int]@));
            }
            return false;
        }
        h = h + 1;
    }
    let mut i: usize = 0;
    while i < rows.len()
        invariant
            i <= rows.len(),
            forall|j: int| 0 <= j < i ==> #[trigger] row_fits(rows@[j]@),
            forall|j: int| 0 <= j < i ==> (#[trigger] rows@[j]).cells@.len() <= headers@.len(),
        decreases rows.len() - i,
    {
        if rows[i].cells.len() > headers.len() || !row_can_be_measured(&rows[i]) {
            return false;
        }
        i = i + 1;
    }
    let mut total: usize = 0;
    let mut k: usize = 0;
    while k < rows.len()
        invariant
            k <= rows.len(),
            forall|j: int| 0 <= j < rows@.len() ==> #[trigger] row_fits(rows@[j]@),
            total == sum_row_heights(rows_view(rows@).take(k as int)),
        decreases rows.len() - k,
    {
        let height = rows[k].height();
        proof {
            let rv = rows_view(rows@);
            assert(rv.take(k + 1).drop_last() =~= rv.take(k as int));
            assert(rv.take(k + 1).last() == rows@[k as int]@);
        }
        match total.checked_add(height) {
            Some(t) => {
                total = t;
            },
            None => {
                proof {
                    lemma_sum_row_heights_prefix(rows_view(rows@), k + 1);
                }
                return false;
            },
        }
        k = k + 1;
    }
    proof {
        assert(rows_view(rows@).take(rows.len() as int) =~= rows_view(rows@));
    }
    let widths = calculate_max_column_widths(rows, headers);
    widths[widths.len() - 1] < 65535
}

/// Rows whose option cells all have a selected value.
pub open spec fn rows_selectable(rows: Seq<RowData>) -> bool {
    forall|i: int| 0 <= i < rows.len() ==> #[trigger] row_selectable(rows[i]@)
}

/// Rows whose sizes can be counted, and whose heights add up to no more than
/// a `usize` holds.
pub open spec fn rows_measurable(rows: Seq<RowData>) -> bool {
    &&& forall|i: int| 0 <= i < rows.len() ==> #[trigger] row_fits(rows[i]@)
    &&& sum_row_heights(rows_view(rows)) <= usize::MAX
}

/// The row selected after moving down from `selected` among `n` rows: the
/// next one, cycling to the first, or the first when none was selected.
pub open spec fn next_selection(selected: Option<usize>, n: int) -> int {
    match selected {
        Some(i) => (i + 1) % n,
        None => 0,
    }
}

/// The row selected after moving up from `selected` among `n` rows: the
/// previous one, cycling to the last, or the first when none was selected.
pub open spec fn previous_selection(selected: Option<usize>, n: int) -> int {
    match selected {
        Some(i) => (i + n - 1) % n,
        None => 0,
    }
}

/// Whether every option cell of the row `i` has a value to cycle through,
/// where `i` is a row of the table.
pub open spec fn selected_row_changeable(rows: Seq<RowData>, i: usize) -> bool {
    i < rows.len() ==> row_changeable(rows[i as int]@)
}

/// Whether `action` can be performed on a menu with these rows and
/// selection: moving between rows needs rows whose heights can be added up,
/// changing values needs values in the option cells of the selected row, and
/// the other actions need nothing.
pub open spec fn action_possible(action: TableParameterAction, rows: Seq<RowData>, selected_row: usize) -> bool {
    match action {
        TableParameterAction::NextRow | TableParameterAction::PreviousRow => rows.len() > 0 && rows_measurable(rows),
        TableParameterAction::NextValue | TableParameterAction::PreviousValue => selected_row_changeable(rows, selected_row),
        _ => true,
    }
}

/// Whether every option cell of the rows has a selected value.
pub fn rows_all_selectable(rows: &[RowData]) -> (b: bool)
    ensures
        b == rows_selectable(rows@),
{
    let mut i: usize = 0;
    while i < rows.len()
        invariant
            i <= rows.len(),
            forall|k: int| 0 <= k < i ==> #[trigger] row_selectable(rows@[k]@),
        decreases rows.len() - i,
    {
        let cells = &rows[i].cells;
        let mut j: usize = 0;
        while j < cells.len()
            invariant
                i < rows.len(),
                cells@ == rows@[i as int].cells@,
                j <= cells.len(),
                forall|k: int| 0 <= k < j ==> #[trigger] cell_selectable(rows@[i as int]@[k]),
            decreases cells.len() - j,
        {
            let ok = match &cells[j] {
                CellValue::Text(_) => true,
                CellValue::Options { values, index, .. } => values.len() > 0 && *index < values.len(),
            };
            proof {
                assert(rows@[i as int]@[j as int] == cells@[j as int]@);
                assert(strings_view(cells@[j as int]->values@).len() == cells@[j as int]->values@.len()) by {
                    if cells@[j as int] is Options {}
                }
            }
            if !ok {
                proof {
                    assert(!cell_selectable(rows@[i as int]@[j as int]));
                    assert(!row_selectable(rows@[i as int]@));
                }
                return false;
            }
            j = j + 1;
        }
        i = i + 1;
    }
    true
}

/// The state of a table menu: its rows, headers and layout, the selected
/// row, the scroll bar, the footer and the preset it shows.
pub struct GenericMenu {
    pub rows: Vec<RowData>,
    pub headers: Vec<String>,
    /// Length of each column of the layout
    pub constraints: Vec<u16>,
    /// Selected row of the table widget
    pub selected: Option<usize>,
    pub selected_row: usize,
    /// Lines of content the scroll bar scrolls over
    pub scroll_content_length: usize,
    /// Position of the scroll bar: lines of the rows above the selected one
    pub scroll_position: usize,
    pub info_footer_data: Vec<FooterData>,
    pub current_preset: Option<u16>,
}

/// What the caller of `GenericMenu::apply_action` has to do next.
#[derive(Debug, Clone, Copy, PartialEq, Eq, Structural)]
pub enum ActionEffect {
    /// The action is done
    Done,
    /// Leave the menu
    Quit,
    /// Apply the rows to the options (and save them when a preset is loaded)
    ApplyAndSave,
    /// Load the preset and rebuild the menu with `reload`
    LoadPreset(u16),
}

fn copy_strings(v: &[String]) -> (r: Vec<String>)
    ensures
        r@ == v@,
{
    let mut r: Vec<String> = Vec::new();
    let mut i: usize = 0;
    while i < v.len()
        invariant
            i <= v.len(),
            r@ == v@.take(i as int),
        decreases v.len() - i,
    {
        r.push(v[i].clone());
        proof {
            assert(v@.take(i + 1) =~= v@.take(i as int).push(v@[i as int]));
        }
        i = i + 1;
    }
    proof {
        assert(v@.take(v.len() as int) =~= v@);
    }
    r
}

impl GenericMenu {
    /// A menu on `rows` under `headers`, the first row selected.
    pub fn new(rows: Vec<RowData>, headers: &[String], info_footer: Vec<FooterData>, current_preset: Option<u16>) -> (m: GenericMenu)
        requires
            table_buildable(rows@, headers@),
        ensures
            m.rows == rows,
            m.headers@ == headers@,
            m.constraints@ == spec_constraint_lengths(max_column_widths(rows@, headers@)),
            m.selected == Some(0usize),
            m.selected_row == 0,
            m.scroll_content_length == sum_row_heights(rows_view(rows@)),
            m.scroll_position == 0,
            m.info_footer_data == info_footer,
            m.current_preset == current_preset,
            rows_measurable(m.rows@),
    {
        let column_widths = calculate_max_column_widths(rows.as_slice(), headers);
        let constraints = constraint_length_from_widths(column_widths.as_slice());
        let row_sum_height = calculate_sum_inner_row_heights(rows.as_slice());
        GenericMenu {
            rows,
            headers: copy_strings(headers),
            constraints,
            selected: Some(0),
            selected_row: 0,
            scroll_content_length: row_sum_height,
            scroll_position: 0,
            info_footer_data: info_footer,
            current_preset,
        }
    }

    /// Selects the next row, cycling to the first (the first row when none
    /// was selected), and scrolls to it.
    pub fn next_row(&mut self)
        requires
            old(self).rows.len() > 0,
            rows_measurable(old(self).rows@),
        ensures
            final(self).selected == Some(final(self).selected_row),
            final(self).selected_row == next_selection(old(self).selected, old(self).rows.len() as int),
            final(self).scroll_position == sum_row_heights(rows_view(old(self).rows@).take(final(self).selected_row as int)),
            final(self).rows == old(self).rows,
            final(self).headers == old(self).headers,
            final(self).constraints == old(self).constraints,
            final(self).scroll_content_length == old(self).scroll_content_length,
            final(self).info_footer_data == old(self).info_footer_data,
            final(self).current_preset == old(self).current_preset,
    {
        let n = self.rows.len();
        let i = match self.selected {
            Some(i) => {
                proof {
                    lemma_next_index(i as int, n as int);
                }
                (i % n + 1) % n
            },
            None => 0,
        };
        self.selected = Some(i);
        self.selected_row = i;
        self.scroll_position = sum_row_heights_prefix(self.rows.as_slice(), i);
    }

    /// Selects the previous row, cycling to the last (the first row when
    /// none was selected), and scrolls to it.
    pub fn previous_row(&mut self)
        requires
            old(self).rows.len() > 0,
            rows_measurable(old(self).rows@),
        ensures
            final(self).selected == Some(final(self).selected_row),
            final(self).selected_row == previous_selection(old(self).selected, old(self).rows.len() as int),
            final(self).scroll_position == sum_row_heights(rows_view(old(self).rows@).take(final(self).selected_row as int)),
            final(self).rows == old(self).rows,
            final(self).headers == old(self).headers,
            final(self).constraints == old(self).constraints,
            final(self).scroll_content_length == old(self).scroll_content_length,
            final(self).info_footer_data == old(self).info_footer_data,
            final(self).current_preset == old(self).current_preset,
    {
        let n = self.rows.len();
        let i = match self.selected {
            Some(i) => {
                proof {
                    lemma_previous_index(i as int, n as int);
                }
                let r = i % n;
                if r == 0 { n - 1 } else { r - 1 }
            },
            None => 0,
        };
        self.selected = Some(i);
        self.selected_row = i;
        self.scroll_position = sum_row_heights_prefix(self.rows.as_slice(), i);
    }

    /// Selects the next value of the option cells of the selected row; with
    /// no row at that place, nothing changes.
    pub fn next_parameter_value(&mut self)
        requires
            selected_row_changeable(old(self).rows@, old(self).selected_row),
        ensures
            final(self).rows@.len() == old(self).rows@.len(),
            old(self).selected_row < old(self).rows@.len() ==> final(self).rows@[old(self).selected_row as int]@
                == row_next(old(self).rows@[old(self).selected_row as int]@),
            forall|i: int| 0 <= i < old(self).rows@.len() && i != old(self).selected_row ==> #[trigger] final(self).rows@[i] == old(self).rows@[i],
            rows_measurable(old(self).rows@) ==> rows_measurable(final(self).rows@),
            final(self).selected_row == old(self).selected_row,
            final(self).selected == old(self).selected,
            final(self).scroll_position == old(self).scroll_position,
            final(self).scroll_content_length == old(self).scroll_content_length,
            final(self).headers == old(self).headers,
            final(self).constraints == old(self).constraints,
            final(self).info_footer_data == old(self).info_footer_data,
            final(self).current_preset == old(self).current_preset,
    {
        let i = self.selected_row;
        if i < self.rows.len() {
            self.rows[i].next_cell_value();
            proof {
                lemma_row_change_keeps_sizes(old(self).rows@, self.rows@, i as int, true);
            }
        }
    }

    /// Selects the previous value of the option cells of the selected row;
    /// with no row at that place, nothing changes.
    pub fn previous_parameter_value(&mut self)
        requires
            selected_row_changeable(old(self).rows@, old(self).selected_row),
        ensures
            final(self).rows@.len() == old(self).rows@.len(),
            old(self).selected_row < old(self).rows@.len() ==> final(self).rows@[old(self).selected_row as int]@
                == row_previous(old(self).rows@[old(self).selected_row as int]@),
            forall|i: int| 0 <= i < old(self).rows@.len() && i != old(self).selected_row ==> #[trigger] final(self).rows@[i] == old(self).rows@[i],
            rows_measurable(old(self).rows@) ==> rows_measurable(final(self).rows@),
            final(self).selected_row == old(self).selected_row,
            final(self).selected == old(self).selected,
            final(self).scroll_position == old(self).scroll_position,
            final(self).scroll_content_length == old(self).scroll_content_length,
            final(self).headers == old(self).headers,
            final(self).constraints == old(self).constraints,
            final(self).info_footer_data == old(self).info_footer_data,
            final(self).current_preset == old(self).current_preset,
    {
        let i = self.selected_row;
        if i < self.rows.len() {
            self.rows[i].previous_cell_value();
            proof {
                lemma_row_change_keeps_sizes(old(self).rows@, self.rows@, i as int, false);
            }
        }
    }

    /// Whether every option cell of the selected row has a value to cycle
    /// through (true when no row is at that place).
    pub fn selected_row_can_change(&self) -> (b: bool)
        ensures
            b == selected_row_changeable(self.rows@, self.selected_row),
    {
        let i = self.selected_row;
        if i >= self.rows.len() {
            return true;
        }
        let cells = &self.rows[i].cells;
        let mut j: usize = 0;
        while j < cells.len()
            invariant
                i == self.selected_row,
                i < self.rows.len(),
                cells@ == self.rows@[i as int].cells@,
                j <= cells.len(),
                forall|k: int| 0 <= k < j ==> #[trigger] cell_changeable(self.rows@[i as int]@[k]),
            decreases cells.len() - j,
        {
            let ok = match &cells[j] {
                CellValue::Text(_) => true,
                CellValue::Options { values, .. } => values.len() > 0,
            };
            proof {
                assert(self.rows@[i as int]@[j as int] == cells@[j as int]@);
                assert(strings_view(cells@[j as int]->values@).len() == cells@[j as int]->values@.len()) by {
                    if cells@[j as int] is Options {}
                }
            }
            if !ok {
                proof {
                    assert(!cell_changeable(self.rows@[i as int]@[j as int]));
                    assert(!row_changeable(self.rows@[i as int]@));
                }
                return false;
            }
            j = j + 1;
        }
        true
    }

    /// Performs one action of a key press; applying the values and loading
    /// a preset are left to the caller, as the effect says.
    pub fn apply_action(&mut self, action: TableParameterAction) -> (e: ActionEffect)
        requires
            action_possible(action, old(self).rows@, old(self).selected_row),
        ensures
            e == (match action {
                TableParameterAction::Quit => ActionEffect::Quit,
                TableParameterAction::ApplyAndSave => ActionEffect::ApplyAndSave,
                TableParameterAction::LoadPreset(i) => ActionEffect::LoadPreset(i),
                _ => ActionEffect::Done,
            }),
            action == TableParameterAction::NextRow ==> final(self).selected_row
                == next_selection(old(self).selected, old(self).rows.len() as int),
            action == TableParameterAction::PreviousRow ==> final(self).selected_row
                == previous_selection(old(self).selected, old(self).rows.len() as int),
            (action is NextRow || action is PreviousRow) ==> {
                &&& final(self).selected == Some(final(self).selected_row)
                &&& final(self).rows == old(self).rows
                &&& final(self).scroll_position
                    == sum_row_heights(rows_view(old(self).rows@).take(final(self).selected_row as int))
            },
            action == TableParameterAction::NextValue && old(self).selected_row < old(self).rows@.len()
                ==> final(self).rows@[old(self).selected_row as int]@
                == row_next(old(self).rows@[old(self).selected_row as int]@),
            action == TableParameterAction::PreviousValue && old(self).selected_row < old(self).rows@.len()
                ==> final(self).rows@[old(self).selected_row as int]@
                == row_previous(old(self).rows@[old(self).selected_row as int]@),
            (action is NextValue || action is PreviousValue) ==> {
                &&& final(self).rows@.len() == old(self).rows@.len()
                &&& forall|i: int| 0 <= i < old(self).rows@.len() && i != old(self).selected_row
                    ==> #[trigger] final(self).rows@[i] == old(self).rows@[i]
                &&& final(self).selected == old(self).selected
                &&& final(self).selected_row == old(self).selected_row
                &&& final(self).scroll_position == old(self).scroll_position
            },
            rows_measurable(old(self).rows@) ==> rows_measurable(final(self).rows@),
            final(self).headers == old(self).headers,
            final(self).constraints == old(self).constraints,
            final(self).scroll_content_length == old(self).scroll_content_length,
            final(self).info_footer_data == old(self).info_footer_data,
            final(self).current_preset == old(self).current_preset,
            (action is Quit || action is ApplyAndSave || action is LoadPreset) ==> *final(self) == *old(self),
    {
        match action {
            TableParameterAction::NextValue => {
                self.next_parameter_value();
                ActionEffect::Done
            },
            TableParameterAction::PreviousValue => {
                self.previous_parameter_value();
                ActionEffect::Done
            },
            TableParameterAction::NextRow => {
                self.next_row();
                ActionEffect::Done
            },
            TableParameterAction::PreviousRow => {
                self.previous_row();
                ActionEffect::Done
            },
            TableParameterAction::Quit => ActionEffect::Quit,
            TableParameterAction::ApplyAndSave => ActionEffect::ApplyAndSave,
            TableParameterAction::LoadPreset(i) => ActionEffect::LoadPreset(i),
        }
    }

    /// Rebuilds the menu for the preset `index`, with the loaded rows and
    /// footer, or the current ones where nothing was loaded.
    pub fn reload(&mut self, new_rows: Option<Vec<RowData>>, new_footer: Option<Vec<FooterData>>, index: u16)
        requires
            table_buildable(
                match new_rows {
                    Some(r) => r@,
                    None => old(self).rows@,
                },
                old(self).headers@,
            ),
        ensures
            final(self).rows == (match new_rows {
                Some(r) => r,
                None => old(self).rows,
            }),
            final(self).headers@ == old(self).headers@,
            final(self).info_footer_data == (match new_footer {
                Some(f) => f,
                None => old(self).info_footer_data,
            }),
            final(self).current_preset == Some(index),
            final(self).selected == Some(0usize),
            final(self).selected_row == 0,
            final(self).scroll_position == 0,
            final(self).constraints@ == spec_constraint_lengths(max_column_widths(final(self).rows@, final(self).headers@)),
            final(self).scroll_content_length == sum_row_heights(rows_view(final(self).rows@)),
    {
        let mut old_rows: Vec<RowData> = Vec::new();
        std::mem::swap(&mut old_rows, &mut self.rows);
        let mut old_footer: Vec<FooterData> = Vec::new();
        std::mem::swap(&mut old_footer, &mut self.info_footer_data);
        let rows = match new_rows {
            Some(r) => r,
            None => old_rows,
        };
        let footer = match new_footer {
            Some(f) => f,
            None => old_footer,
        };
        let headers = copy_strings(self.headers.as_slice());
        *self = GenericMenu::new(rows, headers.as_slice(), footer, Some(index));
    }
}

proof fn lemma_max_cell_height_same(a: Seq<CellView>, b: Seq<CellView>)
    requires
        a.len() == b.len(),
        forall|k: int| 0 <= k < a.len() ==> cell_height(#[trigger] a[k]) == cell_height(b[k]),
    ensures
        max_cell_height(a) == max_cell_height(b),
    decreases a.len(),
{
    if a.len() > 0 {
        assert forall|k: int| 0 <= k < a.drop_last().len() implies cell_height(#[trigger] a.drop_last()[k])
            == cell_height(b.drop_last()[k]) by {
            assert(a.drop_last()[k] == a[k]);
            assert(b.drop_last()[k] == b[k]);
        }
        lemma_max_cell_height_same(a.drop_last(), b.drop_last());
        assert(cell_height(a.last()) == cell_height(b.last()));
    }
}

proof fn lemma_sum_row_heights_same(a: Seq<Seq<CellView>>, b: Seq<Seq<CellView>>)
    requires
        a.len() == b.len(),
        forall|k: int| 0 <= k < a.len() ==> row_height(#[trigger] a[k]) == row_height(b[k]),
    ensures
        sum_row_heights(a) == sum_row_heights(b),
    decreases a.len(),
{
    if a.len() > 0 {
        assert forall|k: int| 0 <= k < a.drop_last().len() implies row_height(#[trigger] a.drop_last()[k])
            == row_height(b.drop_last()[k]) by {
            assert(a.drop_last()[k] == a[k]);
            assert(b.drop_last()[k] == b[k]);
        }
        lemma_sum_row_heights_same(a.drop_last(), b.drop_last());
        assert(row_height(a.last()) == row_height(b.last()));
    }
}

#[verifier::spinoff_prover]
proof fn lemma_cell_change_keeps_sizes(c: CellView)
    ensures
        cell_height(cell_next(c)) == cell_height(c),
        cell_fits(cell_next(c)) == cell_fits(c),
        cell_width(cell_next(c)) == cell_width(c),
        cell_height(cell_previous(c)) == cell_height(c),
        cell_fits(cell_previous(c)) == cell_fits(c),
        cell_width(cell_previous(c)) == cell_width(c),
{
    match c {
        CellView::Text(_) => {
            assert(cell_next(c) == c);
            assert(cell_previous(c) == c);
        },
        CellView::Options { .. } => {},
    }
}

/// Changing the selected values of a row keeps its texts, hence its sizes.
proof fn lemma_row_change_keeps_sizes(before: Seq<RowData>, after: Seq<RowData>, i: int, next: bool)
    requires
        0 <= i < before.len(),
        before.len() == after.len(),
        forall|k: int| 0 <= k < before.len() && k != i ==> #[trigger] after[k] == before[k],
        after[i]@ == (if next { row_next(before[i]@) } else { row_previous(before[i]@) }),
    ensures
        forall|k: int| 0 <= k < after.len() ==> row_fits(#[trigger] after[k]@) == row_fits(before[k]@),
        sum_row_heights(rows_view(after)) == sum_row_heights(rows_view(before)),
{
    let r0 = before[i]@;
    let r1 = after[i]@;
    assert forall|k: int| 0 <= k < r0.len() implies cell_height(#[trigger] r1[k]) == cell_height(r0[k])
        && cell_fits(r1[k]) == cell_fits(r0[k]) by {
        lemma_cell_change_keeps_sizes(r0[k]);
        if next {
            assert(r1[k] == cell_next(r0[k]));
        } else {
            assert(r1[k] == cell_previous(r0[k]));
        }
    }
    lemma_max_cell_height_same(r1, r0);
    assert(row_fits(r1) == row_fits(r0)) by {
        if row_fits(r0) {
            assert forall|k: int| 0 <= k < r1.len() implies #[trigger] cell_fits(r1[k]) by {
                assert(cell_fits(r0[k]));
            }
        }
        if row_fits(r1) {
            assert forall|k: int| 0 <= k < r0.len() implies #[trigger] cell_fits(r0[k]) by {
                assert(cell_fits(r1[k]));
            }
        }
    }
    assert forall|k: int| 0 <= k < after.len() implies row_height(#[trigger] rows_view(after)[k])
        == row_height(rows_view(before)[k]) by {
        assert(rows_view(after)[k] == after[k]@);
        assert(rows_view(before)[k] == before[k]@);
    }
    lemma_sum_row_heights_same(rows_view(after), rows_view(before));
}

/// Moving the selection to the next row and back (or back and forth)
/// selects the same row again.
pub proof fn lemma_row_selection_round_trip(i: int, n: int)
    requires
        0 <= i < n,
    ensures
        (((i + 1) % n) + n - 1) % n == i,
        (((i + n - 1) % n) + 1) % n == i,
{
    assert((((i + 1) % n) + n - 1) % n == i) by (nonlinear_arith)
        requires 0 <= i < n;
    assert((((i + n - 1) % n) + 1) % n == i) by (nonlinear_arith)
        requires 0 <= i < n;
}

} // verus!
