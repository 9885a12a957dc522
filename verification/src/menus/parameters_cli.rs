//! The parameters table: one row per game option that can be changed in the
//! game, with the values it can take, and back from the table to the
//! command line arguments that set the chosen values.
use vstd::prelude::*;
use crate::menus::table::{CellValue, CellView, RowData, rows_view, strings_view, cell_selectable};
use crate::options::{GameOptions, spec_emoji, spec_get_parameter_range, get_parameter_range, DISPLAYABLE_EMOJI_COUNT};
use crate::text::{chars_of, string_from_chars, str_equal, push_str, decimal, decimal_string, contains_seq, contains_str, contains_char};
use crate::unicode::{to_lowercase, lowercase_of};

verus! {

/// An argument of the command line, as the parameters table shows it: its
/// long name, the values it accepts (for flags and enumerations), its help,
/// and the current value of the option written as in a TOML file.
pub struct ArgInfo {
    pub long: String,
    pub possible_values: Vec<String>,
    pub help: String,
    pub current_value: Option<String>,
}

/// Whether an argument is only for the command line (loading presets and
/// the negated flags), and so not shown in the table.
pub open spec fn is_cli_only(long: Seq<char>) -> bool {
    contains_seq(long, "load"@) || contains_seq(long, "no-"@)
}

/// The decimal writings of the numbers from `lo` to `hi`.
pub open spec fn range_strings(lo: int, hi: int) -> Seq<Seq<char>> {
    Seq::new((hi - lo + 1) as nat, |i: int| decimal((lo + i) as nat))
}

/// `vs` with `s` added at the end unless it is already there.
pub open spec fn with_unique(vs: Seq<Seq<char>>, s: Seq<char>) -> Seq<Seq<char>> {
    if vs.contains(s) { vs } else { vs.push(s) }
}

/// The symbols offered for the snake.
pub open spec fn emoji_seq() -> Seq<Seq<char>> {
    Seq::new(DISPLAYABLE_EMOJI_COUNT as nat, |i: int| spec_emoji(i))
}

/// The characters of the head and body symbols, if given.
pub open spec fn symbols_view(symbols: Option<(&str, &str)>) -> Option<(Seq<char>, Seq<char>)> {
    match symbols {
        Some((head, body)) => Some((head@, body@)),
        None => None,
    }
}

/// The values an argument can take in the table: its accepted values, or
/// the numbers of its range, or else (for the symbols) the offered symbols,
/// plus the current head and body symbols when `symbols` gives them.
pub open spec fn arg_values(long: Seq<char>, possible: Seq<Seq<char>>, symbols: Option<(Seq<char>, Seq<char>)>) -> Seq<Seq<char>> {
    if possible.len() == 0 {
        match spec_get_parameter_range(long) {
            Some(r) => range_strings(r.0 as int, r.1 as int),
            None => match symbols {
                Some((head, body)) => with_unique(with_unique(emoji_seq(), head), body),
                None => emoji_seq(),
            },
        }
    } else {
        possible
    }
}

/// The first position of `c` in `s`, if any.
pub open spec fn first_char_index(s: Seq<char>, c: char) -> Option<int> {
    if s.contains(c) {
        Some(choose|i: int| 0 <= i < s.len() && s[i] == c && forall|j: int| 0 <= j < i ==> s[j] != c)
    } else {
        None
    }
}

/// The text after the first double quote of `v`, up to the next one.
pub open spec fn quoted_part(v: Seq<char>) -> Seq<char> {
    match first_char_index(v, '"') {
        Some(i) => {
            let rest = v.skip(i + 1);
            match first_char_index(rest, '"') {
                Some(j) => rest.take(j),
                None => rest,
            }
        },
        None => v,
    }
}

/// The current value of an option as the table lists it: a quoted TOML
/// string is unquoted and put in lower case.
pub open spec fn default_text(current: Seq<char>) -> Seq<char> {
    if current.contains('"') { lowercase_of(quoted_part(current)) } else { current }
}

/// The first position of `d` in `vs`, or 0.
pub open spec fn position_or_first(vs: Seq<Seq<char>>, d: Seq<char>) -> int {
    if vs.contains(d) {
        choose|i: int| 0 <= i < vs.len() && vs[i] == d && forall|j: int| 0 <= j < i ==> vs[j] != d
    } else {
        0
    }
}

/// The position of the current value among the values, or 0.
pub open spec fn default_index(vs: Seq<Seq<char>>, current: Option<String>) -> int {
    match current {
        None => 0,
        Some(c) => position_or_first(vs, default_text(c@)),
    }
}

/// The row of the table for an argument.
pub open spec fn arg_row(a: ArgInfo, symbols: Option<(Seq<char>, Seq<char>)>) -> Seq<CellView> {
    let vs = arg_values(a.long@, strings_view(a.possible_values@), symbols);
    let index = default_index(vs, a.current_value) as usize;
    seq![
        CellView::Options { option_name: "--"@ + a.long@, values: vs, index, index_ini: index },
        CellView::Text(a.long@),
        CellView::Text(a.help@),
    ]
}

/// The rows of the table: one per argument that is not only for the
/// command line, in order.
pub open spec fn parameter_rows(args: Seq<ArgInfo>, symbols: Option<(Seq<char>, Seq<char>)>) -> Seq<Seq<CellView>>
    decreases args.len(),
{
    if args.len() == 0 {
        Seq::empty()
    } else {
        parameter_rows(args.drop_last(), symbols) + (if is_cli_only(args.last().long@) {
            Seq::empty()
        } else {
            seq![arg_row(args.last(), symbols)]
        })
    }
}

/// Adds `symbol` at the end of `collection` unless it is already there.
pub fn add_unique_symbol(collection: &mut Vec<String>, symbol: String)
    ensures
        strings_view(final(collection)@) == with_unique(strings_view(old(collection)@), symbol@),
{
    let ghost sv = strings_view(collection@);
    let mut i: usize = 0;
    while i < collection.len()
        invariant
            i <= collection.len(),
            sv == strings_view(collection@),
            forall|k: int| 0 <= k < i ==> sv[k] != symbol@,
        decreases collection.len() - i,
    {
        if str_equal(collection[i].as_str(), symbol.as_str()) {
            proof {
                assert(sv[i as int] == symbol@);
                assert(sv.contains(symbol@));
            }
            return;
        }
        i = i + 1;
    }
    collection.push(symbol);
    proof {
        assert(!sv.contains(symbol@));
        assert(strings_view(collection@) =~= sv.push(symbol@));
    }
}

fn first_char_position(v: &Vec<char>, c: char, from: usize) -> (r: Option<usize>)
    requires
        from <= v.len(),
    ensures
        match r {
            Some(i) => from <= i < v.len() && v@[i as int] == c && forall|j: int| from <= j < i ==> v@[j] != c,
            None => forall|j: int| from <= j < v.len() ==> v@[j] != c,
        },
{
    let mut i: usize = from;
    while i < v.len()
        invariant
            from <= i <= v.len(),
            forall|j: int| from <= j < i ==> v@[j] != c,
        decreases v.len() - i,
    {
        if v[i] == c {
            return Some(i);
        }
        i = i + 1;
    }
    None
}

proof fn lemma_first_char_index(s: Seq<char>, c: char, i: int)
    requires
        0 <= i < s.len(),
        s[i] == c,
        forall|j: int| 0 <= j < i ==> s[j] != c,
    ensures
        first_char_index(s, c) == Some(i),
{
    assert(s.contains(c));
    let k = choose|k: int| 0 <= k < s.len() && s[k] == c && forall|j: int| 0 <= j < k ==> s[j] != c;
    assert(k == i) by {
        if k < i {
            assert(s[k] != c);
        }
        if i < k {
            assert(s[i] != c);
        }
    }
}

proof fn lemma_no_char_index(s: Seq<char>, c: char)
    requires
        forall|j: int| 0 <= j < s.len() ==> s[j] != c,
    ensures
        first_char_index(s, c) == None::<int>,
{
    assert(!s.contains(c));
}

proof fn lemma_position_or_first(vs: Seq<Seq<char>>, d: Seq<char>, i: int)
    requires
        0 <= i < vs.len(),
        vs[i] == d,
        forall|j: int| 0 <= j < i ==> vs[j] != d,
    ensures
        position_or_first(vs, d) == i,
{
    assert(vs.contains(d));
    let k = choose|k: int| 0 <= k < vs.len() && vs[k] == d && forall|j: int| 0 <= j < k ==> vs[j] != d;
    assert(k == i) by {
        if k < i {
            assert(vs[k] != d);
        }
        if i < k {
            assert(vs[i] != d);
        }
    }
}

/// The characters of `v` from `from` to `to`.
fn copy_range(v: &Vec<char>, from: usize, to: usize) -> (r: Vec<char>)
    requires
        from <= to <= v.len(),
    ensures
        r@ == v@.subrange(from as int, to as int),
{
    let mut r: Vec<char> = Vec::new();
    let mut k: usize = from;
    while k < to
        invariant
            from <= k <= to,
            to <= v.len(),
            r@ == v@.subrange(from as int, k as int),
        decreases to - k,
    {
        r.push(v[k]);
        proof {
            assert(v@.subrange(from as int, k + 1) =~= v@.subrange(from as int, k as int).push(v@[k as int]));
        }
        k = k + 1;
    }
    r
}

/// The text after the first double quote of `v`, up to the next one.
fn quoted(v: &Vec<char>) -> (r: Vec<char>)
    ensures
        r@ == quoted_part(v@),
{
    match first_char_position(v, '"', 0) {
        Some(i) => {
            proof {
                lemma_first_char_index(v@, '"', i as int);
            }
            let ghost rest = v@.skip(i + 1);
            match first_char_position(v, '"', i + 1) {
                Some(j) => {
                    proof {
                        assert forall|k: int| 0 <= k < j - i - 1 implies rest[k] != '"' by {
                            assert(rest[k] == v@[i + 1 + k]);
                        }
                        lemma_first_char_index(rest, '"', j - i - 1);
                    }
                    let r = copy_range(v, i + 1, j);
                    proof {
                        assert(r@ =~= rest.take(j - i - 1));
                    }
                    r
                },
                None => {
                    proof {
                        assert forall|k: int| 0 <= k < rest.len() implies rest[k] != '"' by {
                            assert(rest[k] == v@[i + 1 + k]);
                        }
                        lemma_no_char_index(rest, '"');
                    }
                    let r = copy_range(v, i + 1, v.len());
                    proof {
                        assert(r@ =~= rest);
                    }
                    r
                },
            }
        },
        None => {
            proof {
                lemma_no_char_index(v@, '"');
            }
            let r = copy_range(v, 0, v.len());
            proof {
                assert(r@ =~= v@);
            }
            r
        },
    }
}

/// The position of the current value among the values, or 0.
fn current_index(values: &Vec<String>, current: &Option<String>) -> (r: usize)
    ensures
        r as int == default_index(strings_view(values@), *current),
        values.len() > 0 ==> r < values.len(),
{
    match current {
        None => 0,
        Some(c) => {
            let d: String = if contains_char(c.as_str(), '"') {
                let cv = chars_of(c.as_str());
                let q = string_from_chars(&quoted(&cv));
                to_lowercase(q.as_str())
            } else {
                c.clone()
            };
            let ghost sv = strings_view(values@);
            let mut i: usize = 0;
            while i < values.len()
                invariant
                    i <= values.len(),
                    sv == strings_view(values@),
                    *current == Some(*c),
                    d@ == default_text(c@),
                    forall|k: int| 0 <= k < i ==> sv[k] != d@,
                decreases values.len() - i,
            {
                if str_equal(values[i].as_str(), d.as_str()) {
                    proof {
                        lemma_position_or_first(sv, d@, i as int);
                        assert(default_index(sv, *current) == position_or_first(sv, default_text(c@)));
                    }
                    return i;
                }
                i = i + 1;
            }
            proof {
                assert(!sv.contains(d@));
            }
            0
        },
    }
}

/// The decimal writings of the numbers from `lo` to `hi`.
fn range_values(lo: u16, hi: u16) -> (v: Vec<String>)
    requires
        lo <= hi,
    ensures
        strings_view(v@) == range_strings(lo as int, hi as int),
{
    let mut v: Vec<String> = Vec::new();
    let mut n: u32 = lo as u32;
    while n <= hi as u32
        invariant
            lo <= n <= hi as u32 + 1,
            strings_view(v@) == range_strings(lo as int, n as int - 1),
        decreases hi as u32 + 1 - n,
    {
        let ghost before = strings_view(v@);
        let ghost old_v = v@;
        let d = decimal_string(n as u64);
        v.push(d);
        proof {
            assert(v@ == old_v.push(d));
            assert(before.len() == n - lo);
            assert forall|k: int| 0 <= k < n - lo + 1 implies #[trigger] strings_view(v@)[k] == range_strings(lo as int, n as int)[k] by {
                assert(strings_view(v@)[k] == v@[k]@);
                if k < n - lo {
                    assert(v@[k] == old_v[k]);
                    assert(before[k] == old_v[k]@);
                    assert(before[k] == range_strings(lo as int, n as int - 1)[k]);
                }
            }
            assert(strings_view(v@) =~= range_strings(lo as int, n as int));
        }
        n = n + 1;
    }
    v
}

/// The values an argument can take in the table.
fn values_of_arg(a: &ArgInfo, symbols: Option<(&str, &str)>) -> (v: Vec<String>)
    ensures
        strings_view(v@) == arg_values(a.long@, strings_view(a.possible_values@), symbols_view(symbols)),
{
    if a.possible_values.len() == 0 {
        match get_parameter_range(a.long.as_str()) {
            Some((lo, hi)) => range_values(lo, hi),
            None => {
                let mut v = GameOptions::emojis_iterator();
                proof {
                    assert(strings_view(v@) =~= emoji_seq());
                }
                match symbols {
                    Some((head, body)) => {
                        add_unique_symbol(&mut v, head.to_string());
                        add_unique_symbol(&mut v, body.to_string());
                    },
                    None => {},
                }
                v
            },
        }
    } else {
        let mut v: Vec<String> = Vec::new();
        let mut i: usize = 0;
        while i < a.possible_values.len()
            invariant
                i <= a.possible_values.len(),
                v@ == a.possible_values@.take(i as int),
            decreases a.possible_values.len() - i,
        {
            v.push(a.possible_values[i].clone());
            proof {
                assert(a.possible_values@.take(i + 1) =~= a.possible_values@.take(i as int).push(a.possible_values@[i as int]));
            }
            i = i + 1;
        }
        proof {
            assert(a.possible_values@.take(a.possible_values.len() as int) =~= a.possible_values@);
        }
        v
    }
}

/// The row of the parameters table for one argument.
fn arg_row_of(a: &ArgInfo, symbols: Option<(&str, &str)>) -> (row: RowData)
    ensures
        row@ == arg_row(*a, symbols_view(symbols)),
{
    let values = values_of_arg(a, symbols);
    let index = current_index(&values, &a.current_value);
    let mut name = String::new();
    push_str(&mut name, "--");
    push_str(&mut name, a.long.as_str());
    let mut cells: Vec<CellValue> = Vec::new();
    cells.push(CellValue::new_with_options(name, values, index));
    cells.push(CellValue::new(a.long.clone()));
    cells.push(CellValue::new(a.help.clone()));
    let row = RowData::new(cells);
    proof {
        assert(row@ =~= arg_row(*a, symbols_view(symbols)));
    }
    row
}

/// The rows of the parameters table for `args`, with the symbols given.
fn rows_of_args(args: &Vec<ArgInfo>, symbols: Option<(&str, &str)>) -> (rows: Vec<RowData>)
    ensures
        rows_view(rows@) == parameter_rows(args@, symbols_view(symbols)),
{
    let mut rows: Vec<RowData> = Vec::new();
    let mut i: usize = 0;
    proof {
        assert(args@.take(0) =~= Seq::<ArgInfo>::empty());
        assert(rows_view(rows@) =~= Seq::<Seq<CellView>>::empty());
    }
    while i < args.len()
        invariant
            i <= args.len(),
            rows_view(rows@) == parameter_rows(args@.take(i as int), symbols_view(symbols)),
        decreases args.len() - i,
    {
        let a = &args[i];
        let ghost prefix = args@.take(i as int);
        let ghost next = args@.take(i + 1);
        proof {
            assert(next.drop_last() =~= prefix);
            assert(next.last() == args@[i as int]);
        }
        let cli_only = contains_str(a.long.as_str(), "load") || contains_str(a.long.as_str(), "no-");
        if !cli_only {
            let ghost before = rows_view(rows@);
            let row = arg_row_of(a, symbols);
            rows.push(row);
            proof {
                assert(rows_view(rows@) =~= before.push(arg_row(args@[i as int], symbols_view(symbols))));
            }
        } else {
            proof {
                assert(parameter_rows(next, symbols_view(symbols)) =~= parameter_rows(prefix, symbols_view(symbols)));
            }
        }
        i = i + 1;
    }
    proof {
        assert(args@.take(args.len() as int) =~= args@);
    }
    rows
}


/// The rows of the parameters table: for each argument that is not only
/// for the command line, its values with the current one selected, its name
/// and its help; the symbols offered include the current head and body
/// symbols.
pub fn load_parameter_cli_in_table(args: &Vec<ArgInfo>, head_symbol: &str, body_symbol: &str) -> (rows: Vec<RowData>)
    ensures
        rows_view(rows@) == parameter_rows(args@, Some((head_symbol@, body_symbol@))),
{
    rows_of_args(args, Some((head_symbol, body_symbol)))
}

/// The rows of the parameters table with only the offered symbols: as
/// `load_parameter_cli_in_table`, without adding the current head and body
/// symbols to the values of the symbol options.
pub fn load_parameter_in_table(args: &Vec<ArgInfo>) -> (rows: Vec<RowData>)
    ensures
        rows_view(rows@) == parameter_rows(args@, None),
{
    rows_of_args(args, None)
}

/// The characters `--no-`.
pub open spec fn no_prefix() -> Seq<char> {
    seq!['-', '-', 'n', 'o', '-']
}

/// `s` with each `--` replaced by `--no-`, from left to right without
/// overlaps, as `str::replace("--", "--no-")` does.
pub open spec fn negate_flag(s: Seq<char>) -> Seq<char>
    decreases s.len(),
{
    if s.len() >= 2 && s[0] == '-' && s[1] == '-' {
        no_prefix() + negate_flag(s.skip(2))
    } else if s.len() == 0 {
        s
    } else {
        seq![s[0]] + negate_flag(s.skip(1))
    }
}

/// The arguments that give an option cell its selected value: a flag for
/// `true`, the negated flag for `false`, otherwise the option and its value.
pub open spec fn cell_arguments(c: CellView) -> Seq<Seq<char>> {
    match c {
        CellView::Text(_) => Seq::empty(),
        CellView::Options { option_name, values, index, .. } => {
            let v = values[index as int];
            if v == "true"@ {
                seq![option_name]
            } else if v == "false"@ {
                seq![negate_flag(option_name)]
            } else {
                seq![option_name, v]
            }
        },
    }
}

/// The arguments for the cells of a row, in order.
pub open spec fn row_arguments(r: Seq<CellView>) -> Seq<Seq<char>>
    decreases r.len(),
{
    if r.len() == 0 {
        Seq::empty()
    } else {
        row_arguments(r.drop_last()) + cell_arguments(r.last())
    }
}

/// The arguments for the rows, in order.
pub open spec fn rows_arguments(rows: Seq<Seq<CellView>>) -> Seq<Seq<char>>
    decreases rows.len(),
{
    if rows.len() == 0 {
        Seq::empty()
    } else {
        rows_arguments(rows.drop_last()) + row_arguments(rows.last())
    }
}

/// `s` with each `--` replaced by `--no-`.
pub fn negated_flag(s: &str) -> (r: String)
    ensures
        r@ == negate_flag(s@),
{
    let v = chars_of(s);
    let mut out: Vec<char> = Vec::new();
    let mut i: usize = 0;
    proof {
        assert(v@.skip(0) =~= v@);
        assert(out@ + negate_flag(v@.skip(0)) =~= negate_flag(v@));
    }
    while i < v.len()
        invariant
            i <= v.len(),
            v@ == s@,
            out@ + negate_flag(v@.skip(i as int)) == negate_flag(v@),
        decreases v.len() - i,
    {
        let ghost rest = v@.skip(i as int);
        if i + 1 < v.len() && v[i] == '-' && v[i + 1] == '-' {
            out.push('-');
            out.push('-');
            out.push('n');
            out.push('o');
            out.push('-');
            proof {
                assert(rest.skip(2) =~= v@.skip(i + 2));
                assert(out@ + negate_flag(v@.skip(i + 2)) =~= negate_flag(v@));
            }
            i = i + 2;
        } else {
            out.push(v[i]);
            proof {
                assert(rest.skip(1) =~= v@.skip(i + 1));
                assert(rest[0] == v@[i as int]);
                assert(out@ + negate_flag(v@.skip(i + 1)) =~= negate_flag(v@));
            }
            i = i + 1;
        }
    }
    proof {
        assert(v@.skip(i as int) =~= Seq::<char>::empty());
        assert(out@ =~= negate_flag(v@));
    }
    string_from_chars(&out)
}

fn push_cell_arguments(c: &CellValue, args: &mut Vec<String>)
    requires
        cell_selectable(c@),
    ensures
        strings_view(final(args)@) == strings_view(old(args)@) + cell_arguments(c@),
{
    match c {
        CellValue::Options { option_name, values, index, .. } => {
            proof {
                assert(strings_view(values@)[*index as int] == values@[*index as int]@);
            }
            let value = &values[*index];
            if str_equal(value.as_str(), "true") {
                args.push(option_name.clone());
            } else if str_equal(value.as_str(), "false") {
                args.push(negated_flag(option_name.as_str()));
            } else {
                args.push(option_name.clone());
                args.push(value.clone());
            }
            proof {
                assert(strings_view(args@) =~= strings_view(old(args)@) + cell_arguments(c@));
            }
        },
        CellValue::Text(_) => {
            proof {
                assert(strings_view(args@) =~= strings_view(old(args)@) + cell_arguments(c@));
            }
        },
    }
}

/// The command line, program name first, that gives every option of the
/// table the value selected in its row.
pub fn cli_arguments_from_rows(prog_name: &str, rows: &[RowData]) -> (args: Vec<String>)
    requires
        forall|i: int| 0 <= i < rows@.len() ==> #[trigger] crate::menus::table::row_selectable(rows@[i]@),
    ensures
        strings_view(args@) == seq![prog_name@] + rows_arguments(rows_view(rows@)),
{
    let mut args: Vec<String> = Vec::new();
    args.push(prog_name.to_string());
    let mut r: usize = 0;
    proof {
        assert(rows_view(rows@).take(0) =~= Seq::<Seq<CellView>>::empty());
        assert(strings_view(args@) =~= seq![prog_name@] + rows_arguments(rows_view(rows@).take(0)));
    }
    while r < rows.len()
        invariant
            r <= rows.len(),
            forall|i: int| 0 <= i < rows@.len() ==> #[trigger] crate::menus::table::row_selectable(rows@[i]@),
            strings_view(args@) == seq![prog_name@] + rows_arguments(rows_view(rows@).take(r as int)),
        decreases rows.len() - r,
    {
        let row = &rows[r];
        let ghost start = strings_view(args@);
        let mut c: usize = 0;
        proof {
            assert(row@.take(0) =~= Seq::<CellView>::empty());
            assert(start + row_arguments(row@.take(0)) =~= start);
            assert(crate::menus::table::row_selectable(rows@[r as int]@));
        }
        while c < row.cells.len()
            invariant
                c <= row.cells.len(),
                crate::menus::table::row_selectable(row@),
                strings_view(args@) == start + row_arguments(row@.take(c as int)),
            decreases row.cells.len() - c,
        {
            proof {
                assert(row@[c as int] == row.cells@[c as int]@);
                assert(cell_selectable(row@[c as int]));
            }
            push_cell_arguments(&row.cells[c], &mut args);
            proof {
                assert(row@.take(c + 1).drop_last() =~= row@.take(c as int));
                assert(row@.take(c + 1).last() == row@[c as int]);
                assert(strings_view(args@) =~= start + row_arguments(row@.take(c + 1)));
            }
            c = c + 1;
        }
        proof {
            assert(row@.take(row.cells.len() as int) =~= row@);
            let rv = rows_view(rows@);
            assert(rv.take(r + 1).drop_last() =~= rv.take(r as int));
            assert(rv.take(r + 1).last() == row@);
            assert(strings_view(args@) =~= seq![prog_name@] + rows_arguments(rv.take(r + 1)));
        }
        r = r + 1;
    }
    proof {
        assert(rows_view(rows@).take(rows.len() as int) =~= rows_view(rows@));
    }
    args
}

/// An entry of the footer of the parameters table: a key symbol and what it
/// does.
pub struct FooterData {
    pub symbol: String,
    pub text: String,
}

/// The headers of the parameters table.
pub fn get_headers_parameters() -> (v: Vec<String>)
    ensures
        strings_view(v@) == seq!["🎯 Value"@, "📋 Parameter"@, "📝 Description / super power"@],
{
    let mut v: Vec<String> = Vec::new();
    v.push("🎯 Value".to_string());
    v.push("📋 Parameter".to_string());
    v.push("📝 Description / super power".to_string());
    proof {
        assert(strings_view(v@) =~= seq!["🎯 Value"@, "📋 Parameter"@, "📝 Description / super power"@]);
    }
    v
}

/// The footer of the parameters table: apply, move, change value.
pub fn get_footer_data() -> (v: Vec<FooterData>)
    ensures
        v.len() == 3,
        v[0].symbol@ == "Esc"@ && v[0].text@ == "Apply"@,
        v[1].symbol@ == "↕"@ && v[1].text@ == "Move"@,
        v[2].symbol@ == "← →"@ && v[2].text@ == "Change value"@,
{
    let mut v: Vec<FooterData> = Vec::new();
    v.push(FooterData { symbol: "Esc".to_string(), text: "Apply".to_string() });
    v.push(FooterData { symbol: "↕".to_string(), text: "Move".to_string() });
    v.push(FooterData { symbol: "← →".to_string(), text: "Change value".to_string() });
    v
}

/// The actions of the options that are applied from a table: applying the
/// selected values and, for a preset, saving them.
pub trait ActionParameter {
    fn apply_and_save(&mut self, rows: &[RowData], current_preset: Option<u16>);
}

} // verus!
