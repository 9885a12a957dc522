//! Game options: their allowed ranges, the symbols offered for the snake,
//! clamping loaded values into their ranges, and the command line arguments
//! that give the options the values chosen in the parameters table.
use vstd::prelude::*;
use crate::geometry::Position;
use crate::text::{chars_of, string_from_chars, str_equal, push_decimal, push_str, decimal, digit_char, split_on, lemma_split_on_nonempty};
use crate::unicode::{grapheme_count, grapheme_count_of, to_uppercase, uppercase_of};

verus! {

/// Speed of the snake.
#[derive(Debug, Clone, Copy, PartialEq, Eq, Structural)]
pub enum Speed {
    Slow,
    Normal,
    Fast,
    Crazy,
}

/// Logging level.
#[derive(Debug, Clone, Copy, PartialEq, Eq, Structural)]
pub enum LogLevel {
    Off,
    Error,
    Warn,
    Info,
    Debug,
    Trace,
}

impl Default for LogLevel {
    /// Logging is off by default.
    fn default() -> (l: LogLevel)
        ensures
            l == LogLevel::Off,
    {
        LogLevel::Off
    }
}

/// The name of a logging level in a log filter directive.
pub open spec fn spec_log_level_str(level: LogLevel) -> Seq<char> {
    match level {
        LogLevel::Off => "off"@,
        LogLevel::Error => "error"@,
        LogLevel::Warn => "warn"@,
        LogLevel::Info => "info"@,
        LogLevel::Debug => "debug"@,
        LogLevel::Trace => "trace"@,
    }
}

/// The name of a logging level in a log filter directive.
pub fn log_level_to_str(level: LogLevel) -> (s: &'static str)
    ensures
        s@ == spec_log_level_str(level),
{
    match level {
        LogLevel::Off => "off",
        LogLevel::Error => "error",
        LogLevel::Warn => "warn",
        LogLevel::Info => "info",
        LogLevel::Debug => "debug",
        LogLevel::Trace => "trace",
    }
}

/// Initial position of the head of the snake at the start of a game.
pub open spec fn ini_position() -> Position {
    Position { x: 50, y: 5 }
}

/// Number of symbols offered for the snake.
pub const DISPLAYABLE_EMOJI_COUNT: usize = 38;

/// Symbols shown on the first line of the hint, before a line break.
pub const MAX_EMOJI_BY_LINE_COUNT: usize = 19;

/// Position of the default head symbol (a Christmas tree).
pub const DEFAULT_HEAD_EMOJI: usize = 34;

/// Position of the default body symbol (a snowflake).
pub const DEFAULT_BODY_EMOJI: usize = 35;

/// The symbol at position `i` of the offered symbols.
pub open spec fn spec_emoji(i: int) -> Seq<char> {

    if i == 0 { "🍁"@ }
    else if i == 1 { "😋"@ }
    else if i == 2 { "🥑"@ }
    else if i == 3 { "🐾"@ }
    else if i == 4 { "🐢"@ }
    else if i == 5 { "🦎"@ }
    else if i == 6 { "🪽"@ }
    else if i == 7 { "🐥"@ }
    else if i == 8 { "🐣"@ }
    else if i == 9 { "🦠"@ }
    else if i == 10 { "🦴"@ }
    else if i == 11 { "👣"@ }
    else if i == 12 { "🍥"@ }
    else if i == 13 { "🥮"@ }
    else if i == 14 { "🍪"@ }
    else if i == 15 { "🍩"@ }
    else if i == 16 { "🧊"@ }
    else if i == 17 { "🏴"@ }
    else if i == 18 { "🧨"@ }
    else if i == 19 { "🦑"@ }
    else if i == 20 { "🐟"@ }
    else if i == 21 { "😁"@ }
    else if i == 22 { "🤠"@ }
    else if i == 23 { "🤡"@ }
    else if i == 24 { "🥳"@ }
    else if i == 25 { "🥸"@ }
    else if i == 26 { "👺"@ }
    else if i == 27 { "👹"@ }
    else if i == 28 { "👾"@ }
    else if i == 29 { "🐼"@ }
    else if i == 30 { "🐉"@ }
    else if i == 31 { "🐍"@ }
    else if i == 32 { "🦀"@ }
    else if i == 33 { "🐳"@ }
    else if i == 34 { "🎄"@ }
    else if i == 35 { "❄️"@ }
    else if i == 36 { "👽"@ }
    else { "@"@ }
}

/// The symbol at position `i` of the offered symbols.
pub fn displayable_emoji(i: usize) -> (e: &'static str)
    requires
        i < DISPLAYABLE_EMOJI_COUNT,
    ensures
        e@ == spec_emoji(i as int),
{
    if i == 0 { "🍁" }
    else if i == 1 { "😋" }
    else if i == 2 { "🥑" }
    else if i == 3 { "🐾" }
    else if i == 4 { "🐢" }
    else if i == 5 { "🦎" }
    else if i == 6 { "🪽" }
    else if i == 7 { "🐥" }
    else if i == 8 { "🐣" }
    else if i == 9 { "🦠" }
    else if i == 10 { "🦴" }
    else if i == 11 { "👣" }
    else if i == 12 { "🍥" }
    else if i == 13 { "🥮" }
    else if i == 14 { "🍪" }
    else if i == 15 { "🍩" }
    else if i == 16 { "🧊" }
    else if i == 17 { "🏴" }
    else if i == 18 { "🧨" }
    else if i == 19 { "🦑" }
    else if i == 20 { "🐟" }
    else if i == 21 { "😁" }
    else if i == 22 { "🤠" }
    else if i == 23 { "🤡" }
    else if i == 24 { "🥳" }
    else if i == 25 { "🥸" }
    else if i == 26 { "👺" }
    else if i == 27 { "👹" }
    else if i == 28 { "👾" }
    else if i == 29 { "🐼" }
    else if i == 30 { "🐉" }
    else if i == 31 { "🐍" }
    else if i == 32 { "🦀" }
    else if i == 33 { "🐳" }
    else if i == 34 { "🎄" }
    else if i == 35 { "❄️" }
    else if i == 36 { "👽" }
    else { "@" }
}


/// The options that have a range, by their canonical (upper case) name.
#[derive(Debug, Clone, Copy, PartialEq, Eq, Structural)]
pub enum RangedParameter {
    SnakeLength,
    Life,
    NbOfFruits,
    FruitDurationSeconds,
    Presets,
}

/// The allowed range (smallest, largest) of a ranged option. The snake has
/// at least 2 parts, so that its head and body differ.
pub open spec fn spec_parameter_range(p: RangedParameter) -> (u16, u16) {
    match p {
        RangedParameter::SnakeLength => (2, 999),
        RangedParameter::Life => (1, 99),
        RangedParameter::NbOfFruits => (1, 999),
        RangedParameter::FruitDurationSeconds => (1, 60),
        RangedParameter::Presets => (1, 7),
    }
}

/// The allowed range (smallest, largest) of a ranged option.
pub fn parameter_range(p: RangedParameter) -> (r: (u16, u16))
    ensures
        r == spec_parameter_range(p),
        r.0 <= r.1,
{
    match p {
        RangedParameter::SnakeLength => (2, 999),
        RangedParameter::Life => (1, 99),
        RangedParameter::NbOfFruits => (1, 999),
        RangedParameter::FruitDurationSeconds => (1, 60),
        RangedParameter::Presets => (1, 7),
    }
}

/// The ranged option whose canonical name is `name`, if any.
pub open spec fn parameter_named(name: Seq<char>) -> Option<RangedParameter> {
    if name == "SNAKE_LENGTH"@ {
        Some(RangedParameter::SnakeLength)
    } else if name == "LIFE"@ {
        Some(RangedParameter::Life)
    } else if name == "NB_OF_FRUITS"@ {
        Some(RangedParameter::NbOfFruits)
    } else if name == "FRUIT_DURATION_SECONDS"@ {
        Some(RangedParameter::FruitDurationSeconds)
    } else if name == "PRESETS"@ {
        Some(RangedParameter::Presets)
    } else {
        None
    }
}

/// `s` with every `-` replaced by `_`.
pub open spec fn dashes_to_underscores(s: Seq<char>) -> Seq<char> {
    s.map_values(|c: char| if c == '-' { '_' } else { c })
}

/// The canonical name of an option: its name with `_` for `-`, in upper case.
pub open spec fn canonical_name(name: Seq<char>) -> Seq<char> {
    uppercase_of(dashes_to_underscores(name))
}

/// The range of the option called `param_name` (as on the command line or
/// in the constants), if it has one.
pub open spec fn spec_get_parameter_range(param_name: Seq<char>) -> Option<(u16, u16)> {
    match parameter_named(canonical_name(param_name)) {
        Some(p) => Some(spec_parameter_range(p)),
        None => None,
    }
}

/// The valid range of the option called `param_name`, if it has one.
pub fn get_parameter_range(param_name: &str) -> (r: Option<(u16, u16)>)
    ensures
        r == spec_get_parameter_range(param_name@),
        r matches Some(x) ==> x.0 <= x.1,
{
    let chars = chars_of(param_name);
    let mut replaced: Vec<char> = Vec::new();
    let mut i: usize = 0;
    while i < chars.len()
        invariant
            i <= chars.len(),
            chars@ == param_name@,
            replaced@ == dashes_to_underscores(chars@.take(i as int)),
        decreases chars.len() - i,
    {
        let c = chars[i];
        replaced.push(if c == '-' { '_' } else { c });
        proof {
            assert(dashes_to_underscores(chars@.take(i + 1)) =~= dashes_to_underscores(chars@.take(i as int)).push(
                if c == '-' { '_' } else { c },
            ));
        }
        i = i + 1;
    }
    proof {
        assert(chars@.take(chars.len() as int) =~= chars@);
    }
    let underscored = string_from_chars(&replaced);
    let idiomatic = to_uppercase(underscored.as_str());
    let name = idiomatic.as_str();
    let p = if str_equal(name, "SNAKE_LENGTH") {
        Some(RangedParameter::SnakeLength)
    } else if str_equal(name, "LIFE") {
        Some(RangedParameter::Life)
    } else if str_equal(name, "NB_OF_FRUITS") {
        Some(RangedParameter::NbOfFruits)
    } else if str_equal(name, "FRUIT_DURATION_SECONDS") {
        Some(RangedParameter::FruitDurationSeconds)
    } else if str_equal(name, "PRESETS") {
        Some(RangedParameter::Presets)
    } else {
        None
    };
    match p {
        Some(p) => Some(parameter_range(p)),
        None => None,
    }
}

/// `v` brought into `[min, max]`.
pub open spec fn clamp(v: u16, min: u16, max: u16) -> u16 {
    if v < min { min } else if v > max { max } else { v }
}

/// Brings `value` into `range`, when there is one.
pub fn clamp_to(value: &mut u16, range: Option<(u16, u16)>)
    requires
        range matches Some(r) ==> r.0 <= r.1,
    ensures
        *final(value) == (match range {
            Some(r) => clamp(*old(value), r.0, r.1),
            None => *old(value),
        }),
{
    if let Some((min, max)) = range {
        *value = if *value < min { min } else if *value > max { max } else { *value };
    }
}

/// A range written `[min-max]`.
pub open spec fn spec_pretty(r: (u16, u16)) -> Seq<char> {
    seq!['['] + decimal(r.0 as nat) + seq!['-'] + decimal(r.1 as nat) + seq![']']
}

/// Writes a range as `[min-max]`.
pub fn pretty(r: (u16, u16)) -> (s: String)
    ensures
        s@ == spec_pretty(r),
{
    let mut s = String::new();
    push_str(&mut s, "[");
    push_decimal(&mut s, r.0 as u64);
    push_str(&mut s, "-");
    push_decimal(&mut s, r.1 as u64);
    push_str(&mut s, "]");
    proof {
        reveal_strlit("[");
        reveal_strlit("-");
        reveal_strlit("]");
        assert(s@ =~= spec_pretty(r));
    }
    s
}

/// The text after the last `[` of `s`, or all of `s` when it has none.
pub open spec fn after_last_open_bracket(s: Seq<char>) -> Seq<char>
    decreases s.len(),
{
    if s.len() == 0 {
        s
    } else if s.last() == '[' {
        Seq::empty()
    } else {
        after_last_open_bracket(s.drop_last()).push(s.last())
    }
}

/// `s` without the `]` at its end.
pub open spec fn trim_closing_brackets(s: Seq<char>) -> Seq<char>
    decreases s.len(),
{
    if s.len() > 0 && s.last() == ']' { trim_closing_brackets(s.drop_last()) } else { s }
}

/// Whether `c` is a decimal digit.
pub open spec fn is_digit(c: char) -> bool {
    '0' <= c && c <= '9'
}

/// The number the decimal digits `s` write.
pub open spec fn digits_value(s: Seq<char>) -> int
    decreases s.len(),
{
    if s.len() == 0 { 0 } else { digits_value(s.drop_last()) * 10 + (s.last() as int - '0' as int) }
}

/// The number `s` writes, as `str::parse::<usize>` reads it: an optional
/// `+`, then at least one decimal digit and nothing else, for a value that
/// fits in a `usize`.
pub open spec fn spec_parse_usize(s: Seq<char>) -> Option<usize> {
    let d = unsigned_digits(s);
    if d.len() > 0 && all_digits(d) && digits_value(d) <= usize::MAX {
        Some(digits_value(d) as usize)
    } else {
        None
    }
}

/// `s` without its leading `+`, if any.
pub open spec fn unsigned_digits(s: Seq<char>) -> Seq<char> {
    if s.len() > 0 && s[0] == '+' { s.skip(1) } else { s }
}

/// Every character of `d` is a decimal digit.
pub open spec fn all_digits(d: Seq<char>) -> bool {
    forall|i: int| 0 <= i < d.len() ==> #[trigger] is_digit(d[i])
}

/// The interval `[min-max]` at the end of a help text: the two first
/// numbers separated by `-` after the last `[`, without the closing `]`.
pub open spec fn spec_parse_interval(s: Seq<char>) -> Option<(usize, usize)> {
    let parts = split_on(trim_closing_brackets(after_last_open_bracket(s)), '-');
    if parts.len() < 2 {
        None
    } else {
        match (spec_parse_usize(parts[0]), spec_parse_usize(parts[1])) {
            (Some(a), Some(b)) => Some((a, b)),
            _ => None,
        }
    }
}

/// Reads the number the characters `v` write, as `str::parse::<usize>`.
fn parse_usize(v: &Vec<char>) -> (r: Option<usize>)
    ensures
        r == spec_parse_usize(v@),
{
    let start: usize = if v.len() > 0 && v[0] == '+' { 1 } else { 0 };
    let ghost d = unsigned_digits(v@);
    if start >= v.len() {
        proof {
            assert(d.len() == 0);
        }
        return None;
    }
    let mut value: usize = 0;
    let mut i: usize = start;
    proof {
        assert(v@.skip(0) =~= v@);
        assert(d.take(0) =~= Seq::<char>::empty());
    }
    while i < v.len()
        invariant
            start <= i <= v.len(),
            d == v@.skip(start as int),
            d == unsigned_digits(v@),
            forall|k: int| 0 <= k < i - start ==> #[trigger] is_digit(d[k]),
            value as int == digits_value(d.take(i - start)),
        decreases v.len() - i,
    {
        let c = v[i];
        proof {
            assert(d.take(i - start + 1).drop_last() =~= d.take(i - start));
            assert(d.take(i - start + 1).last() == c);
        }
        proof {
            assert(d[i - start] == v@[i as int]);
        }
        if !('0' <= c && c <= '9') {
            proof {
                assert(!is_digit(d[i - start]));
                assert(!all_digits(d));
            }
            return None;
        }
        let digit = (c as u32 - '0' as u32) as usize;
        match value.checked_mul(10) {
            None => {
                proof {
                    if all_digits(d) {
                        lemma_digits_value_prefix(d, i - start + 1, d.len() as int);
                        assert(d.take(d.len() as int) =~= d);
                    }
                }
                return None;
            },
            Some(m) => match m.checked_add(digit) {
                None => {
                    proof {
                        if all_digits(d) {
                            lemma_digits_value_prefix(d, i - start + 1, d.len() as int);
                            assert(d.take(d.len() as int) =~= d);
                        }
                    }
                    return None;
                },
                Some(n) => {
                    value = n;
                },
            },
        }
        i = i + 1;
    }
    proof {
        assert(d.take(d.len() as int) =~= d);
    }
    Some(value)
}

/// A longer run of digits writes a number at least as large.
proof fn lemma_digits_value_prefix(d: Seq<char>, i: int, j: int)
    requires
        0 <= i <= j <= d.len(),
        forall|k: int| 0 <= k < j ==> #[trigger] is_digit(d[k]),
    ensures
        digits_value(d.take(i)) <= digits_value(d.take(j)),
        0 <= digits_value(d.take(i)),
    decreases j,
{
    if j > 0 {
        assert(d.take(j).drop_last() =~= d.take(j - 1));
        assert(is_digit(d[j - 1]));
        if i < j {
            lemma_digits_value_prefix(d, i, j - 1);
        } else {
            lemma_digits_value_prefix(d, i - 1, j - 1);
        }
    }
}

/// Reads the interval `[min-max]` at the end of a help text, such as
/// `pretty` writes it.
pub fn parse_interval(interval_str: &str) -> (r: Option<(usize, usize)>)
    ensures
        r == spec_parse_interval(interval_str@),
{
    let v = chars_of(interval_str);
    // the text after the last '['
    let mut after: Vec<char> = Vec::new();
    let mut i: usize = 0;
    while i < v.len()
        invariant
            i <= v.len(),
            v@ == interval_str@,
            after@ == after_last_open_bracket(v@.take(i as int)),
        decreases v.len() - i,
    {
        proof {
            assert(v@.take(i + 1).drop_last() =~= v@.take(i as int));
        }
        if v[i] == '[' {
            after = Vec::new();
        } else {
            after.push(v[i]);
        }
        i = i + 1;
    }
    proof {
        assert(v@.take(v.len() as int) =~= v@);
    }
    // without the closing brackets
    let mut end: usize = after.len();
    proof {
        assert(after@.take(end as int) =~= after@);
    }
    while end > 0 && after[end - 1] == ']'
        invariant
            end <= after.len(),
            trim_closing_brackets(after@.take(end as int)) == trim_closing_brackets(after@),
        decreases end,
    {
        proof {
            assert(after@.take(end as int).drop_last() =~= after@.take(end - 1));
        }
        end = end - 1;
    }
    proof {
        assert(after@.take(end as int) =~= after@.take(end as int));
        if end > 0 {
            assert(after@.take(end as int).last() == after@[end - 1]);
        }
        assert(trim_closing_brackets(after@.take(end as int)) == after@.take(end as int));
        if end == after.len() {
            assert(after@.take(end as int) =~= after@);
        }
    }
    let ghost cleaned = after@.take(end as int);
    // the two first pieces between the '-'
    let mut first: Vec<char> = Vec::new();
    let mut second: Vec<char> = Vec::new();
    let mut dashes: usize = 0;
    let mut k: usize = 0;
    while k < end
        invariant
            k <= end <= after.len(),
            cleaned == after@.take(end as int),
            dashes <= 2,
            dashes == 0 ==> second@.len() == 0,
            dashes == 0 ==> split_on(cleaned.take(k as int), '-') == seq![first@],
            dashes == 1 ==> split_on(cleaned.take(k as int), '-') == seq![first@, second@],
            dashes == 2 ==> split_on(cleaned.take(k as int), '-').len() > 2
                && split_on(cleaned.take(k as int), '-')[0] == first@
                && split_on(cleaned.take(k as int), '-')[1] == second@,
        decreases end - k,
    {
        let c = after[k];
        proof {
            assert(cleaned.take(k + 1).drop_last() =~= cleaned.take(k as int));
            assert(cleaned.take(k + 1).last() == c);
            lemma_split_on_nonempty(cleaned.take(k as int), '-');
        }
        let ghost ls = split_on(cleaned.take(k as int), '-');
        if c == '-' {
            proof {
                assert(second@ =~= Seq::<char>::empty() || dashes != 0);
            }
            if dashes < 2 {
                dashes = dashes + 1;
            }
            proof {
                assert(split_on(cleaned.take(k + 1), '-') == ls.push(Seq::<char>::empty()));
                if dashes == 1 {
                    assert(split_on(cleaned.take(k + 1), '-') =~= seq![first@, second@]);
                }
            }
        } else if dashes == 0 {
            first.push(c);
            proof {
                assert(split_on(cleaned.take(k + 1), '-') =~= seq![first@]);
            }
        } else if dashes == 1 {
            second.push(c);
            proof {
                assert(split_on(cleaned.take(k + 1), '-') =~= seq![first@, second@]);
            }
        }
        k = k + 1;
    }
    proof {
        assert(cleaned.take(end as int) =~= cleaned);
    }
    if dashes == 0 {
        return None;
    }
    let min = parse_usize(&first);
    let max = parse_usize(&second);
    match (min, max) {
        (Some(a), Some(b)) => Some((a, b)),
        _ => None,
    }
}

proof fn lemma_digit_char_value(k: int)
    requires
        0 <= k < 10,
    ensures
        is_digit(digit_char(k)),
        digit_char(k) as int - '0' as int == k,
{
}

proof fn lemma_decimal_digits(n: nat)
    ensures
        decimal(n).len() > 0,
        all_digits(decimal(n)),
        digits_value(decimal(n)) == n,
    decreases n,
{
    lemma_digit_char_value((n % 10) as int);
    if n < 10 {
        let d = decimal(n);
        assert(d.drop_last() =~= Seq::<char>::empty());
        assert(digits_value(Seq::<char>::empty()) == 0);
        assert(n % 10 == n);
        assert(digits_value(d) == digits_value(d.drop_last()) * 10 + (d.last() as int - '0' as int));
    } else {
        lemma_decimal_digits(n / 10);
        let d = decimal(n / 10);
        let c = digit_char((n % 10) as int);
        assert(d.push(c).drop_last() =~= d);
        assert(d.push(c).last() == c);
        assert(digits_value(d.push(c)) == digits_value(d) * 10 + (c as int - '0' as int));
        assert(n == (n / 10) * 10 + n % 10);
        assert forall|i: int| 0 <= i < d.push(c).len() implies #[trigger] is_digit(d.push(c)[i]) by {
            if i < d.len() {
                assert(is_digit(d[i]));
            }
        }
    }
}

proof fn lemma_not_in_digits(d: Seq<char>, c: char)
    requires
        all_digits(d),
        !is_digit(c),
    ensures
        !d.contains(c),
{
    if d.contains(c) {
        let i = choose|i: int| 0 <= i < d.len() && d[i] == c;
        assert(is_digit(d[i]));
    }
}

proof fn lemma_after_last_open_bracket_append(p: Seq<char>, q: Seq<char>)
    requires
        !q.contains('['),
    ensures
        after_last_open_bracket(p + q) == after_last_open_bracket(p) + q,
    decreases q.len(),
{
    if q.len() == 0 {
        assert(p + q =~= p);
        assert(after_last_open_bracket(p) + q =~= after_last_open_bracket(p));
    } else {
        let q0 = q.drop_last();
        assert(!q0.contains('[')) by {
            if q0.contains('[') {
                let i = choose|i: int| 0 <= i < q0.len() && q0[i] == '[';
                assert(q[i] == '[');
            }
        }
        lemma_after_last_open_bracket_append(p, q0);
        assert((p + q).drop_last() =~= p + q0);
        assert((p + q).last() == q.last());
        assert(q.last() != '[') by {
            assert(q[q.len() - 1] == q.last());
        }
        assert(after_last_open_bracket(p) + q =~= (after_last_open_bracket(p) + q0).push(q.last()));
    }
}

proof fn lemma_split_on_append(p: Seq<char>, q: Seq<char>, sep: char)
    requires
        !q.contains(sep),
    ensures
        split_on(p + q, sep) == split_on(p, sep).update(
            split_on(p, sep).len() - 1,
            split_on(p, sep).last() + q,
        ),
        split_on(p + q, sep).len() == split_on(p, sep).len(),
    decreases q.len(),
{
    lemma_split_on_nonempty(p, sep);
    let ls = split_on(p, sep);
    if q.len() == 0 {
        assert(p + q =~= p);
        assert(ls.last() + q =~= ls.last());
        assert(ls.update(ls.len() - 1, ls.last() + q) =~= ls);
    } else {
        let q0 = q.drop_last();
        assert(!q0.contains(sep)) by {
            if q0.contains(sep) {
                let i = choose|i: int| 0 <= i < q0.len() && q0[i] == sep;
                assert(q[i] == sep);
            }
        }
        lemma_split_on_append(p, q0, sep);
        assert((p + q).drop_last() =~= p + q0);
        assert(q.last() != sep) by {
            assert(q[q.len() - 1] == q.last());
        }
        let ls0 = split_on(p + q0, sep);
        assert(ls0.last() == ls.last() + q0);
        assert(ls0.last().push(q.last()) =~= ls.last() + q);
        assert(split_on(p + q, sep) =~= ls.update(ls.len() - 1, ls.last() + q));
    }
}

/// The text after the `[` of an interval written by `pretty`.
proof fn lemma_pretty_after_bracket(r: (u16, u16))
    ensures
        after_last_open_bracket(spec_pretty(r))
            == decimal(r.0 as nat) + seq!['-'] + decimal(r.1 as nat) + seq![']'],
{
    let d0 = decimal(r.0 as nat);
    let d1 = decimal(r.1 as nat);
    lemma_decimal_digits(r.0 as nat);
    lemma_decimal_digits(r.1 as nat);
    lemma_not_in_digits(d0, '[');
    lemma_not_in_digits(d1, '[');
    let tail = d0 + seq!['-'] + d1 + seq![']'];
    assert(spec_pretty(r) =~= seq!['['] + tail);
    assert(!tail.contains('[')) by {
        if tail.contains('[') {
            let i = choose|i: int| 0 <= i < tail.len() && tail[i] == '[';
            if i < d0.len() {
                assert(d0[i] == '[');
            } else if i == d0.len() {
                assert(tail[i] == '-');
            } else if i < d0.len() + 1 + d1.len() {
                assert(d1[i - d0.len() - 1] == '[');
            } else {
                assert(tail[i] == ']');
            }
        }
    }
    lemma_after_last_open_bracket_append(seq!['['], tail);
    assert(seq!['['].drop_last() =~= Seq::<char>::empty());
    assert(after_last_open_bracket(seq!['[']) =~= Seq::<char>::empty());
    assert(Seq::<char>::empty() + tail =~= tail);
}

/// The two numbers of an interval written by `pretty`, once its brackets
/// are removed.
proof fn lemma_pretty_pieces(r: (u16, u16))
    ensures
        split_on(trim_closing_brackets(decimal(r.0 as nat) + seq!['-'] + decimal(r.1 as nat) + seq![']']), '-')
            == seq![decimal(r.0 as nat), decimal(r.1 as nat)],
{
    let d0 = decimal(r.0 as nat);
    let d1 = decimal(r.1 as nat);
    lemma_decimal_digits(r.0 as nat);
    lemma_decimal_digits(r.1 as nat);
    lemma_not_in_digits(d0, '-');
    lemma_not_in_digits(d1, '-');
    let inner = d0 + seq!['-'] + d1;
    let tail = inner + seq![']'];
    assert(tail.drop_last() =~= inner);
    assert(inner.last() == d1.last());
    assert(d1.last() != ']') by {
        assert(is_digit(d1[d1.len() - 1]));
    }
    assert(trim_closing_brackets(inner) == inner);
    assert(trim_closing_brackets(tail) == inner);
    lemma_split_on_append(Seq::<char>::empty(), d0, '-');
    assert(Seq::<char>::empty() + d0 =~= d0);
    assert(split_on(Seq::<char>::empty(), '-') =~= seq![Seq::<char>::empty()]);
    assert(split_on(d0, '-') =~= seq![d0]);
    assert((d0 + seq!['-']).drop_last() =~= d0);
    assert(split_on(d0 + seq!['-'], '-') =~= seq![d0, Seq::<char>::empty()]);
    lemma_split_on_append(d0 + seq!['-'], d1, '-');
    assert(Seq::<char>::empty() + d1 =~= d1);
    assert(split_on(inner, '-') =~= seq![d0, d1]);
}

/// A decimal writing reads back as its number.
proof fn lemma_parse_decimal(n: u16)
    ensures
        spec_parse_usize(decimal(n as nat)) == Some(n as usize),
{
    let d = decimal(n as nat);
    lemma_decimal_digits(n as nat);
    assert(is_digit(d[0]));
    assert(unsigned_digits(d) == d);
}

/// Reading back an interval written by `pretty` gives the interval: the
/// help texts of the ranged options can be parsed back into their ranges.
pub proof fn lemma_parse_pretty_round_trip(r: (u16, u16))
    ensures
        spec_parse_interval(spec_pretty(r)) == Some((r.0 as usize, r.1 as usize)),
{
    lemma_pretty_after_bracket(r);
    lemma_pretty_pieces(r);
    lemma_parse_decimal(r.0);
    lemma_parse_decimal(r.1);
}

/// The value of a flag that is false unless given.
pub fn default_false() -> (b: bool)
    ensures
        !b,
{
    false
}


/// All the options of a game.
#[derive(Debug)]
pub struct GameOptions {
    pub speed: Speed,
    /// Symbol of the head of the snake
    pub head_symbol: String,
    /// Symbol of the body of the snake
    pub body_symbol: String,
    pub snake_length: u16,
    pub life: u16,
    pub nb_of_fruits: u16,
    /// Set by the `--fruit-timer` flag, which overrides `--no-fruit-timer`
    pub no_fruit_timer: bool,
    pub fruit_timer: bool,
    pub fruit_duration_seconds: u16,
    pub snake_growth_factor: u16,
    /// Set by the `--negative-size-fruits` flag
    pub no_negative_size_fruits: bool,
    pub negative_size_fruits: bool,
    pub log_level: LogLevel,
    /// Set by the `--caps-fps` flag
    pub no_caps_fps: bool,
    pub caps_fps: bool,
    /// The preset the options were loaded from
    pub load: Option<u16>,
    /// Whether the options were drawn at random
    pub random: bool,
}

impl Default for GameOptions {
    /// Empty symbols, zero counts, flags off, normal speed, logging off.
    fn default() -> (o: GameOptions)
        ensures
            o.speed == Speed::Normal,
            o.head_symbol@ == Seq::<char>::empty(),
            o.body_symbol@ == Seq::<char>::empty(),
            o.snake_length == 0 && o.life == 0 && o.nb_of_fruits == 0,
            o.fruit_duration_seconds == 0 && o.snake_growth_factor == 0,
            !o.no_fruit_timer && !o.fruit_timer && !o.no_negative_size_fruits && !o.negative_size_fruits,
            !o.no_caps_fps && !o.caps_fps && !o.random,
            o.log_level == LogLevel::Off,
            o.load.is_none(),
    {
        GameOptions {
            speed: Speed::Normal,
            head_symbol: String::new(),
            body_symbol: String::new(),
            snake_length: 0,
            life: 0,
            nb_of_fruits: 0,
            no_fruit_timer: false,
            fruit_timer: false,
            fruit_duration_seconds: 0,
            snake_growth_factor: 0,
            no_negative_size_fruits: false,
            negative_size_fruits: false,
            log_level: LogLevel::Off,
            no_caps_fps: false,
            caps_fps: false,
            load: None,
            random: false,
        }
    }
}

/// The first `n` offered symbols, one after the other, the 20th starting a
/// new line.
pub open spec fn emojis_hint(n: int) -> Seq<char>
    decreases n,
{
    if n <= 0 {
        Seq::empty()
    } else {
        emojis_hint(n - 1) + (if n - 1 == MAX_EMOJI_BY_LINE_COUNT { seq!['\n'] } else { Seq::empty() })
            + spec_emoji(n - 1)
    }
}

/// Numeric options within their ranges.
pub open spec fn options_in_range(o: GameOptions) -> bool {
    &&& 2 <= o.snake_length <= 999
    &&& 1 <= o.life <= 99
    &&& 1 <= o.nb_of_fruits <= 999
    &&& 1 <= o.fruit_duration_seconds <= 60
    &&& o.load matches Some(p) ==> 1 <= p <= 7
}

impl GameOptions {
    /// Where the head of the snake starts.
    pub fn initial_position() -> (p: Position)
        ensures
            p == ini_position(),
    {
        Position { x: 50, y: 5 }
    }

    /// The offered symbols in one text, the 20th starting a second line.
    pub fn emojis_with_news_line() -> (s: String)
        ensures
            s@ == emojis_hint(DISPLAYABLE_EMOJI_COUNT as int),
    {
        let mut s = String::new();
        let mut i: usize = 0;
        while i < DISPLAYABLE_EMOJI_COUNT
            invariant
                i <= DISPLAYABLE_EMOJI_COUNT,
                s@ == emojis_hint(i as int),
            decreases DISPLAYABLE_EMOJI_COUNT - i,
        {
            if i == MAX_EMOJI_BY_LINE_COUNT {
                push_str(&mut s, "\n");
                proof {
                    reveal_strlit("\n");
                }
            }
            push_str(&mut s, displayable_emoji(i));
            proof {
                assert(s@ =~= emojis_hint(i + 1));
            }
            i = i + 1;
        }
        s
    }

    /// The offered symbols.
    pub fn emojis_iterator() -> (v: Vec<String>)
        ensures
            v.len() == DISPLAYABLE_EMOJI_COUNT,
            forall|i: int| 0 <= i < DISPLAYABLE_EMOJI_COUNT ==> #[trigger] v[i]@ == spec_emoji(i),
    {
        let mut v: Vec<String> = Vec::new();
        let mut i: usize = 0;
        while i < DISPLAYABLE_EMOJI_COUNT
            invariant
                i <= DISPLAYABLE_EMOJI_COUNT,
                v.len() == i,
                forall|j: int| 0 <= j < i ==> #[trigger] v[j]@ == spec_emoji(j),
            decreases DISPLAYABLE_EMOJI_COUNT - i,
        {
            v.push(displayable_emoji(i).to_string());
            i = i + 1;
        }
        v
    }

    /// Brings the numeric options into their ranges and replaces a head or
    /// body symbol that is not exactly one grapheme cluster by its default.
    pub fn validate(&mut self)
        ensures
            final(self).snake_length == clamp(old(self).snake_length, 2, 999),
            final(self).life == clamp(old(self).life, 1, 99),
            final(self).nb_of_fruits == clamp(old(self).nb_of_fruits, 1, 999),
            final(self).fruit_duration_seconds == clamp(old(self).fruit_duration_seconds, 1, 60),
            final(self).load == (match old(self).load {
                Some(p) => Some(clamp(p, 1, 7)),
                None => None,
            }),
            final(self).head_symbol@ == (if grapheme_count_of(old(self).head_symbol@) == 1 {
                old(self).head_symbol@
            } else {
                spec_emoji(DEFAULT_HEAD_EMOJI as int)
            }),
            final(self).body_symbol@ == (if grapheme_count_of(old(self).body_symbol@) == 1 {
                old(self).body_symbol@
            } else {
                spec_emoji(DEFAULT_BODY_EMOJI as int)
            }),
            final(self).speed == old(self).speed,
            final(self).no_fruit_timer == old(self).no_fruit_timer,
            final(self).fruit_timer == old(self).fruit_timer,
            final(self).snake_growth_factor == old(self).snake_growth_factor,
            final(self).no_negative_size_fruits == old(self).no_negative_size_fruits,
            final(self).negative_size_fruits == old(self).negative_size_fruits,
            final(self).log_level == old(self).log_level,
            final(self).no_caps_fps == old(self).no_caps_fps,
            final(self).caps_fps == old(self).caps_fps,
            final(self).random == old(self).random,
            options_in_range(*final(self)),
    {
        clamp_to(&mut self.snake_length, Some(parameter_range(RangedParameter::SnakeLength)));
        clamp_to(&mut self.life, Some(parameter_range(RangedParameter::Life)));
        clamp_to(&mut self.nb_of_fruits, Some(parameter_range(RangedParameter::NbOfFruits)));
        clamp_to(&mut self.fruit_duration_seconds, Some(parameter_range(RangedParameter::FruitDurationSeconds)));
        if let Some(preset) = self.load {
            let mut p = preset;
            clamp_to(&mut p, Some(parameter_range(RangedParameter::Presets)));
            self.load = Some(p);
        }
        if grapheme_count(self.head_symbol.as_str()) != 1 {
            self.head_symbol = displayable_emoji(DEFAULT_HEAD_EMOJI).to_string();
        }
        if grapheme_count(self.body_symbol.as_str()) != 1 {
            self.body_symbol = displayable_emoji(DEFAULT_BODY_EMOJI).to_string();
        }
    }
}

/// Options within their ranges keep all their numbers through validation, so
/// validating options a second time changes none of their numbers.
pub proof fn lemma_validate_idempotent(o: GameOptions)
    ensures
        options_in_range(o) ==> clamp(o.snake_length, 2, 999) == o.snake_length
            && clamp(o.life, 1, 99) == o.life && clamp(o.nb_of_fruits, 1, 999) == o.nb_of_fruits
            && clamp(o.fruit_duration_seconds, 1, 60) == o.fruit_duration_seconds
            && (o.load matches Some(p) ==> clamp(p, 1, 7) == p),
{
}

/// The comments written at the top of a preset file.
pub const PARAMS_HEADER: &'static str = "\n# Snake Game Configuration\n# ---------------------------\n# negative_size_fruits: allow fruits that can shrink the snake\n# fruit_timer:      enable fruit lifetime countdown and auto-replacement\n# fruit_duration_seconds: base lifetime of a fruit before multipliers are applied\n# caps_fps:         Enable frame limiting (default to true, false = no limit)\n# life:             starting lives\n# nb_of_fruits:     number of fruits available in the game at once\n# body_symbol:      character for the snake's body  \n# head_symbol:      character for the snake's head\n# snake_length:     initial length of the snake\n# speed:            speed of the snake (Slow, Normal, Fast, Crazy)\n# log_level:        logging level (off, error, warn, info, debug, trace)\n";

/// The name of the file of preset `preset`: `snake_preset_<preset>.toml`.
pub open spec fn spec_preset_file_name(preset: u16) -> Seq<char> {
    "snake_preset_"@ + decimal(preset as nat) + ".toml"@
}

/// The name of the file of preset `preset`.
pub fn preset_file_name(preset: u16) -> (s: String)
    ensures
        s@ == spec_preset_file_name(preset),
{
    let mut s = String::new();
    push_str(&mut s, "snake_preset_");
    push_decimal(&mut s, preset as u64);
    push_str(&mut s, ".toml");
    s
}

/// The content of a preset file: the header comments, a blank line, then
/// the options written in TOML.
pub fn preset_file_content(toml_text: &str) -> (s: String)
    ensures
        s@ == PARAMS_HEADER@ + "\n"@ + toml_text@,
{
    let mut s = String::new();
    push_str(&mut s, PARAMS_HEADER);
    push_str(&mut s, "\n");
    push_str(&mut s, toml_text);
    s
}

} // verus!
