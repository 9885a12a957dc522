//! Random draws: weighted choices among ranges of values, and game options
//! drawn at random with weights that favour balanced, playable games.
use vstd::prelude::*;
use std::ops::RangeInclusive;
use crate::options::{clamp, GameOptions, LogLevel, Speed, spec_emoji, displayable_emoji, DISPLAYABLE_EMOJI_COUNT,
    DEFAULT_HEAD_EMOJI, DEFAULT_BODY_EMOJI};
use crate::unicode::grapheme_count_of;

verus! {

/// Calls `rand::random_range` on `lo..=hi`: a value drawn uniformly by the
/// thread's generator. The range is not empty (the call panics on an empty
/// one) and the value lies in it; nothing else is claimed.
#[verifier::external_body]
pub(crate) fn random_in(lo: u32, hi: u32) -> (r: u32)
    requires
        lo <= hi,
    ensures
        lo <= r <= hi,
{
    rand::random_range(lo..=hi)
}

/// Calls `rand::random_ratio`: `true` with a chance of `numerator` in
/// `denominator`. The call panics when `denominator` is zero or smaller
/// than `numerator`; a chance of 0 always gives `false`, a chance of 1
/// always `true`.
#[verifier::external_body]
pub(crate) fn random_chance(numerator: u32, denominator: u32) -> (b: bool)
    requires
        0 < denominator,
        numerator <= denominator,
    ensures
        numerator == 0 ==> !b,
        numerator == denominator ==> b,
{
    rand::random_ratio(numerator, denominator)
}

/// `RangeInclusive::start`: the lower bound of a range that has not been
/// iterated to exhaustion.
pub assume_specification<Idx>[ RangeInclusive::<Idx>::start ](r: &RangeInclusive<Idx>) -> (s: &Idx)
    ensures
        !r@.exhausted ==> *s == r@.start,
;

/// `RangeInclusive::end`: the upper bound of a range that has not been
/// iterated to exhaustion.
pub assume_specification<Idx>[ RangeInclusive::<Idx>::end ](r: &RangeInclusive<Idx>) -> (e: &Idx)
    ensures
        !r@.exhausted ==> *e == r@.end,
;

/// The weights of the choices.
pub open spec fn weights(choices: Seq<(u32, RangeInclusive<u16>)>) -> Seq<u32> {
    choices.map_values(|c: (u32, RangeInclusive<u16>)| c.0)
}

/// The sum of the first `n` weights.
pub open spec fn weight_sum(w: Seq<u32>, n: int) -> int
    decreases n,
{
    if n <= 0 { 0 } else { weight_sum(w, n - 1) + w[n - 1] }
}

/// The sum of all the weights.
pub open spec fn total_weight(choices: Seq<(u32, RangeInclusive<u16>)>) -> int {
    weight_sum(weights(choices), choices.len() as int)
}

/// The first choice from `j` on whose cumulative weight reaches `roll`, or
/// the first choice if none does.
pub open spec fn choice_for_roll_from(w: Seq<u32>, roll: int, j: int) -> int
    decreases w.len() - j,
{
    if j >= w.len() {
        0
    } else if roll <= weight_sum(w, j + 1) {
        j
    } else {
        choice_for_roll_from(w, roll, j + 1)
    }
}

/// The choice that a roll between 1 and the total weight selects: each
/// choice is selected by as many rolls as its weight.
pub open spec fn choice_for_roll(choices: Seq<(u32, RangeInclusive<u16>)>, roll: int) -> int {
    choice_for_roll_from(weights(choices), roll, 0)
}

/// Every choice of positive weight has a range that is not empty and not
/// yet iterated (a choice of weight 0 is never selected).
pub open spec fn ranges_usable(choices: Seq<(u32, RangeInclusive<u16>)>) -> bool {
    forall|i: int| 0 <= i < choices.len() && (#[trigger] choices[i]).0 > 0 ==> !choices[i].1@.exhausted
        && choices[i].1@.start <= choices[i].1@.end
}

/// A weighted table of ranges: a weight, then the bounds of the range.
pub open spec fn table_of(choices: Seq<(u32, RangeInclusive<u16>)>) -> Seq<(u32, u16, u16)> {
    choices.map_values(|c: (u32, RangeInclusive<u16>)| (c.0, c.1@.start, c.1@.end))
}

/// The weights of a table.
pub open spec fn table_weights(t: Seq<(u32, u16, u16)>) -> Seq<u32> {
    t.map_values(|c: (u32, u16, u16)| c.0)
}

/// Whether `v` lies in the range of a choice of positive weight of the
/// table that some roll between 1 and the total weight selects.
pub open spec fn drawn_from_table(v: u16, t: Seq<(u32, u16, u16)>) -> bool {
    exists|roll: int| {
        let c = #[trigger] choice_for_roll_from(table_weights(t), roll, 0);
        &&& 1 <= roll <= weight_sum(table_weights(t), t.len() as int)
        &&& t[c].0 > 0
        &&& t[c].1 <= v <= t[c].2
    }
}

proof fn lemma_weight_sum_monotonic(w: Seq<u32>, i: int, j: int)
    requires
        0 <= i <= j,
    ensures
        weight_sum(w, i) <= weight_sum(w, j),
    decreases j - i,
{
    if i < j {
        lemma_weight_sum_monotonic(w, i, j - 1);
    }
}

proof fn lemma_choice_in_range(w: Seq<u32>, roll: int, j: int)
    requires
        0 <= j,
        w.len() > 0,
    ensures
        0 <= choice_for_roll_from(w, roll, j) < w.len(),
    decreases w.len() - j,
{
    if j < w.len() && roll > weight_sum(w, j + 1) {
        lemma_choice_in_range(w, roll, j + 1);
    }
}

/// A roll between 1 and the total weight selects a choice of positive
/// weight, the one whose cumulative weight first reaches it.
proof fn lemma_choice_positive(w: Seq<u32>, roll: int, j: int)
    requires
        0 <= j <= w.len(),
        weight_sum(w, j) < roll <= weight_sum(w, w.len() as int),
    ensures
        j <= choice_for_roll_from(w, roll, j) < w.len(),
        w[choice_for_roll_from(w, roll, j)] > 0,
    decreases w.len() - j,
{
    if j < w.len() && roll > weight_sum(w, j + 1) {
        lemma_choice_positive(w, roll, j + 1);
    }
}

/// The sum of all the weights.
fn sum_of_weights(choices: &[(u32, RangeInclusive<u16>)]) -> (total: u32)
    requires
        total_weight(choices@) <= u32::MAX,
    ensures
        total as int == total_weight(choices@),
{
    let ghost w = weights(choices@);
    let mut total: u32 = 0;
    let mut i: usize = 0;
    while i < choices.len()
        invariant
            i <= choices.len(),
            w == weights(choices@),
            w.len() == choices@.len(),
            total as int == weight_sum(w, i as int),
            weight_sum(w, choices@.len() as int) <= u32::MAX,
        decreases choices.len() - i,
    {
        proof {
            lemma_weight_sum_monotonic(w, i + 1, choices@.len() as int);
        }
        total = total + choices[i].0;
        i = i + 1;
    }
    total
}

/// The choice that `roll` selects: the first whose cumulative weight
/// reaches it (the first choice when none does).
pub fn weighted_choice(choices: &[(u32, RangeInclusive<u16>)], roll: u32) -> (i: usize)
    requires
        choices.len() > 0,
        total_weight(choices@) <= u32::MAX,
    ensures
        i as int == choice_for_roll(choices@, roll as int),
        i < choices.len(),
{
    let ghost w = weights(choices@);
    proof {
        lemma_choice_in_range(w, roll as int, 0);
    }
    let mut cumulative: u32 = 0;
    let mut j: usize = 0;
    while j < choices.len()
        invariant
            j <= choices.len(),
            w == weights(choices@),
            w.len() == choices@.len(),
            cumulative as int == weight_sum(w, j as int),
            weight_sum(w, choices@.len() as int) <= u32::MAX,
            choice_for_roll_from(w, roll as int, j as int) == choice_for_roll(choices@, roll as int),
        decreases choices.len() - j,
    {
        proof {
            lemma_weight_sum_monotonic(w, j + 1, choices@.len() as int);
        }
        cumulative = cumulative + choices[j].0;
        if roll <= cumulative {
            return j;
        }
        j = j + 1;
    }
    0
}

/// A value drawn from one of the weighted ranges: a roll between 1 and the
/// total weight selects the range (one of positive weight), then the value
/// is drawn in it.
pub fn weighted_range(choices: &[(u32, RangeInclusive<u16>)]) -> (v: u16)
    requires
        1 <= total_weight(choices@) <= u32::MAX,
        ranges_usable(choices@),
    ensures
        exists|roll: int|
            1 <= roll <= total_weight(choices@) && choices@[#[trigger] choice_for_roll(choices@, roll)].0 > 0
                && choices@[choice_for_roll(choices@, roll)].1@.start <= v
                <= choices@[choice_for_roll(choices@, roll)].1@.end,
{
    let total = sum_of_weights(choices);
    proof {
        if choices.len() == 0 {
            assert(total_weight(choices@) == 0);
        }
    }
    let roll = random_in(1, total);
    let i = weighted_choice(choices, roll);
    let range = &choices[i].1;
    proof {
        lemma_choice_positive(weights(choices@), roll as int, 0);
        assert(choices@[i as int].0 == weights(choices@)[i as int]);
        assert(!choices@[i as int].1@.exhausted);
    }
    let lo = *range.start();
    let hi = *range.end();
    let v = random_in(lo as u32, hi as u32);
    proof {
        assert(choices@[choice_for_roll(choices@, roll as int)].1@.start <= v as u16);
    }
    v as u16
}

/// The speed that a roll between 1 and 100 gives: slow for 20 of them,
/// normal for 40, fast for 30 and crazy for 10.
pub open spec fn spec_speed_for_roll(roll: int) -> Speed {
    if roll <= 20 {
        Speed::Slow
    } else if roll <= 60 {
        Speed::Normal
    } else if roll <= 90 {
        Speed::Fast
    } else {
        Speed::Crazy
    }
}

/// The speed that a roll between 1 and 100 gives.
pub fn speed_for_roll(roll: u32) -> (s: Speed)
    ensures
        s == spec_speed_for_roll(roll as int),
        1 <= roll <= 20 ==> s == Speed::Slow,
        21 <= roll <= 60 ==> s == Speed::Normal,
        61 <= roll <= 90 ==> s == Speed::Fast,
        91 <= roll <= 100 ==> s == Speed::Crazy,
{
    if roll <= 20 {
        Speed::Slow
    } else if roll <= 60 {
        Speed::Normal
    } else if roll <= 90 {
        Speed::Fast
    } else {
        Speed::Crazy
    }
}

/// The symbol index that a roll among the other symbols than `head`
/// gives: the symbols are counted skipping `head`.
pub open spec fn spec_other_index(head: int, roll: int) -> int {
    if roll < head { roll } else { roll + 1 }
}

/// The index of the symbol that `roll` (from 0 to one less than the number
/// of the other symbols) gives among the symbols other than `head`.
pub fn other_index(head: usize, roll: usize) -> (i: usize)
    requires
        head < DISPLAYABLE_EMOJI_COUNT,
        roll < DISPLAYABLE_EMOJI_COUNT - 1,
    ensures
        i as int == spec_other_index(head as int, roll as int),
        i < DISPLAYABLE_EMOJI_COUNT,
        i != head,
{
    if roll < head { roll } else { roll + 1 }
}

/// A symbol as validation keeps it: kept when it is one grapheme cluster,
/// otherwise replaced by `default`.
pub open spec fn validated_symbol(s: Seq<char>, default: Seq<char>) -> Seq<char> {
    if grapheme_count_of(s) == 1 { s } else { default }
}

/// The weighted table of snake lengths: mostly short snakes.
pub open spec fn snake_length_table() -> Seq<(u32, u16, u16)> {
    seq![(45u32, 3u16, 12u16), (30, 13, 30), (15, 31, 75), (7, 76, 150), (3, 151, 300)]
}

/// The weighted table of lives: a few lives mostly, one life sometimes.
pub open spec fn life_table() -> Seq<(u32, u16, u16)> {
    seq![(40u32, 2u16, 5u16), (30, 6, 12), (15, 1, 1), (10, 13, 25), (5, 26, 50)]
}

/// The weighted table of numbers of fruits.
pub open spec fn fruits_table() -> Seq<(u32, u16, u16)> {
    seq![(40u32, 3u16, 8u16), (30, 9, 20), (15, 1, 2), (10, 21, 50), (5, 51, 100)]
}

/// The weighted table of fruit lifetimes, in seconds.
pub open spec fn fruit_duration_table() -> Seq<(u32, u16, u16)> {
    seq![(50u32, 15u16, 30u16), (25, 5, 14), (20, 31, 50), (5, 51, 60)]
}

/// The weighted table of snake growth factors.
pub open spec fn growth_table() -> Seq<(u32, u16, u16)> {
    seq![(60u32, 1u16, 1u16), (30, 2, 3), (10, 4, 6)]
}

/// What holds of every set of options drawn at random: two different
/// offered symbols for the head and the body (as validation keeps them),
/// the speed of a roll between 1 and 100, each number drawn from its own
/// weighted table (the snake length from the
/// table of lengths, the lives from that of lives, and so on), the fruit timer and the negative
/// fruits each set or unset with the opposite flag matching, the frame rate
/// capped, logging off, no preset, and marked as drawn at random.
pub open spec fn random_options_outcome(o: GameOptions) -> bool {
    &&& exists|h: int, b: int|
        0 <= h < DISPLAYABLE_EMOJI_COUNT && 0 <= b < DISPLAYABLE_EMOJI_COUNT && h != b
            && o.head_symbol@ == validated_symbol(#[trigger] spec_emoji(h), spec_emoji(DEFAULT_HEAD_EMOJI as int))
            && o.body_symbol@ == validated_symbol(#[trigger] spec_emoji(b), spec_emoji(DEFAULT_BODY_EMOJI as int))
    &&& exists|roll: int| 1 <= roll <= 100 && o.speed == #[trigger] spec_speed_for_roll(roll)
    &&& drawn_from_table(o.snake_length, snake_length_table())
    &&& drawn_from_table(o.life, life_table())
    &&& drawn_from_table(o.nb_of_fruits, fruits_table())
    &&& drawn_from_table(o.fruit_duration_seconds, fruit_duration_table())
    &&& drawn_from_table(o.snake_growth_factor, growth_table())
    &&& 3 <= o.snake_length <= 300
    &&& 1 <= o.life <= 50
    &&& 1 <= o.nb_of_fruits <= 100
    &&& 5 <= o.fruit_duration_seconds <= 60
    &&& 1 <= o.snake_growth_factor <= 6
    &&& o.no_fruit_timer == !o.fruit_timer
    &&& o.no_negative_size_fruits == !o.negative_size_fruits
    &&& o.caps_fps && !o.no_caps_fps
    &&& o.log_level == LogLevel::Off
    &&& o.load.is_none()
    &&& o.random
}

/// Draws a value from weighted ranges that all lie within `lo..=hi`: a
/// value of the range of positive weight that some roll selects, hence
/// within `lo..=hi`.
fn draw_weighted(choices: &[(u32, RangeInclusive<u16>)], lo: u16, hi: u16) -> (v: u16)
    requires
        1 <= total_weight(choices@) <= u32::MAX,
        ranges_usable(choices@),
        forall|i: int| 0 <= i < choices@.len() && (#[trigger] choices@[i]).0 > 0 ==> lo <= choices@[i].1@.start
            && choices@[i].1@.end <= hi,
    ensures
        drawn_from_table(v, table_of(choices@)),
        lo <= v <= hi,
{
    let v = weighted_range(choices);
    proof {
        let roll = choose|roll: int|
            1 <= roll <= total_weight(choices@) && choices@[#[trigger] choice_for_roll(choices@, roll)].0 > 0
                && choices@[choice_for_roll(choices@, roll)].1@.start <= v
                <= choices@[choice_for_roll(choices@, roll)].1@.end;
        lemma_choice_in_range(weights(choices@), roll, 0);
        let i = choice_for_roll(choices@, roll);
        assert(lo <= choices@[i].1@.start);
        let t = table_of(choices@);
        assert(table_weights(t) =~= weights(choices@));
        assert(t[i] == (choices@[i].0, choices@[i].1@.start, choices@[i].1@.end));
        assert(choice_for_roll_from(table_weights(t), roll, 0) == i);
    }
    v
}

/// The options that the draws give, validated: the speed of the speed
/// roll, the offered symbol `head_idx` for the head and the other symbol
/// that `body_roll` picks for the body, the drawn numbers, the fruit timer
/// and the negative fruits as drawn (each with the opposite flag matching),
/// the frame rate capped, logging off, no preset, marked as drawn at random.
pub fn options_from_draws(
    speed_roll: u32,
    head_idx: usize,
    body_roll: usize,
    snake_length: u16,
    life: u16,
    nb_of_fruits: u16,
    fruit_duration_seconds: u16,
    snake_growth_factor: u16,
    fruit_timer: bool,
    negative_size_fruits: bool,
) -> (o: GameOptions)
    requires
        head_idx < DISPLAYABLE_EMOJI_COUNT,
        body_roll < DISPLAYABLE_EMOJI_COUNT - 1,
    ensures
        o.speed == spec_speed_for_roll(speed_roll as int),
        o.head_symbol@ == validated_symbol(spec_emoji(head_idx as int), spec_emoji(DEFAULT_HEAD_EMOJI as int)),
        o.body_symbol@ == validated_symbol(
            spec_emoji(spec_other_index(head_idx as int, body_roll as int)),
            spec_emoji(DEFAULT_BODY_EMOJI as int),
        ),
        o.snake_length == clamp(snake_length, 2, 999),
        o.life == clamp(life, 1, 99),
        o.nb_of_fruits == clamp(nb_of_fruits, 1, 999),
        o.fruit_duration_seconds == clamp(fruit_duration_seconds, 1, 60),
        o.snake_growth_factor == snake_growth_factor,
        o.fruit_timer == fruit_timer && o.no_fruit_timer == !fruit_timer,
        o.negative_size_fruits == negative_size_fruits && o.no_negative_size_fruits == !negative_size_fruits,
        o.caps_fps && !o.no_caps_fps,
        o.log_level == LogLevel::Off,
        o.load.is_none(),
        o.random,
{
    let speed = speed_for_roll(speed_roll);
    let body_idx = other_index(head_idx, body_roll);
    let head_symbol = displayable_emoji(head_idx).to_string();
    let body_symbol = displayable_emoji(body_idx).to_string();
    let caps_fps = true;
    let mut options = GameOptions {
        speed,
        head_symbol,
        body_symbol,
        snake_length,
        life,
        nb_of_fruits,
        no_fruit_timer: !fruit_timer,
        fruit_timer,
        fruit_duration_seconds,
        snake_growth_factor,
        no_negative_size_fruits: !negative_size_fruits,
        negative_size_fruits,
        log_level: LogLevel::Off,
        no_caps_fps: !caps_fps,
        caps_fps,
        load: None,
        random: true,
    };
    options.validate();
    options
}

/// Game options drawn at random, with weights that favour balanced games
/// over extreme ones, then validated.
pub fn generate_random_game_options() -> (o: GameOptions)
    ensures
        random_options_outcome(o),
{
    let speed_roll = random_in(1, 100);
    let head_idx = random_in(0, (DISPLAYABLE_EMOJI_COUNT - 1) as u32) as usize;
    let body_roll = random_in(0, (DISPLAYABLE_EMOJI_COUNT - 2) as u32) as usize;

    let snake_length_choices = [
        (45u32, RangeInclusive::new(3u16, 12u16)),
        (30u32, RangeInclusive::new(13u16, 30u16)),
        (15u32, RangeInclusive::new(31u16, 75u16)),
        (7u32, RangeInclusive::new(76u16, 150u16)),
        (3u32, RangeInclusive::new(151u16, 300u16)),
    ];
    proof {
        reveal_with_fuel(weight_sum, 6);
    }
    let snake_length = draw_weighted(&snake_length_choices, 3, 300);
    proof {
        assert(table_of(snake_length_choices@) =~= snake_length_table());
    }

    let life_choices = [
        (40u32, RangeInclusive::new(2u16, 5u16)),
        (30u32, RangeInclusive::new(6u16, 12u16)),
        (15u32, RangeInclusive::new(1u16, 1u16)),
        (10u32, RangeInclusive::new(13u16, 25u16)),
        (5u32, RangeInclusive::new(26u16, 50u16)),
    ];
    let life = draw_weighted(&life_choices, 1, 50);
    proof {
        assert(table_of(life_choices@) =~= life_table());
    }

    let fruits_choices = [
        (40u32, RangeInclusive::new(3u16, 8u16)),
        (30u32, RangeInclusive::new(9u16, 20u16)),
        (15u32, RangeInclusive::new(1u16, 2u16)),
        (10u32, RangeInclusive::new(21u16, 50u16)),
        (5u32, RangeInclusive::new(51u16, 100u16)),
    ];
    let nb_of_fruits = draw_weighted(&fruits_choices, 1, 100);
    proof {
        assert(table_of(fruits_choices@) =~= fruits_table());
    }

    let duration_choices = [
        (50u32, RangeInclusive::new(15u16, 30u16)),
        (25u32, RangeInclusive::new(5u16, 14u16)),
        (20u32, RangeInclusive::new(31u16, 50u16)),
        (5u32, RangeInclusive::new(51u16, 60u16)),
    ];
    let fruit_duration_seconds = draw_weighted(&duration_choices, 5, 60);
    proof {
        assert(table_of(duration_choices@) =~= fruit_duration_table());
    }

    let growth_choices = [
        (60u32, RangeInclusive::new(1u16, 1u16)),
        (30u32, RangeInclusive::new(2u16, 3u16)),
        (10u32, RangeInclusive::new(4u16, 6u16)),
    ];
    let snake_growth_factor = draw_weighted(&growth_choices, 1, 6);
    proof {
        assert(table_of(growth_choices@) =~= growth_table());
    }

    let fruit_timer = random_chance(4, 5);
    let negative_size_fruits = random_chance(1, 2);
    let options = options_from_draws(
        speed_roll,
        head_idx,
        body_roll,
        snake_length,
        life,
        nb_of_fruits,
        fruit_duration_seconds,
        snake_growth_factor,
        fruit_timer,
        negative_size_fruits,
    );
    proof {
        let b = spec_other_index(head_idx as int, body_roll as int);
        assert(0 <= b < DISPLAYABLE_EMOJI_COUNT && b != head_idx);
        assert(options.head_symbol@ == validated_symbol(spec_emoji(head_idx as int), spec_emoji(DEFAULT_HEAD_EMOJI as int)));
        assert(options.body_symbol@ == validated_symbol(spec_emoji(b), spec_emoji(DEFAULT_BODY_EMOJI as int)));
    }
    options
}

} // verus!
