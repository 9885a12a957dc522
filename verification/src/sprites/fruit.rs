//! Fruits: their kinds (score, spawn chance, effect on the snake size), and
//! the lifetime timer of each fruit, which can be paused.
//!
//! Time points and durations are nanoseconds on the game clock.
use vstd::prelude::*;
use crate::geometry::Position;

verus! {

/// Number of nanoseconds in one second.
pub const NANOS_PER_SEC: u64 = 1_000_000_000;

/// Number of kinds of fruits.
pub const FRUIT_KINDS_COUNT: usize = 11;

/// A kind of fruit: its symbol, its score, its spawn chance in percent and
/// its effect on the size of the snake.
#[derive(Debug, Clone, Copy)]
pub struct FruitKind {
    pub image: &'static str,
    pub score: i32,
    pub probability: u16,
    pub size_effect: i16,
}

/// Score of the fruit kind `i`.
pub open spec fn kind_score(i: int) -> i32 {
    if i == 0 { -50i32 } else if i == 1 { -10i32 } else if i == 2 { 5i32 } else if i == 3 { 10i32 }
    else if i == 4 { 20i32 } else if i == 5 { 30i32 } else if i == 6 { 40i32 } else if i == 7 { 50i32 }
    else if i == 8 { 75i32 } else if i == 9 { 100i32 } else { 200i32 }
}

/// Spawn chance in percent of the fruit kind `i`.
pub open spec fn kind_probability(i: int) -> u16 {
    if i == 0 { 5 } else if i == 1 { 5 } else if i == 2 { 4 } else if i == 3 { 10 }
    else if i == 4 { 10 } else if i == 5 { 15 } else if i == 6 { 15 } else if i == 7 { 15 }
    else if i == 8 { 15 } else if i == 9 { 5 } else { 1 }
}

/// Effect on the snake size of the fruit kind `i`.
pub open spec fn kind_size_effect(i: int) -> i16 {
    if i == 0 { -150i16 } else if i == 1 { -40i16 } else if i == 2 { 0i16 } else if i == 3 { 5i16 }
    else if i == 4 { 8i16 } else if i == 5 { 10i16 } else if i == 6 { 15i16 } else if i == 7 { 15i16 }
    else if i == 8 { 15i16 } else if i == 9 { 20i16 } else { 25i16 }
}

/// Symbol of the fruit kind `i`.
pub open spec fn kind_image(i: int) -> Seq<char> {
    if i == 0 { "🦞"@ } else if i == 1 { "🥥"@ } else if i == 2 { "🍇"@ } else if i == 3 { "🍐"@ }
    else if i == 4 { "🥝"@ } else if i == 5 { "🍋"@ } else if i == 6 { "🍌"@ } else if i == 7 { "🍉"@ }
    else if i == 8 { "🍎"@ } else if i == 9 { "🍓"@ } else { "🍒"@ }
}

/// The kind of fruit `i`, in the order of the weighted lottery.
pub fn fruit_kind(i: usize) -> (k: FruitKind)
    requires
        i < FRUIT_KINDS_COUNT,
    ensures
        k.image@ == kind_image(i as int),
        k.score == kind_score(i as int),
        k.probability == kind_probability(i as int),
        k.size_effect == kind_size_effect(i as int),
        k.size_effect > 0 ==> k.score > 0,
        k.size_effect < 0 ==> k.score < 0,
{
    if i == 0 {
        FruitKind { image: "🦞", score: -50, probability: 5, size_effect: -150 }
    } else if i == 1 {
        FruitKind { image: "🥥", score: -10, probability: 5, size_effect: -40 }
    } else if i == 2 {
        FruitKind { image: "🍇", score: 5, probability: 4, size_effect: 0 }
    } else if i == 3 {
        FruitKind { image: "🍐", score: 10, probability: 10, size_effect: 5 }
    } else if i == 4 {
        FruitKind { image: "🥝", score: 20, probability: 10, size_effect: 8 }
    } else if i == 5 {
        FruitKind { image: "🍋", score: 30, probability: 15, size_effect: 10 }
    } else if i == 6 {
        FruitKind { image: "🍌", score: 40, probability: 15, size_effect: 15 }
    } else if i == 7 {
        FruitKind { image: "🍉", score: 50, probability: 15, size_effect: 15 }
    } else if i == 8 {
        FruitKind { image: "🍎", score: 75, probability: 15, size_effect: 15 }
    } else if i == 9 {
        FruitKind { image: "🍓", score: 100, probability: 5, size_effect: 20 }
    } else {
        FruitKind { image: "🍒", score: 200, probability: 1, size_effect: 25 }
    }
}

/// Sum of the spawn chances of the kinds 0 to `i`.
pub open spec fn cumulative_probability(i: int) -> int
    decreases i + 1,
{
    if i < 0 { 0 } else { cumulative_probability(i - 1) + kind_probability(i) }
}

/// The kind drawn by a roll: the first kind from `j` on whose cumulative
/// chance reaches the roll, or kind 0 if none does.
pub open spec fn kind_for_roll_from(roll: int, j: int) -> int
    decreases 11 - j,
{
    if j >= 11 {
        0
    } else if roll <= cumulative_probability(j) {
        j
    } else {
        kind_for_roll_from(roll, j + 1)
    }
}

/// The kind of fruit drawn by a roll of the weighted lottery.
pub open spec fn kind_for_roll(roll: int) -> int {
    kind_for_roll_from(roll, 0)
}

proof fn lemma_kind_for_roll_from_range(roll: int, j: int)
    requires
        0 <= j,
    ensures
        0 <= kind_for_roll_from(roll, j) < FRUIT_KINDS_COUNT,
    decreases FRUIT_KINDS_COUNT - j,
{
    if j < FRUIT_KINDS_COUNT && roll > cumulative_probability(j) {
        lemma_kind_for_roll_from_range(roll, j + 1);
    }
}

/// Picks the kind of fruit for a roll between 1 and 100 of the weighted
/// lottery: the first kind whose cumulative spawn chance reaches the roll.
pub fn fruit_kind_for_roll(roll: u16) -> (i: usize)
    ensures
        i as int == kind_for_roll(roll as int),
        i < FRUIT_KINDS_COUNT,
{
    proof {
        lemma_kind_for_roll_from_range(roll as int, 0);
    }
    let mut cumulative: u16 = 0;
    let mut j: usize = 0;
    while j < FRUIT_KINDS_COUNT
        invariant
            j <= FRUIT_KINDS_COUNT,
            cumulative as int == cumulative_probability(j - 1),
            kind_for_roll_from(roll as int, j as int) == kind_for_roll(roll as int),
        decreases FRUIT_KINDS_COUNT - j,
    {
        proof {
            reveal_with_fuel(cumulative_probability, 12);
        }
        let kind = fruit_kind(j);
        cumulative = cumulative + kind.probability;
        if roll <= cumulative {
            return j;
        }
        j = j + 1;
    }
    0
}

/// The table of fruit kinds, in the order of the lottery: symbol, score,
/// spawn chance in percent and effect on the snake size of each kind.
pub proof fn lemma_fruit_kinds_table()
    ensures
        kind_score(0) == -50 && kind_probability(0) == 5 && kind_size_effect(0) == -150 && kind_image(0) == "🦞"@,
        kind_score(1) == -10 && kind_probability(1) == 5 && kind_size_effect(1) == -40 && kind_image(1) == "🥥"@,
        kind_score(2) == 5 && kind_probability(2) == 4 && kind_size_effect(2) == 0 && kind_image(2) == "🍇"@,
        kind_score(3) == 10 && kind_probability(3) == 10 && kind_size_effect(3) == 5 && kind_image(3) == "🍐"@,
        kind_score(4) == 20 && kind_probability(4) == 10 && kind_size_effect(4) == 8 && kind_image(4) == "🥝"@,
        kind_score(5) == 30 && kind_probability(5) == 15 && kind_size_effect(5) == 10 && kind_image(5) == "🍋"@,
        kind_score(6) == 40 && kind_probability(6) == 15 && kind_size_effect(6) == 15 && kind_image(6) == "🍌"@,
        kind_score(7) == 50 && kind_probability(7) == 15 && kind_size_effect(7) == 15 && kind_image(7) == "🍉"@,
        kind_score(8) == 75 && kind_probability(8) == 15 && kind_size_effect(8) == 15 && kind_image(8) == "🍎"@,
        kind_score(9) == 100 && kind_probability(9) == 5 && kind_size_effect(9) == 20 && kind_image(9) == "🍓"@,
        kind_score(10) == 200 && kind_probability(10) == 1 && kind_size_effect(10) == 25 && kind_image(10) == "🍒"@,
{
}

/// The kinds later in the lottery are worth more: their scores strictly
/// increase and their effects on the snake size never decrease along the
/// table; a kind that makes the snake grow scores points and one that
/// shrinks it costs points.
pub proof fn lemma_fruit_kinds_ordered(i: int, j: int)
    requires
        0 <= i < j < FRUIT_KINDS_COUNT,
    ensures
        kind_score(i) < kind_score(j),
        kind_size_effect(i) <= kind_size_effect(j),
        kind_size_effect(i) > 0 ==> kind_score(i) > 0,
        kind_size_effect(i) < 0 ==> kind_score(i) < 0,
        kind_size_effect(j) > 0 ==> kind_score(j) > 0,
        kind_size_effect(j) < 0 ==> kind_score(j) < 0,
{
}

/// The spawn chances add up to 100 percent, so every roll from 1 to 100 draws
/// a kind whose cumulative chance reaches it and whose previous one does not:
/// each kind is drawn by exactly as many rolls as its chance.
pub proof fn lemma_lottery_is_complete(roll: int)
    requires
        1 <= roll <= 100,
    ensures
        cumulative_probability(FRUIT_KINDS_COUNT - 1) == 100,
        roll <= cumulative_probability(kind_for_roll(roll)),
        roll > cumulative_probability(kind_for_roll(roll) - 1),
{
    reveal_with_fuel(cumulative_probability, 12);
    reveal_with_fuel(kind_for_roll_from, 12);
}


/// `a - b`, or zero when `b` is larger (the saturating subtraction of
/// durations and time points).
pub open spec fn sat_sub(a: int, b: int) -> int {
    if a > b { a - b } else { 0 }
}

/// `a + b`, or `u64::MAX` when larger (the saturating addition of durations).
pub open spec fn sat_add(a: int, b: int) -> int {
    if a + b > u64::MAX { u64::MAX as int } else { a + b }
}

/// The lifetime of a fruit whose effect on the snake size is `size_effect`,
/// for a base lifetime `base` (in nanoseconds): fruits that make the snake
/// grow live longer (up to twice the base, 2 % more per size unit), fruits
/// that shrink it live shorter (down to half the base, one 300th less per
/// size unit). Rounded down to the nanosecond.
pub open spec fn lifetime_from_base(base: int, size_effect: int) -> int {
    if size_effect >= 0 {
        base * (if 50 + size_effect > 100 { 100 } else { 50 + size_effect }) / 50
    } else {
        base * (if 300 + size_effect < 150 { 150 } else { 300 + size_effect }) / 300
    }
}

/// The abstract state of a fruit.
pub struct FruitView {
    pub score: i32,
    pub grow_snake: i16,
    pub position: Position,
    pub image: Seq<char>,
    pub spawned_at: u64,
    pub lifetime: u64,
    pub timer_enabled: bool,
    pub timer_paused_since: Option<u64>,
    pub accumulated_paused: u64,
}

/// The time the timer of `f` has been running at `now`: the time since it
/// spawned, minus the time spent paused (including the current pause).
pub open spec fn elapsed_with_breaks(f: FruitView, now: u64) -> int {
    let paused_now = match f.timer_paused_since {
        Some(p) => sat_sub(now as int, p as int),
        None => 0,
    };
    sat_sub(sat_sub(now as int, f.spawned_at as int), sat_add(f.accumulated_paused as int, paused_now))
}

/// Whether `f` has expired at `now`: its timer is enabled, running, and its
/// lifetime is over.
pub open spec fn fruit_expired(f: FruitView, now: u64) -> bool {
    f.timer_enabled && f.timer_paused_since.is_none() && elapsed_with_breaks(f, now) >= f.lifetime
}

/// The time left before `f` expires, if its timer is enabled and its
/// lifetime is not yet exceeded.
pub open spec fn fruit_remaining(f: FruitView, now: u64) -> Option<u64> {
    if f.timer_enabled && elapsed_with_breaks(f, now) <= f.lifetime {
        Some((f.lifetime - elapsed_with_breaks(f, now)) as u64)
    } else {
        None
    }
}

/// `f` after pausing (`paused`) or resuming its timer at `now`: pausing a
/// running timer records `now`; resuming a paused timer adds the pause to
/// the time spent paused; anything else changes nothing.
pub open spec fn fruit_paused(f: FruitView, paused: bool, now: u64) -> FruitView {
    match (paused, f.timer_paused_since) {
        (true, None) => FruitView { timer_paused_since: Some(now), ..f },
        (false, Some(p)) => FruitView {
            accumulated_paused: sat_add(f.accumulated_paused as int, sat_sub(now as int, p as int)) as u64,
            timer_paused_since: None,
            ..f
        },
        _ => f,
    }
}

/// A fruit on the map, with a score, an effect on the snake size and a
/// lifetime timer that can be paused.
#[derive(Debug, Clone)]
pub struct Fruit {
    score: i32,
    grow_snake: i16,
    position: Position,
    image: String,
    spawned_at: u64,
    lifetime: u64,
    timer_enabled: bool,
    timer_paused_since: Option<u64>,
    accumulated_paused: u64,
}

impl View for Fruit {
    type V = FruitView;

    closed spec fn view(&self) -> FruitView {
        FruitView {
            score: self.score,
            grow_snake: self.grow_snake,
            position: self.position,
            image: self.image@,
            spawned_at: self.spawned_at,
            lifetime: self.lifetime,
            timer_enabled: self.timer_enabled,
            timer_paused_since: self.timer_paused_since,
            accumulated_paused: self.accumulated_paused,
        }
    }
}

impl Fruit {
    /// The lifetime of a fruit from the base lifetime (nanoseconds) and the
    /// fruit's effect on the snake size.
    pub fn duration_from_base(base: u64, size_effect: i16) -> (d: u64)
        requires
            base <= u64::MAX / 2,
        ensures
            d as int == lifetime_from_base(base as int, size_effect as int),
    {
        let b: u128 = base as u128;
        if size_effect >= 0 {
            let m: u128 = if 50 + (size_effect as i32) > 100 { 100 } else { (50 + (size_effect as i32)) as u128 };
            assert(b * m <= (u64::MAX / 2) as u128 * 100) by (nonlinear_arith)
                requires b <= (u64::MAX / 2) as u128, m <= 100;
            assert(b * m / 50 <= b * 2) by (nonlinear_arith)
                requires m <= 100;
            (b * m / 50) as u64
        } else {
            let m: u128 = if 300 + (size_effect as i32) < 150 { 150 } else { (300 + (size_effect as i32)) as u128 };
            assert(b * m <= (u64::MAX / 2) as u128 * 300) by (nonlinear_arith)
                requires b <= (u64::MAX / 2) as u128, m <= 300;
            assert(b * m / 300 <= b) by (nonlinear_arith)
                requires m <= 300;
            (b * m / 300) as u64
        }
    }

    /// A fruit spawned at `spawned_at`, whose lifetime is derived from
    /// `base_lifetime_secs` and its size effect, with a running timer.
    pub fn new(
        score: i32,
        grow_snake_by_relative_nb: i16,
        position: Position,
        image: &str,
        base_lifetime_secs: u16,
        timer_enabled: bool,
        spawned_at: u64,
    ) -> (f: Fruit)
        ensures
            f@ == (FruitView {
                score,
                grow_snake: grow_snake_by_relative_nb,
                position,
                image: image@,
                spawned_at,
                lifetime: lifetime_from_base(
                    base_lifetime_secs * NANOS_PER_SEC,
                    grow_snake_by_relative_nb as int,
                ) as u64,
                timer_enabled,
                timer_paused_since: None,
                accumulated_paused: 0,
            }),
    {
        let base: u64 = (base_lifetime_secs as u64) * NANOS_PER_SEC;
        Fruit {
            score,
            grow_snake: grow_snake_by_relative_nb,
            position,
            image: image.to_string(),
            spawned_at,
            lifetime: Fruit::duration_from_base(base, grow_snake_by_relative_nb),
            timer_enabled,
            timer_paused_since: None,
            accumulated_paused: 0,
        }
    }

    /// A copy of this fruit.
    pub fn duplicate(&self) -> (f: Fruit)
        ensures
            f@ == self@,
    {
        Fruit {
            score: self.score,
            grow_snake: self.grow_snake,
            position: self.position,
            image: self.image.clone(),
            spawned_at: self.spawned_at,
            lifetime: self.lifetime,
            timer_enabled: self.timer_enabled,
            timer_paused_since: self.timer_paused_since,
            accumulated_paused: self.accumulated_paused,
        }
    }

    /// Whether the fruit is at `position`.
    pub fn is_at_position(&self, position: &Position) -> (r: bool)
        ensures
            r == (self@.position == *position),
    {
        self.position == *position
    }

    /// Moves the fruit to `position`.
    pub fn set_position(&mut self, position: Position)
        ensures
            final(self)@ == (FruitView { position, ..old(self)@ }),
    {
        self.position = position;
    }

    /// Where the fruit is.
    pub fn get_position(&self) -> (p: Position)
        ensures
            p == self@.position,
    {
        self.position
    }

    /// The symbol of the fruit.
    pub fn get_image(&self) -> (s: &str)
        ensures
            s@ == self@.image,
    {
        self.image.as_str()
    }

    /// Whether the lifetime timer is enabled.
    pub fn is_timer_enabled(&self) -> (r: bool)
        ensures
            r == self@.timer_enabled,
    {
        self.timer_enabled
    }

    /// Pauses (`paused`) or resumes the fruit timer at `now`.
    pub fn set_timer_paused(&mut self, paused: bool, now: u64)
        ensures
            final(self)@ == fruit_paused(old(self)@, paused, now),
    {
        match (paused, self.timer_paused_since) {
            (true, None) => {
                self.timer_paused_since = Some(now);
            },
            (false, Some(paused_since)) => {
                self.accumulated_paused = self.accumulated_paused.saturating_add(now.saturating_sub(paused_since));
                self.timer_paused_since = None;
            },
            _ => {},
        }
    }

    /// The time the timer has been running at `now`.
    pub fn time_elasped_with_breaks_sub(&self, now: u64) -> (d: u64)
        ensures
            d as int == elapsed_with_breaks(self@, now),
    {
        let paused_now: u64 = match self.timer_paused_since {
            Some(pause_time) => now.saturating_sub(pause_time),
            None => 0,
        };
        now.saturating_sub(self.spawned_at).saturating_sub(self.accumulated_paused.saturating_add(paused_now))
    }

    /// Whether the timer is enabled, running and the lifetime is over at `now`.
    pub fn is_expired(&self, now: u64) -> (r: bool)
        ensures
            r == fruit_expired(self@, now),
    {
        self.timer_enabled && self.timer_paused_since.is_none()
            && self.time_elasped_with_breaks_sub(now) >= self.lifetime
    }

    /// The time left before the fruit expires, if its timer is enabled.
    pub fn remaining_time(&self, now: u64) -> (r: Option<u64>)
        ensures
            r == fruit_remaining(self@, now),
    {
        if self.timer_enabled {
            self.lifetime.checked_sub(self.time_elasped_with_breaks_sub(now))
        } else {
            None
        }
    }

    /// The score of the fruit.
    pub fn get_score(&self) -> (s: i32)
        ensures
            s == self@.score,
    {
        self.score
    }

    /// The effect of the fruit on the size of the snake.
    pub fn get_grow_snake(&self) -> (g: i16)
        ensures
            g == self@.grow_snake,
    {
        self.grow_snake
    }
}

impl PartialEq for Fruit {
    fn eq(&self, other: &Fruit) -> (r: bool) {
        self.score == other.score && self.grow_snake == other.grow_snake
            && self.position == other.position && self.image == other.image
            && self.spawned_at == other.spawned_at && self.lifetime == other.lifetime
            && self.timer_enabled == other.timer_enabled
            && self.timer_paused_since == other.timer_paused_since
            && self.accumulated_paused == other.accumulated_paused
    }
}

impl vstd::std_specs::cmp::PartialEqSpecImpl for Fruit {
    open spec fn obeys_eq_spec() -> bool {
        true
    }

    open spec fn eq_spec(&self, other: &Fruit) -> bool {
        self@ == other@
    }
}

/// Pausing a running timer and resuming it at the same instant gives the
/// fruit back unchanged.
pub proof fn lemma_pause_resume_same_instant(f: FruitView, now: u64)
    requires
        f.timer_paused_since.is_none(),
    ensures
        fruit_paused(fruit_paused(f, true, now), false, now) == f,
{
}

/// A fruit whose timer is paused or disabled never expires.
pub proof fn lemma_paused_never_expires(f: FruitView, now: u64)
    requires
        f.timer_paused_since.is_some() || !f.timer_enabled,
    ensures
        !fruit_expired(f, now),
{
}

/// While the timer is paused, the time it has been running stays the same.
pub proof fn lemma_paused_timer_is_frozen(f: FruitView, t1: u64, t2: u64)
    requires
        f.timer_paused_since is Some,
        f.spawned_at <= f.timer_paused_since->0 <= t1 <= t2,
        f.accumulated_paused <= f.timer_paused_since->0 - f.spawned_at,
        f.accumulated_paused + (t2 - f.timer_paused_since->0) <= u64::MAX,
    ensures
        elapsed_with_breaks(f, t1) == elapsed_with_breaks(f, t2),
{
}

/// A change made to a fruit on the map: moved to a place, or its timer
/// paused (`true`) or resumed (`false`) at an instant.
#[derive(Debug, Clone, Copy)]
pub enum FruitChange {
    Move(Position),
    Pause(bool, u64),
}

/// The fruit after the changes, made in order: a move as `set_position`
/// makes it, a pause or resume as `set_timer_paused` makes it.
pub open spec fn after_changes(f: FruitView, changes: Seq<FruitChange>) -> FruitView
    decreases changes.len(),
{
    if changes.len() == 0 {
        f
    } else {
        let g = after_changes(f, changes.drop_last());
        match changes.last() {
            FruitChange::Move(p) => FruitView { position: p, ..g },
            FruitChange::Pause(paused, now) => fruit_paused(g, paused, now),
        }
    }
}

/// Moving a fruit and pausing or resuming its timer, any number of times
/// and in any order, never changes its score, its effect on the snake size,
/// its symbol, its lifetime or when it spawned.
pub proof fn lemma_changes_keep_score_and_size(f: FruitView, changes: Seq<FruitChange>)
    ensures
        after_changes(f, changes).score == f.score,
        after_changes(f, changes).grow_snake == f.grow_snake,
        after_changes(f, changes).image == f.image,
        after_changes(f, changes).lifetime == f.lifetime,
        after_changes(f, changes).spawned_at == f.spawned_at,
    decreases changes.len(),
{
    if changes.len() > 0 {
        lemma_changes_keep_score_and_size(f, changes.drop_last());
    }
}

} // verus!
