//! The fruits on the map: spawning them at random places with a weighted
//! lottery of kinds, replacing the eaten and the expired ones so that their
//! number stays the same, and pausing their timers.
use vstd::prelude::*;
use crate::clock::Clock;
use crate::geometry::{GameMap, Position};
use crate::random_helper::random_in;
use crate::sprites::fruit::{
    Fruit, FruitView, fruit_expired, fruit_kind, fruit_kind_for_roll, fruit_paused, kind_for_roll,
    kind_image, kind_score, kind_size_effect, lifetime_from_base, NANOS_PER_SEC,
};

verus! {

/// The bounds (exclusive) of the case columns and of the rows where fruits
/// spawn: one case is kept free at the right for the timer, and the first
/// column and row are left out.
pub open spec fn spawn_bounds(m: GameMap) -> (int, int) {
    let max_x = m.area.width / m.case_size;
    let max_x = if max_x > m.case_size { max_x - m.case_size } else { 0 };
    let max_y = if m.area.height > 1 { m.area.height - 1 } else { 0 };
    (if max_x <= 1 { 2 } else { max_x }, if max_y <= 1 { 2 } else { max_y })
}

/// Whether a fruit may spawn at `p`: at the start of a case, neither in the
/// first case column nor in the first row, and within the spawn bounds.
pub open spec fn valid_spawn_position(m: GameMap, p: Position) -> bool {
    &&& p.x % m.case_size == 0
    &&& 1 <= p.x / m.case_size < spawn_bounds(m).0
    &&& 1 <= p.y < spawn_bounds(m).1
}

/// The fruit of kind `k` spawned at `spawned_at` at `position`.
pub open spec fn fruit_of_kind(k: int, position: Position, timer: bool, base_secs: u16, spawned_at: u64) -> FruitView {
    FruitView {
        score: kind_score(k),
        grow_snake: kind_size_effect(k),
        position,
        image: kind_image(k),
        spawned_at,
        lifetime: lifetime_from_base(base_secs * NANOS_PER_SEC, kind_size_effect(k) as int) as u64,
        timer_enabled: timer,
        timer_paused_since: None,
        accumulated_paused: 0,
    }
}

/// Whether `f` is a fruit as the manager spawns them on `m`: of the kind
/// that some roll of the lottery draws, at a valid spawn position, with a
/// running timer.
pub open spec fn is_spawned_fruit(f: FruitView, m: GameMap, timer: bool, base_secs: u16) -> bool {
    &&& exists|roll: int| 1 <= roll <= 100 && f == fruit_of_kind(#[trigger] kind_for_roll(roll), f.position, timer, base_secs, f.spawned_at)
    &&& valid_spawn_position(m, f.position)
}

/// The fruits of `s` for which `keep` holds, in order.
pub open spec fn kept(s: Seq<FruitView>, keep: spec_fn(FruitView) -> bool) -> Seq<FruitView>
    decreases s.len(),
{
    if s.len() == 0 {
        s
    } else if keep(s.last()) {
        kept(s.drop_last(), keep).push(s.last())
    } else {
        kept(s.drop_last(), keep)
    }
}

/// The fruits of `s` that are not among `removed`.
pub open spec fn without(s: Seq<FruitView>, removed: Seq<FruitView>) -> Seq<FruitView> {
    kept(s, |f: FruitView| !removed.contains(f))
}

/// The fruits of `s` that have not expired at `now`.
pub open spec fn unexpired(s: Seq<FruitView>, now: u64) -> Seq<FruitView> {
    kept(s, |f: FruitView| !fruit_expired(f, now))
}

/// The fruits of `s` at `position` that have not expired at `now`.
pub open spec fn eatable(s: Seq<FruitView>, position: Position, now: u64) -> Seq<FruitView> {
    kept(s, |f: FruitView| f.position == position && !fruit_expired(f, now))
}

/// The fruits of `s` after pausing (`paused`) or resuming their timers at
/// `now`.
pub open spec fn all_paused(s: Seq<FruitView>, paused: bool, now: u64) -> Seq<FruitView> {
    s.map_values(|f: FruitView| fruit_paused(f, paused, now))
}

/// The views of fruits.
pub open spec fn fruits_view(v: Seq<Fruit>) -> Seq<FruitView> {
    v.map_values(|f: Fruit| f@)
}

proof fn lemma_kept_len(s: Seq<FruitView>, keep: spec_fn(FruitView) -> bool)
    ensures
        kept(s, keep).len() <= s.len(),
    decreases s.len(),
{
    if s.len() > 0 {
        lemma_kept_len(s.drop_last(), keep);
    }
}

proof fn lemma_kept_all(s: Seq<FruitView>, keep: spec_fn(FruitView) -> bool)
    ensures
        forall|i: int| 0 <= i < kept(s, keep).len() ==> keep(#[trigger] kept(s, keep)[i]),
    decreases s.len(),
{
    if s.len() > 0 {
        lemma_kept_all(s.drop_last(), keep);
        let k0 = kept(s.drop_last(), keep);
        if keep(s.last()) {
            assert forall|i: int| 0 <= i < kept(s, keep).len() implies keep(#[trigger] kept(s, keep)[i]) by {
                if i < k0.len() {
                    assert(kept(s, keep)[i] == k0[i]);
                }
            }
        }
    }
}

/// A fruit of any kind lives at least half of a positive base lifetime.
proof fn lemma_lifetime_positive(base_secs: u16, size_effect: i16)
    requires
        base_secs > 0,
    ensures
        0 < lifetime_from_base(base_secs * NANOS_PER_SEC, size_effect as int) <= u64::MAX,
{
    let b: int = base_secs * NANOS_PER_SEC;
    assert(NANOS_PER_SEC <= b <= 65535 * NANOS_PER_SEC) by (nonlinear_arith)
        requires b == base_secs * NANOS_PER_SEC, 1 <= base_secs <= 65535, NANOS_PER_SEC == 1_000_000_000;
    if size_effect >= 0 {
        let m: int = if 50 + size_effect > 100 { 100 } else { 50 + size_effect };
        assert(b <= b * m / 50 <= 2 * b) by (nonlinear_arith)
            requires 50 <= m <= 100, b > 0;
    } else {
        let m: int = if 300 + size_effect < 150 { 150 } else { 300 + size_effect };
        assert(b / 2 <= b * m / 300 <= b) by (nonlinear_arith)
            requires 150 <= m <= 300, b > 0;
    }
}

/// A fruit spawned by the manager at `now`, with a positive base lifetime,
/// has not expired at `now`.
proof fn lemma_fresh_fruit_unexpired(f: FruitView, m: GameMap, timer: bool, base_secs: u16, now: u64)
    requires
        is_spawned_fruit(f, m, timer, base_secs),
        f.spawned_at == now,
        base_secs > 0,
    ensures
        !fruit_expired(f, now),
{
    let roll = choose|roll: int| 1 <= roll <= 100 && f == fruit_of_kind(#[trigger] kind_for_roll(roll), f.position, timer, base_secs, f.spawned_at);
    let k = kind_for_roll(roll);
    lemma_lifetime_positive(base_secs, kind_size_effect(k));
    assert(f.lifetime > 0);
}

/// The fruits of `v` for which `keep` holds, copied in order.
fn keep_fruits(v: &Vec<Fruit>, Ghost(keep): Ghost<spec_fn(FruitView) -> bool>, decide: &Vec<bool>) -> (r: Vec<Fruit>)
    requires
        decide.len() == v.len(),
        forall|i: int| 0 <= i < v.len() ==> decide[i] == keep(#[trigger] v[i]@),
    ensures
        fruits_view(r@) == kept(fruits_view(v@), keep),
{
    let mut r: Vec<Fruit> = Vec::new();
    let mut i: usize = 0;
    proof {
        assert(fruits_view(v@).take(0) =~= Seq::<FruitView>::empty());
        assert(fruits_view(r@) =~= Seq::<FruitView>::empty());
    }
    while i < v.len()
        invariant
            i <= v.len(),
            decide.len() == v.len(),
            forall|j: int| 0 <= j < v.len() ==> decide[j] == keep(#[trigger] v[j]@),
            fruits_view(r@) == kept(fruits_view(v@).take(i as int), keep),
        decreases v.len() - i,
    {
        let ghost s = fruits_view(v@).take(i + 1);
        proof {
            assert(s.drop_last() =~= fruits_view(v@).take(i as int));
            assert(s.last() == v@[i as int]@);
        }
        if decide[i] {
            let ghost before = fruits_view(r@);
            r.push(v[i].duplicate());
            proof {
                assert(fruits_view(r@) =~= before.push(v@[i as int]@));
            }
        }
        i = i + 1;
    }
    proof {
        assert(fruits_view(v@).take(v.len() as int) =~= fruits_view(v@));
    }
    r
}

/// A random position where a fruit may spawn on `carte`.
fn generate_position_rounded_by_cs(carte: &GameMap) -> (p: Position)
    requires
        carte.case_size > 0,
    ensures
        valid_spawn_position(*carte, p),
{
    let cs = carte.get_case_size();
    let csy: u16 = 1;
    let width = carte.area().width;
    let height = carte.area().height;
    let mut max_index_x = (width / cs).saturating_sub(cs);
    let mut max_index_y = (height / csy).saturating_sub(csy);
    if max_index_x <= 1 {
        max_index_x = 2;
    }
    if max_index_y <= 1 {
        max_index_y = 2;
    }
    let ix = random_in(1, (max_index_x - 1) as u32) as u16;
    let iy = random_in(1, (max_index_y - 1) as u32) as u16;
    proof {
        assert((width / cs) * cs <= width) by (nonlinear_arith)
            requires cs > 0;
        assert(ix * cs <= u16::MAX) by (nonlinear_arith)
            requires ix < max_index_x, max_index_x <= 2 || max_index_x <= width / cs, cs > 0,
                (width / cs) * cs <= width, width <= u16::MAX, cs <= u16::MAX;
        assert((ix * cs) % (cs as int) == 0 && (ix * cs) / (cs as int) == ix) by (nonlinear_arith)
            requires cs > 0;
    }
    Position { x: ix * cs, y: iy * csy }
}

/// The fruit that a roll between 1 and 100 of the lottery gives, spawned
/// at `now` at `position`.
pub fn fruit_for_roll(roll: u16, position: Position, fruit_timer_enabled: bool, fruit_base_lifetime: u16, now: u64) -> (f: Fruit)
    ensures
        f@ == fruit_of_kind(kind_for_roll(roll as int), position, fruit_timer_enabled, fruit_base_lifetime, now),
{
    let kind = fruit_kind(fruit_kind_for_roll(roll));
    Fruit::new(kind.score, kind.size_effect, position, kind.image, fruit_base_lifetime, fruit_timer_enabled, now)
}

/// A fruit of a kind drawn by the lottery, at a random position of `carte`,
/// spawned at `now`.
fn spawn_random(carte: &GameMap, fruit_timer_enabled: bool, fruit_base_lifetime: u16, now: u64) -> (f: Fruit)
    requires
        carte.case_size > 0,
    ensures
        is_spawned_fruit(f@, *carte, fruit_timer_enabled, fruit_base_lifetime),
        f@.spawned_at == now,
{
    let position = generate_position_rounded_by_cs(carte);
    let random_value = random_in(1, 100) as u16;
    let f = fruit_for_roll(random_value, position, fruit_timer_enabled, fruit_base_lifetime, now);
    proof {
        assert(kind_for_roll(random_value as int) == kind_for_roll(random_value as int));
    }
    f
}

/// Manages the fruits of a game: as many as it was made with, all spawned
/// on its map.
pub struct FruitsManager {
    pub fruits: Vec<Fruit>,
    carte: GameMap,
    fruit_timer_enabled: bool,
    fruit_base_lifetime: u16,
    clock: Clock,
}

impl FruitsManager {
    /// The map the fruits spawn on.
    pub closed spec fn map(&self) -> GameMap {
        self.carte
    }

    /// Whether the fruits have a lifetime timer.
    pub closed spec fn timer_enabled(&self) -> bool {
        self.fruit_timer_enabled
    }

    /// The base lifetime of the fruits, in seconds.
    pub closed spec fn base_lifetime(&self) -> u16 {
        self.fruit_base_lifetime
    }

    /// The fruits, in order.
    pub closed spec fn fruit_views(&self) -> Seq<FruitView> {
        fruits_view(self.fruits@)
    }

    /// The map has cases at least one column wide.
    pub open spec fn wf(&self) -> bool {
        self.map().case_size > 0
    }

    /// Whether `f` is a fruit as this manager spawns them.
    pub open spec fn spawns(&self, f: FruitView) -> bool {
        is_spawned_fruit(f, self.map(), self.timer_enabled(), self.base_lifetime())
    }

    /// The settings are those of `old` and the fruits from position `from`
    /// on are freshly spawned ones.
    pub open spec fn refilled_from(&self, old: &FruitsManager, from: int) -> bool {
        &&& self.map() == old.map()
        &&& self.timer_enabled() == old.timer_enabled()
        &&& self.base_lifetime() == old.base_lifetime()
        &&& forall|i: int| from <= i < self.fruit_views().len() ==> self.spawns(#[trigger] self.fruit_views()[i])
    }

    /// The fruits from position `from` on were spawned at `now`.
    pub open spec fn spawned_from_at(&self, from: int, now: u64) -> bool {
        forall|i: int| from <= i < self.fruit_views().len() ==> (#[trigger] self.fruit_views()[i]).spawned_at == now
    }

    /// No fruit has expired at `now`.
    pub open spec fn none_expired(&self, now: u64) -> bool {
        forall|i: int| 0 <= i < self.fruit_views().len() ==> !fruit_expired(#[trigger] self.fruit_views()[i], now)
    }

    /// A manager of `nb` fruits spawned on `carte`.
    pub fn new(nb: u16, carte: GameMap, fruit_timer_enabled: bool, fruit_base_lifetime: u16) -> (fm: FruitsManager)
        requires
            carte.case_size > 0,
        ensures
            fm.wf(),
            fm.map() == carte,
            fm.timer_enabled() == fruit_timer_enabled,
            fm.base_lifetime() == fruit_base_lifetime,
            fm.fruit_views().len() == nb,
            forall|i: int| 0 <= i < nb ==> fm.spawns(#[trigger] fm.fruit_views()[i]),
            exists|now: u64| #[trigger] fm.spawned_from_at(0, now),
    {
        let mut fm = FruitsManager {
            fruits: Vec::new(),
            carte,
            fruit_timer_enabled,
            fruit_base_lifetime,
            clock: Clock::start(),
        };
        let now = fm.clock.now();
        fm.init(nb, now);
        fm
    }

    /// The current time point of the fruit timers.
    pub fn now(&self) -> u64 {
        self.clock.now()
    }

    /// Adds `nb` fruits spawned at `now`.
    fn init(&mut self, nb: u16, now: u64)
        requires
            old(self).wf(),
            old(self).fruit_views().len() + nb <= usize::MAX,
        ensures
            final(self).wf(),
            final(self).fruit_views().len() == old(self).fruit_views().len() + nb,
            final(self).fruit_views().take(old(self).fruit_views().len() as int) == old(self).fruit_views(),
            final(self).refilled_from(old(self), old(self).fruit_views().len() as int),
            final(self).spawned_from_at(old(self).fruit_views().len() as int, now),
    {
        self.spawn_missing_fruits(nb as usize, now);
    }

    /// Adds `count` fruits spawned at `now`.
    fn spawn_missing_fruits(&mut self, count: usize, now: u64)
        requires
            old(self).wf(),
            old(self).fruit_views().len() + count <= usize::MAX,
        ensures
            final(self).wf(),
            final(self).fruit_views().len() == old(self).fruit_views().len() + count,
            final(self).fruit_views().take(old(self).fruit_views().len() as int) == old(self).fruit_views(),
            final(self).refilled_from(old(self), old(self).fruit_views().len() as int),
            final(self).spawned_from_at(old(self).fruit_views().len() as int, now),
    {
        let ghost start = self.fruits.len();
        let ghost before_spawns = fruits_view(self.fruits@);
        let mut n: usize = 0;
        while n < count
            invariant
                n <= count,
                self.wf(),
                self.map() == old(self).map(),
                self.timer_enabled() == old(self).timer_enabled(),
                self.base_lifetime() == old(self).base_lifetime(),
                start == old(self).fruits.len(),
                before_spawns == fruits_view(old(self).fruits@),
                start + count <= usize::MAX,
                self.fruits.len() == start + n,
                fruits_view(self.fruits@).take(start as int) == before_spawns,
                forall|i: int| start <= i < self.fruits.len() ==> self.spawns(#[trigger] self.fruits@[i]@),
                forall|i: int| start <= i < self.fruits.len() ==> (#[trigger] self.fruits@[i]@).spawned_at == now,
            decreases count - n,
        {
            let f = spawn_random(&self.carte, self.fruit_timer_enabled, self.fruit_base_lifetime, now);
            let ghost before = self.fruits@;
            self.fruits.push(f);
            proof {
                assert(fruits_view(self.fruits@).take(start as int) =~= fruits_view(before).take(start as int));
                assert(self.fruits@[self.fruits.len() - 1] == f);
                assert forall|i: int| start <= i < self.fruits.len() implies self.spawns(#[trigger] self.fruits@[i]@)
                    && self.fruits@[i]@.spawned_at == now by {
                    if i < self.fruits.len() - 1 {
                        assert(self.fruits@[i] == before[i]);
                    }
                }
            }
            n = n + 1;
        }
        proof {
            assert forall|i: int| start <= i < self.fruit_views().len() implies (#[trigger] self.fruit_views()[i]).spawned_at == now by {
                assert(self.fruit_views()[i] == self.fruits@[i]@);
            }
        }
    }

    /// Replaces the eaten fruits `fruits_to_remove`: the fruits equal to one
    /// of them are removed, the others kept in order, and as many new ones
    /// spawned, so that the number of fruits stays the same.
    pub fn replace_fruits(&mut self, fruits_to_remove: &[Fruit])
        requires
            old(self).wf(),
        ensures
            final(self).wf(),
            final(self).fruit_views().len() == old(self).fruit_views().len(),
            fruits_to_remove.len() == 0 ==> final(self).fruit_views() == old(self).fruit_views(),
            fruits_to_remove.len() > 0 ==> {
                let rest = without(old(self).fruit_views(), fruits_view(fruits_to_remove@));
                &&& final(self).fruit_views().take(rest.len() as int) == rest
                &&& final(self).refilled_from(old(self), rest.len() as int)
                &&& exists|now: u64| #[trigger] final(self).spawned_from_at(rest.len() as int, now)
            },
            final(self).refilled_from(old(self), final(self).fruit_views().len() as int),
    {
        if fruits_to_remove.len() == 0 {
            return;
        }
        let ghost removed = fruits_view(fruits_to_remove@);
        let ghost keep = |f: FruitView| !removed.contains(f);
        let initial_count = self.fruits.len();
        let mut decide: Vec<bool> = Vec::new();
        let mut i: usize = 0;
        while i < self.fruits.len()
            invariant
                i <= self.fruits.len(),
                removed == fruits_view(fruits_to_remove@),
                keep == (|f: FruitView| !removed.contains(f)),
                decide.len() == i,
                forall|j: int| 0 <= j < i ==> decide[j] == keep(#[trigger] self.fruits@[j]@),
            decreases self.fruits.len() - i,
        {
            let mut found = false;
            let mut k: usize = 0;
            while k < fruits_to_remove.len()
                invariant
                    i < self.fruits.len(),
                    k <= fruits_to_remove.len(),
                    removed == fruits_view(fruits_to_remove@),
                    found == exists|m: int| 0 <= m < k && removed[m] == self.fruits@[i as int]@,
                decreases fruits_to_remove.len() - k,
            {
                proof {
                    assert(removed[k as int] == fruits_to_remove@[k as int]@);
                }
                if fruits_to_remove[k] == self.fruits[i] {
                    found = true;
                }
                k = k + 1;
            }
            proof {
                if found {
                    let m = choose|m: int| 0 <= m < k && removed[m] == self.fruits@[i as int]@;
                    assert(removed.contains(self.fruits@[i as int]@));
                } else {
                    assert forall|m: int| 0 <= m < removed.len() implies removed[m] != self.fruits@[i as int]@ by {
                        if removed[m] == self.fruits@[i as int]@ {
                            assert(exists|m2: int| 0 <= m2 < k && removed[m2] == self.fruits@[i as int]@);
                        }
                    }
                }
            }
            decide.push(!found);
            i = i + 1;
        }
        let remaining = keep_fruits(&self.fruits, Ghost(keep), &decide);
        proof {
            lemma_kept_len(fruits_view(self.fruits@), keep);
        }
        self.fruits = remaining;
        let missing = initial_count - self.fruits.len();
        let now = self.clock.now();
        self.spawn_missing_fruits(missing, now);
        proof {
            assert(keep == (|f: FruitView| !fruits_view(fruits_to_remove@).contains(f)));
        }
    }

    /// Keeps the fruits that `keep` holds of, in order, and spawns new ones
    /// in place of the others.
    fn replace_unless(&mut self, Ghost(keep): Ghost<spec_fn(FruitView) -> bool>, decide: &Vec<bool>, now: u64)
        requires
            old(self).wf(),
            decide.len() == old(self).fruit_views().len(),
            forall|i: int| 0 <= i < decide.len() ==> decide[i] == keep(#[trigger] old(self).fruit_views()[i]),
        ensures
            final(self).wf(),
            final(self).fruit_views().len() == old(self).fruit_views().len(),
            final(self).fruit_views().take(kept(old(self).fruit_views(), keep).len() as int) == kept(
                old(self).fruit_views(),
                keep,
            ),
            final(self).refilled_from(old(self), kept(old(self).fruit_views(), keep).len() as int),
            final(self).spawned_from_at(kept(old(self).fruit_views(), keep).len() as int, now),
    {
        let initial_count = self.fruits.len();
        proof {
            assert forall|i: int| 0 <= i < self.fruits.len() implies decide[i] == keep(#[trigger] self.fruits@[i]@) by {
                assert(self.fruit_views()[i] == self.fruits@[i]@);
            }
        }
        let remaining = keep_fruits(&self.fruits, Ghost(keep), decide);
        proof {
            lemma_kept_len(fruits_view(self.fruits@), keep);
        }
        self.fruits = remaining;
        let missing = initial_count - self.fruits.len();
        self.spawn_missing_fruits(missing, now);
    }

    /// Replaces the fruits that have expired at `now` by new ones spawned at
    /// `now`, when the fruits have a timer; the number of fruits stays the
    /// same, and with a positive base lifetime none is left expired.
    pub fn update_at(&mut self, now: u64)
        requires
            old(self).wf(),
        ensures
            final(self).wf(),
            final(self).fruit_views().len() == old(self).fruit_views().len(),
            !old(self).timer_enabled() ==> final(self).fruit_views() == old(self).fruit_views(),
            old(self).timer_enabled() ==> {
                let rest = unexpired(old(self).fruit_views(), now);
                &&& final(self).fruit_views().take(rest.len() as int) == rest
                &&& final(self).refilled_from(old(self), rest.len() as int)
                &&& final(self).spawned_from_at(rest.len() as int, now)
                &&& old(self).base_lifetime() > 0 ==> final(self).none_expired(now)
            },
            final(self).refilled_from(old(self), final(self).fruit_views().len() as int),
    {
        if !self.fruit_timer_enabled {
            return;
        }
        let ghost keep = |f: FruitView| !fruit_expired(f, now);
        let mut decide: Vec<bool> = Vec::new();
        let mut i: usize = 0;
        while i < self.fruits.len()
            invariant
                i <= self.fruits.len(),
                keep == (|f: FruitView| !fruit_expired(f, now)),
                decide.len() == i,
                forall|j: int| 0 <= j < i ==> decide[j] == keep(#[trigger] self.fruit_views()[j]),
            decreases self.fruits.len() - i,
        {
            decide.push(!self.fruits[i].is_expired(now));
            proof {
                assert(self.fruit_views()[i as int] == self.fruits@[i as int]@);
            }
            i = i + 1;
        }
        self.replace_unless(Ghost(keep), &decide, now);
        proof {
            let rest = kept(old(self).fruit_views(), keep);
            lemma_kept_all(old(self).fruit_views(), keep);
            lemma_kept_len(old(self).fruit_views(), keep);
            if self.fruit_timer_enabled && self.fruit_base_lifetime > 0 {
                assert forall|i: int| 0 <= i < self.fruit_views().len() implies !fruit_expired(#[trigger] self.fruit_views()[i], now) by {
                    if i < rest.len() {
                        assert(self.fruit_views()[i] == self.fruit_views().take(rest.len() as int)[i]);
                        assert(keep(rest[i]));
                    } else {
                        assert(self.spawns(self.fruit_views()[i]));
                        lemma_fresh_fruit_unexpired(self.fruit_views()[i], self.map(), self.timer_enabled(), self.base_lifetime(), now);
                    }
                }
            }
        }
    }

    /// Replaces the fruits that have expired by new ones spawned at the same
    /// instant, when the fruits have a timer; the number of fruits stays the
    /// same, and with a positive base lifetime none is left expired.
    pub fn update(&mut self)
        requires
            old(self).wf(),
        ensures
            final(self).wf(),
            final(self).fruit_views().len() == old(self).fruit_views().len(),
            !old(self).timer_enabled() ==> final(self).fruit_views() == old(self).fruit_views(),
            old(self).timer_enabled() ==> exists|now: u64| {
                let rest = #[trigger] unexpired(old(self).fruit_views(), now);
                &&& final(self).fruit_views().take(rest.len() as int) == rest
                &&& final(self).refilled_from(old(self), rest.len() as int)
                &&& final(self).spawned_from_at(rest.len() as int, now)
                &&& old(self).base_lifetime() > 0 ==> final(self).none_expired(now)
            },
            final(self).refilled_from(old(self), final(self).fruit_views().len() as int),
    {
        let now = self.clock.now();
        self.update_at(now);
    }

    /// Pauses (`paused`) or resumes the timers of all the fruits at `now`,
    /// when the fruits have a timer.
    pub fn set_timer_paused_at(&mut self, paused: bool, now: u64)
        requires
            old(self).wf(),
        ensures
            final(self).wf(),
            final(self).refilled_from(old(self), old(self).fruit_views().len() as int),
            final(self).fruit_views().len() == old(self).fruit_views().len(),
            !old(self).timer_enabled() ==> final(self).fruit_views() == old(self).fruit_views(),
            old(self).timer_enabled() ==> final(self).fruit_views() == all_paused(old(self).fruit_views(), paused, now),
    {
        if !self.fruit_timer_enabled {
            return;
        }
        let mut out: Vec<Fruit> = Vec::new();
        let mut i: usize = 0;
        while i < self.fruits.len()
            invariant
                i <= self.fruits.len(),
                out.len() == i,
                forall|j: int| 0 <= j < i ==> #[trigger] out@[j]@ == fruit_paused(self.fruits@[j]@, paused, now),
            decreases self.fruits.len() - i,
        {
            let mut f = self.fruits[i].duplicate();
            f.set_timer_paused(paused, now);
            out.push(f);
            i = i + 1;
        }
        self.fruits = out;
        proof {
            assert(self.fruit_views() =~= all_paused(old(self).fruit_views(), paused, now));
        }
    }

    /// Pauses (`paused`) or resumes the timers of all the fruits, when the
    /// fruits have a timer.
    pub fn set_timer_paused(&mut self, paused: bool)
        requires
            old(self).wf(),
        ensures
            final(self).wf(),
            final(self).refilled_from(old(self), old(self).fruit_views().len() as int),
            final(self).fruit_views().len() == old(self).fruit_views().len(),
            !old(self).timer_enabled() ==> final(self).fruit_views() == old(self).fruit_views(),
            old(self).timer_enabled() ==> exists|now: u64|
                final(self).fruit_views() == #[trigger] all_paused(old(self).fruit_views(), paused, now),
    {
        let now = self.clock.now();
        self.set_timer_paused_at(paused, now);
    }

    /// Copies of the fruits at `position` that have not expired at `now`,
    /// in order, or `None` when there is none.
    pub fn eat_some_fruits_at(&self, position: &Position, now: u64) -> (r: Option<Vec<Fruit>>)
        ensures
            match r {
                Some(v) => v.len() > 0 && fruits_view(v@) == eatable(self.fruit_views(), *position, now),
                None => eatable(self.fruit_views(), *position, now).len() == 0,
            },
    {
        let ghost keep = |f: FruitView| f.position == *position && !fruit_expired(f, now);
        let mut decide: Vec<bool> = Vec::new();
        let mut i: usize = 0;
        while i < self.fruits.len()
            invariant
                i <= self.fruits.len(),
                keep == (|f: FruitView| f.position == *position && !fruit_expired(f, now)),
                decide.len() == i,
                forall|j: int| 0 <= j < i ==> decide[j] == keep(#[trigger] self.fruits@[j]@),
            decreases self.fruits.len() - i,
        {
            decide.push(self.fruits[i].is_at_position(position) && !self.fruits[i].is_expired(now));
            i = i + 1;
        }
        let eaten = keep_fruits(&self.fruits, Ghost(keep), &decide);
        if eaten.len() == 0 {
            None
        } else {
            Some(eaten)
        }
    }

    /// Copies of the fruits at `position` that have not expired, in order,
    /// or `None` when there is none.
    pub fn eat_some_fruits(&self, position: &Position) -> (r: Option<Vec<Fruit>>)
        ensures
            exists|now: u64| match r {
                Some(v) => v.len() > 0 && fruits_view(v@) == #[trigger] eatable(self.fruit_views(), *position, now),
                None => eatable(self.fruit_views(), *position, now).len() == 0,
            },
    {
        let now = self.clock.now();
        self.eat_some_fruits_at(position, now)
    }

    /// Moves every fruit to a random spawn position of `carte`, the new map
    /// of the game, so that none is left out of reach.
    pub fn reset_to_terminal_size(&mut self, carte: GameMap)
        requires
            old(self).wf(),
            carte.case_size > 0,
        ensures
            final(self).wf(),
            final(self).map() == carte,
            final(self).timer_enabled() == old(self).timer_enabled(),
            final(self).base_lifetime() == old(self).base_lifetime(),
            final(self).fruit_views().len() == old(self).fruit_views().len(),
            forall|i: int| 0 <= i < old(self).fruit_views().len() ==> {
                let f = #[trigger] final(self).fruit_views()[i];
                &&& f == (FruitView { position: f.position, ..old(self).fruit_views()[i] })
                &&& valid_spawn_position(carte, f.position)
            },
    {
        self.carte = carte;
        let mut out: Vec<Fruit> = Vec::new();
        let mut i: usize = 0;
        while i < self.fruits.len()
            invariant
                i <= self.fruits.len(),
                self.carte == carte,
                carte.case_size > 0,
                out.len() == i,
                forall|j: int| 0 <= j < i ==> {
                    let f = #[trigger] out@[j]@;
                    &&& f == (FruitView { position: f.position, ..self.fruits@[j]@ })
                    &&& valid_spawn_position(carte, f.position)
                },
            decreases self.fruits.len() - i,
        {
            let mut f = self.fruits[i].duplicate();
            f.set_position(generate_position_rounded_by_cs(&self.carte));
            out.push(f);
            i = i + 1;
        }
        self.fruits = out;
    }

    /// Replaces all the fruits by as many new ones.
    pub fn reset(&mut self)
        requires
            old(self).wf(),
            old(self).fruit_views().len() <= u16::MAX,
        ensures
            final(self).wf(),
            final(self).fruit_views().len() == old(self).fruit_views().len(),
            final(self).refilled_from(old(self), 0),
            exists|now: u64| #[trigger] final(self).spawned_from_at(0, now),
    {
        let len = self.fruits.len() as u16;
        self.fruits = Vec::new();
        let now = self.clock.now();
        self.init(len, now);
    }

    /// The fruits, in order.
    pub fn get_fruits(&self) -> (v: &Vec<Fruit>)
        ensures
            fruits_view(v@) == self.fruit_views(),
    {
        &self.fruits
    }
}

} // verus!
