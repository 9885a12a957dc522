//! The best scores: how a score is written as a key of the score store so
//! that the store's byte order lists the best scores first, the rank of a
//! score among the stored ones, and which entries are dropped to keep only
//! the best ones.
use vstd::prelude::*;

verus! {

/// A best score as the high scores table shows it: the symbols of the
/// snake, the score, the speed, the growth factor, the day it was made
/// (day/month/year) and the version of the game.
#[derive(Debug, Clone)]
pub struct HighScore {
    pub symbols: String,
    pub score: u32,
    pub speed: String,
    pub snake_growth_factor: u16,
    pub date: String,
    pub version: String,
}

/// How many best scores are kept.
pub const MAX_SCORE_ENTRIES: usize = 10;

/// The byte of weight `256^k` of `v`.
pub open spec fn byte_at(v: int, k: nat) -> u8 {
    ((v / pow256(k)) % 256) as u8
}

/// `256^k`.
pub open spec fn pow256(k: nat) -> int
    decreases k,
{
    if k == 0 { 1 } else { 256 * pow256((k - 1) as nat) }
}

/// The 4 bytes of `v`, most significant first.
pub open spec fn be_bytes_u32(v: u32) -> Seq<u8> {
    seq![byte_at(v as int, 3), byte_at(v as int, 2), byte_at(v as int, 1), byte_at(v as int, 0)]
}

/// The 8 bytes of `v`, most significant first.
pub open spec fn be_bytes_u64(v: u64) -> Seq<u8> {
    seq![
        byte_at(v as int, 7), byte_at(v as int, 6), byte_at(v as int, 5), byte_at(v as int, 4),
        byte_at(v as int, 3), byte_at(v as int, 2), byte_at(v as int, 1), byte_at(v as int, 0),
    ]
}

/// The number whose 4 bytes, most significant first, begin `b`.
pub open spec fn be_value_u32(b: Seq<u8>) -> int {
    b[0] * 16777216 + b[1] * 65536 + b[2] * 256 + b[3]
}

/// The key under which a score is stored: the bytes of `u32::MAX - score`
/// then those of a unique id, most significant first, so that in byte
/// order the best scores come first and equal scores in order of their id.
pub open spec fn spec_score_key(score: u32, unique_id: u64) -> Seq<u8> {
    be_bytes_u32((u32::MAX - score) as u32) + be_bytes_u64(unique_id)
}

/// The score stored under `key`, if the key is long enough to hold one.
pub open spec fn spec_key_score(key: Seq<u8>) -> Option<u32> {
    if key.len() < 4 { None } else { Some((u32::MAX - be_value_u32(key)) as u32) }
}

/// `a` comes before `b` in byte order: at the first position where they
/// differ, the byte of `a` is smaller.
pub open spec fn bytes_before(a: Seq<u8>, b: Seq<u8>) -> bool {
    exists|i: int| 0 <= i < a.len() && i < b.len() && #[trigger] a[i] < b[i] && a.take(i) == b.take(i)
}

proof fn lemma_pow256_values()
    ensures
        pow256(0) == 1,
        pow256(1) == 256,
        pow256(2) == 65536,
        pow256(3) == 16777216,
        pow256(4) == 4294967296,
        pow256(5) == 1099511627776,
        pow256(6) == 281474976710656,
        pow256(7) == 72057594037927936,
{
    reveal_with_fuel(pow256, 8);
}

proof fn lemma_u32_bytes(v: u32)
    ensures
        be_value_u32(be_bytes_u32(v)) == v,
        be_bytes_u32(v)[0] == v / 16777216,
        be_bytes_u32(v)[1] == (v / 65536) % 256,
        be_bytes_u32(v)[2] == (v / 256) % 256,
        be_bytes_u32(v)[3] == v % 256,
{
    lemma_pow256_values();
    let b = be_bytes_u32(v);
    assert(v / 16777216 < 256);
    assert(b[0] == v / 16777216);
    assert(b[1] == (v / 65536) % 256);
    assert(b[2] == (v / 256) % 256);
    assert(b[3] == v % 256);
}

/// The score read back from the key of a stored score is that score.
pub proof fn lemma_key_score_round_trip(score: u32, unique_id: u64)
    ensures
        spec_key_score(spec_score_key(score, unique_id)) == Some(score),
{
    let x = (u32::MAX - score) as u32;
    lemma_u32_bytes(x);
    let key = spec_score_key(score, unique_id);
    assert(key.take(4) =~= be_bytes_u32(x));
    assert(key[0] == be_bytes_u32(x)[0] && key[1] == be_bytes_u32(x)[1]);
    assert(key[2] == be_bytes_u32(x)[2] && key[3] == be_bytes_u32(x)[3]);
}

/// The key of a better score comes first in byte order, whatever the ids:
/// reading the store in byte order lists the scores from best to worst.
pub proof fn lemma_better_score_first(s1: u32, s2: u32, id1: u64, id2: u64)
    requires
        s1 > s2,
    ensures
        bytes_before(spec_score_key(s1, id1), spec_score_key(s2, id2)),
{
    let x1 = (u32::MAX - s1) as u32;
    let x2 = (u32::MAX - s2) as u32;
    lemma_u32_bytes(x1);
    lemma_u32_bytes(x2);
    let k1 = spec_score_key(s1, id1);
    let k2 = spec_score_key(s2, id2);
    let a = be_bytes_u32(x1);
    let b = be_bytes_u32(x2);
    assert(k1[0] == a[0] && k1[1] == a[1] && k1[2] == a[2] && k1[3] == a[3]);
    assert(k2[0] == b[0] && k2[1] == b[1] && k2[2] == b[2] && k2[3] == b[3]);
    assert(x1 < x2);
    if a[0] != b[0] {
        assert(a[0] < b[0]);
        assert(k1.take(0) =~= k2.take(0));
        assert(k1[0] < k2[0]);
    } else if a[1] != b[1] {
        assert(a[1] < b[1]);
        assert(k1.take(1) =~= k2.take(1));
        assert(k1[1] < k2[1]);
    } else if a[2] != b[2] {
        assert(a[2] < b[2]);
        assert(k1.take(2) =~= k2.take(2));
        assert(k1[2] < k2[2]);
    } else {
        assert(a[3] < b[3]);
        assert(k1.take(3) =~= k2.take(3));
        assert(k1[3] < k2[3]);
    }
}

/// The key under which a score is stored, with a unique id.
pub fn score_key(score: u32, unique_id: u64) -> (key: Vec<u8>)
    ensures
        key@ == spec_score_key(score, unique_id),
{
    proof {
        lemma_pow256_values();
    }
    let x: u32 = u32::MAX - score;
    let mut key: Vec<u8> = Vec::new();
    key.push((x / 16777216) as u8);
    key.push(((x / 65536) % 256) as u8);
    key.push(((x / 256) % 256) as u8);
    key.push((x % 256) as u8);
    key.push((unique_id / 72057594037927936) as u8);
    key.push(((unique_id / 281474976710656) % 256) as u8);
    key.push(((unique_id / 1099511627776) % 256) as u8);
    key.push(((unique_id / 4294967296) % 256) as u8);
    key.push(((unique_id / 16777216) % 256) as u8);
    key.push(((unique_id / 65536) % 256) as u8);
    key.push(((unique_id / 256) % 256) as u8);
    key.push((unique_id % 256) as u8);
    proof {
        assert(x / 16777216 < 256);
        assert(unique_id / 72057594037927936 < 256);
        assert(key@ =~= spec_score_key(score, unique_id));
    }
    key
}

/// The score stored under `key`, or `None` if the key is too short to
/// hold one.
pub fn key_score(key: &[u8]) -> (s: Option<u32>)
    ensures
        s == spec_key_score(key@),
{
    if key.len() < 4 {
        None
    } else {
        let v: u32 = (key[0] as u32) * 16777216 + (key[1] as u32) * 65536 + (key[2] as u32) * 256 + (key[3] as u32);
        Some(u32::MAX - v)
    }
}

/// A key too short to hold a score was met while ranking.
#[derive(Debug, Clone, Copy, PartialEq, Eq, Structural)]
pub enum RankError {
    MalformedKey,
}

/// The rank `r` if it is among the kept ones.
pub open spec fn kept_rank(r: int) -> Option<usize> {
    if r <= MAX_SCORE_ENTRIES { Some(r as usize) } else { None }
}

/// The rank of `player` among the stored keys from position `i` on, read in
/// byte order (best first): one more than the number of stored scores
/// above it, kept only among the best ones; an error when a key too short
/// to hold a score is met before the rank is known.
pub open spec fn rank_from(keys: Seq<Seq<u8>>, player: u32, i: int) -> Result<Option<usize>, RankError>
    decreases keys.len() - i,
{
    if i >= keys.len() {
        Ok(kept_rank(i + 1))
    } else {
        match spec_key_score(keys[i]) {
            None => Err(RankError::MalformedKey),
            Some(s) => if player >= s { Ok(kept_rank(i + 1)) } else { rank_from(keys, player, i + 1) },
        }
    }
}

/// Every key is long enough to hold a score.
pub open spec fn keys_well_formed(keys: Seq<Seq<u8>>) -> bool {
    forall|i: int| 0 <= i < keys.len() ==> (#[trigger] keys[i]).len() >= 4
}

/// Among well-formed keys, a score ranks at least as high as any lower
/// score: when the lower one is among the kept best scores, so is the
/// higher one, with a rank no larger.
pub proof fn lemma_better_score_ranks_higher(keys: Seq<Seq<u8>>, p1: u32, p2: u32, i: int)
    requires
        keys_well_formed(keys),
        p1 >= p2,
        0 <= i,
    ensures
        rank_from(keys, p1, i) is Ok,
        rank_from(keys, p2, i) is Ok,
        rank_from(keys, p2, i)->Ok_0 matches Some(r2) ==> (rank_from(keys, p1, i)->Ok_0 matches Some(r1) && r1 <= r2),
    decreases keys.len() - i,
{
    if i < keys.len() {
        assert(keys[i].len() >= 4);
        lemma_better_score_ranks_higher(keys, p1, p2, i + 1);
        let s = spec_key_score(keys[i]);
        assert(s is Some);
        if p1 >= s->0 {
            assert(rank_from(keys, p1, i) == Ok::<Option<usize>, RankError>(kept_rank(i + 1)));
            if p2 < s->0 {
                lemma_rank_at_least(keys, p2, i + 1);
                assert(rank_from(keys, p2, i) == rank_from(keys, p2, i + 1));
            }
        } else {
            assert(rank_from(keys, p1, i) == rank_from(keys, p1, i + 1));
            assert(rank_from(keys, p2, i) == rank_from(keys, p2, i + 1));
        }
    }
}

proof fn lemma_rank_at_least(keys: Seq<Seq<u8>>, p: u32, i: int)
    requires
        keys_well_formed(keys),
        0 <= i,
    ensures
        rank_from(keys, p, i) is Ok,
        rank_from(keys, p, i)->Ok_0 matches Some(r) ==> i + 1 <= r <= MAX_SCORE_ENTRIES,
    decreases keys.len() - i,
{
    if i < keys.len() {
        assert(keys[i].len() >= 4);
        lemma_rank_at_least(keys, p, i + 1);
    }
}

/// The bytes of each key.
pub open spec fn key_views(keys: Seq<Vec<u8>>) -> Seq<Seq<u8>> {
    keys.map_values(|k: Vec<u8>| k@)
}

/// The first `n` stored scores are all strictly above `player`, and the
/// next one, if any, is not.
pub open spec fn better_prefix(keys: Seq<Seq<u8>>, player: u32, n: int) -> bool {
    &&& 0 <= n <= keys.len()
    &&& forall|j: int| 0 <= j < n ==> ((#[trigger] spec_key_score(keys[j])) matches Some(s) && s > player)
    &&& n < keys.len() ==> (spec_key_score(keys[n]) matches Some(s) && s <= player)
}

proof fn lemma_rank_counts_from(keys: Seq<Seq<u8>>, player: u32, i: int) -> (n: int)
    requires
        keys_well_formed(keys),
        0 <= i <= keys.len(),
        forall|j: int| 0 <= j < i ==> ((#[trigger] spec_key_score(keys[j])) matches Some(s) && s > player),
    ensures
        i <= n,
        better_prefix(keys, player, n),
        rank_from(keys, player, i) == Ok::<Option<usize>, RankError>(
            if n + 1 <= 10 { Some((n + 1) as usize) } else { None },
        ),
    decreases keys.len() - i,
{
    if i == keys.len() {
        i
    } else {
        assert(keys[i].len() >= 4);
        let s = spec_key_score(keys[i])->Some_0;
        if player >= s {
            i
        } else {
            lemma_rank_counts_from(keys, player, i + 1)
        }
    }
}

/// For well-formed keys read best first, the rank of `player` is one more
/// than the number `n` of leading stored scores strictly above it, and it is
/// kept exactly when it is at most 10: with fewer than 10 stored scores,
/// every score gets a rank.
pub proof fn lemma_rank_counts_better_scores(keys: Seq<Seq<u8>>, player: u32)
    requires
        keys_well_formed(keys),
    ensures
        exists|n: int| #[trigger] better_prefix(keys, player, n) && rank_from(keys, player, 0)
            == Ok::<Option<usize>, RankError>(if n + 1 <= 10 { Some((n + 1) as usize) } else { None }),
        keys.len() < 10 ==> (rank_from(keys, player, 0) matches Ok(Some(r)) && 1 <= r <= keys.len() + 1),
        rank_from(keys, player, 0) matches Ok(Some(r)) ==> 1 <= r <= 10,
{
    let n = lemma_rank_counts_from(keys, player, 0);
    assert(better_prefix(keys, player, n));
}

/// Reads the keys in order up to the first stored score that `player`
/// reaches.
fn rank_among_keys(keys: &Vec<Vec<u8>>, player: u32) -> (r: Result<Option<usize>, RankError>)
    requires
        keys.len() < usize::MAX,
    ensures
        r == rank_from(keys@.map_values(|k: Vec<u8>| k@), player, 0),
{
    let ghost ks = keys@.map_values(|k: Vec<u8>| k@);
    let mut i: usize = 0;
    while i < keys.len()
        invariant
            i <= keys.len() < usize::MAX,
            ks == keys@.map_values(|k: Vec<u8>| k@),
            rank_from(ks, player, i as int) == rank_from(ks, player, 0),
        decreases keys.len() - i,
    {
        proof {
            assert(ks[i as int] == keys@[i as int]@);
        }
        match key_score(keys[i].as_slice()) {
            None => {
                return Err(RankError::MalformedKey);
            },
            Some(s) => {
                if player >= s {
                    return Ok(if i + 1 <= MAX_SCORE_ENTRIES { Some(i + 1) } else { None });
                }
            },
        }
        i = i + 1;
    }
    Ok(if i + 1 <= MAX_SCORE_ENTRIES { Some(i + 1) } else { None })
}

/// The rank that a score `player` would take among the stored keys (in byte
/// order), if it is among the best ones.
pub fn rank_from_keys(keys: &Vec<Vec<u8>>, player: u32) -> (r: Result<Option<usize>, RankError>)
    requires
        keys.len() < usize::MAX,
    ensures
        r == rank_from(keys@.map_values(|k: Vec<u8>| k@), player, 0),
        keys_well_formed(key_views(keys@)) ==> exists|n: int|
            #[trigger] better_prefix(key_views(keys@), player, n)
                && r == Ok::<Option<usize>, RankError>(if n + 1 <= 10 { Some((n + 1) as usize) } else { None }),
        keys_well_formed(key_views(keys@)) && keys.len() < 10 ==> (r matches Ok(Some(x))
            && 1 <= x <= keys.len() + 1),
{
    let r = rank_among_keys(keys, player);
    proof {
        assert(key_views(keys@) =~= keys@.map_values(|k: Vec<u8>| k@));
        if keys_well_formed(key_views(keys@)) {
            lemma_rank_counts_better_scores(key_views(keys@), player);
        }
    }
    r
}

/// The keys to delete so that only the best scores are kept: all of them
/// after the first `MAX_SCORE_ENTRIES`, in order.
pub fn keys_to_drop(keys: &Vec<Vec<u8>>) -> (dropped: Vec<Vec<u8>>)
    ensures
        dropped@.len() == (if keys@.len() > MAX_SCORE_ENTRIES { keys@.len() - MAX_SCORE_ENTRIES } else { 0 }),
        forall|i: int| 0 <= i < dropped@.len() ==> #[trigger] dropped@[i]@ == keys@[i + MAX_SCORE_ENTRIES]@,
{
    let mut dropped: Vec<Vec<u8>> = Vec::new();
    let mut i: usize = MAX_SCORE_ENTRIES;
    while i < keys.len()
        invariant
            MAX_SCORE_ENTRIES <= i,
            i <= keys.len() || i == MAX_SCORE_ENTRIES,
            dropped@.len() == (if i <= MAX_SCORE_ENTRIES { 0 } else { i - MAX_SCORE_ENTRIES }),
            forall|j: int| 0 <= j < dropped@.len() ==> #[trigger] dropped@[j]@ == keys@[j + MAX_SCORE_ENTRIES]@,
        decreases keys.len() - i,
    {
        dropped.push(keys[i].clone());
        i = i + 1;
    }
    dropped
}

} // verus!
