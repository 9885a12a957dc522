use rsnaker::high_score::{key_score, keys_to_drop, rank_from_keys, score_key, RankError, MAX_SCORE_ENTRIES};

fn stored_keys(scores: &[u32]) -> Vec<Vec<u8>> {
    let mut keys: Vec<Vec<u8>> = scores
        .iter()
        .enumerate()
        .map(|(id, s)| score_key(*s, id as u64))
        .collect();
    // the score store lists its keys in byte order
    keys.sort();
    keys
}

#[test]
fn test_ranking() {
    let keys = stored_keys(&[200, 50, 100]);

    assert_eq!(rank_from_keys(&keys, 250).unwrap(), Some(1));
    assert_eq!(rank_from_keys(&keys, 200).unwrap(), Some(1));
    assert_eq!(rank_from_keys(&keys, 150).unwrap(), Some(2));
    assert_eq!(rank_from_keys(&keys, 100).unwrap(), Some(2));
    assert_eq!(rank_from_keys(&keys, 75).unwrap(), Some(3));
    assert_eq!(rank_from_keys(&keys, 50).unwrap(), Some(3));
    assert_eq!(rank_from_keys(&keys, 10).unwrap(), Some(4));
}

#[test]
fn score_keys_are_big_endian_complements_then_the_id() {
    let key = score_key(100, 0x0102_0304_0506_0708);
    assert_eq!(key.len(), 12);
    assert_eq!(&key[0..4], &(u32::MAX - 100).to_be_bytes());
    assert_eq!(&key[4..12], &[1, 2, 3, 4, 5, 6, 7, 8]);
}

#[test]
fn the_score_is_read_back_from_its_key() {
    for s in [0u32, 1, 100, 65_536, u32::MAX] {
        assert_eq!(key_score(&score_key(s, 99)), Some(s));
    }
    assert_eq!(key_score(&[1, 2, 3]), None);
}

#[test]
fn better_scores_sort_first() {
    let keys = stored_keys(&[5, 300, 70_000, 300, 0]);
    let scores: Vec<u32> = keys.iter().map(|k| key_score(k).unwrap()).collect();
    assert_eq!(scores, vec![70_000, 300, 300, 5, 0]);
}

#[test]
fn ranks_beyond_the_kept_ones_are_none() {
    let keys = stored_keys(&[100; 10]);
    assert_eq!(rank_from_keys(&keys, 100).unwrap(), Some(1));
    assert_eq!(rank_from_keys(&keys, 99).unwrap(), None);
    let empty: Vec<Vec<u8>> = Vec::new();
    assert_eq!(rank_from_keys(&empty, 0).unwrap(), Some(1));
}

#[test]
fn a_short_key_met_before_the_rank_is_an_error() {
    let keys = vec![vec![1, 2], score_key(10, 0)];
    assert_eq!(rank_from_keys(&keys, 5), Err(RankError::MalformedKey));
    let keys = vec![score_key(10, 0), vec![1, 2]];
    assert_eq!(rank_from_keys(&keys, 50), Ok(Some(1)));
}

#[test]
fn only_the_best_keys_are_kept() {
    let keys = stored_keys(&[1, 2, 3, 4, 5, 6, 7, 8, 9, 10, 11, 12]);
    let dropped = keys_to_drop(&keys);
    assert_eq!(dropped.len(), 2);
    assert_eq!(dropped[0], keys[MAX_SCORE_ENTRIES]);
    assert_eq!(dropped[1], keys[MAX_SCORE_ENTRIES + 1]);
    assert!(keys_to_drop(&stored_keys(&[1, 2, 3])).is_empty());
}
