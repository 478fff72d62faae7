use rhai_core::interner::{throttle_cache, Interned};

fn e(h: u64, len: usize, count: usize) -> (u64, Interned) {
    (h, Interned { len, count })
}

#[test]
fn throttle_evicts_least_shared_then_longest_sparing_the_new_entry() {
    let mut cache = vec![e(1, 3, 1), e(2, 5, 1), e(3, 2, 2), e(4, 9, 1), e(5, 1, 1)];
    throttle_cache(&mut cache, 4, 5);
    assert_eq!(cache, vec![e(3, 2, 2), e(5, 1, 1)]);
}

#[test]
fn throttle_leaves_a_cache_within_capacity() {
    let mut cache = vec![e(1, 3, 1), e(2, 5, 1)];
    throttle_cache(&mut cache, 2, 2);
    assert_eq!(cache, vec![e(1, 3, 1), e(2, 5, 1)]);
    let mut big = (1..=10).map(|h| e(h, h as usize, 1)).collect::<Vec<_>>();
    throttle_cache(&mut big, 9, 1);
    // Shrunk to 9 - 3 = 6 entries: the longest go first, the new entry stays.
    assert_eq!(big.iter().map(|x| x.0).collect::<Vec<_>>(), vec![1, 2, 3, 4, 5, 6]);
}
