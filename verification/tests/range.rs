use expos::range::{Error, Range, RangeSet, RANGE_SET_LEN};

#[test]
fn test_rangeset_insert_not_overlapped() {
    let mut rangeset = RangeSet::new();
    rangeset.insert(Range::new(20, 30).unwrap()).unwrap();
    rangeset.insert(Range::new(0, 10).unwrap()).unwrap();
    rangeset.insert(Range::new(15, 15).unwrap()).unwrap();
    let want = [
        Range::new(0, 10).unwrap(),
        Range::new(15, 15).unwrap(),
        Range::new(20, 30).unwrap(),
    ];
    assert_eq!(rangeset.ranges(), want);
}

#[test]
fn test_rangeset_insert_contiguous() {
    let mut rangeset = RangeSet::new();
    rangeset.insert(Range::new(11, 20).unwrap()).unwrap();
    rangeset.insert(Range::new(0, 10).unwrap()).unwrap();
    let want = [Range::new(0, 20).unwrap()];
    assert_eq!(rangeset.ranges(), want);
}

#[test]
fn test_rangeset_insert_overlapped() {
    let mut rangeset = RangeSet::new();
    rangeset.insert(Range::new(5, 20).unwrap()).unwrap();
    rangeset.insert(Range::new(0, 10).unwrap()).unwrap();
    let want = [Range::new(0, 20).unwrap()];
    assert_eq!(rangeset.ranges(), want);
}

#[test]
fn test_rangeset_insert_overlapped_start() {
    let mut rangeset = RangeSet::new();
    rangeset.insert(Range::new(10, 20).unwrap()).unwrap();
    rangeset.insert(Range::new(0, 10).unwrap()).unwrap();
    let want = [Range::new(0, 20).unwrap()];
    assert_eq!(rangeset.ranges(), want);
}

#[test]
fn test_rangeset_insert_overlapped_end() {
    let mut rangeset = RangeSet::new();
    rangeset.insert(Range::new(10, 20).unwrap()).unwrap();
    rangeset.insert(Range::new(0, 20).unwrap()).unwrap();
    let want = [Range::new(0, 20).unwrap()];
    assert_eq!(rangeset.ranges(), want);
}

#[test]
fn test_rangeset_insert_contained() {
    let mut rangeset = RangeSet::new();
    rangeset.insert(Range::new(10, 30).unwrap()).unwrap();
    rangeset.insert(Range::new(0, 40).unwrap()).unwrap();
    let want = [Range::new(0, 40).unwrap()];
    assert_eq!(rangeset.ranges(), want);
}

#[test]
fn test_rangeset_insert_contained_multiple() {
    let mut rangeset = RangeSet::new();
    rangeset.insert(Range::new(10, 20).unwrap()).unwrap();
    rangeset.insert(Range::new(25, 30).unwrap()).unwrap();
    rangeset.insert(Range::new(0, 40).unwrap()).unwrap();
    let want = [Range::new(0, 40).unwrap()];
    assert_eq!(rangeset.ranges(), want);
}

#[test]
fn test_rangeset_insert() {
    let mut rangeset = RangeSet::new();

    rangeset.insert(Range::new(61, 70).unwrap()).unwrap();
    rangeset.insert(Range::new(45, 55).unwrap()).unwrap();
    rangeset.insert(Range::new(40, 50).unwrap()).unwrap();
    rangeset.insert(Range::new(35, 60).unwrap()).unwrap();

    rangeset.insert(Range::new(0, 5).unwrap()).unwrap();
    rangeset.insert(Range::new(10, 20).unwrap()).unwrap();
    rangeset.insert(Range::new(5, 10).unwrap()).unwrap();
    rangeset.insert(Range::new(20, 21).unwrap()).unwrap();
    rangeset.insert(Range::new(21, 30).unwrap()).unwrap();

    let want = [Range::new(0, 30).unwrap(), Range::new(35, 70).unwrap()];

    assert_eq!(rangeset.ranges(), want);
}

#[test]
fn test_rangeset_insert_full() {
    let mut rangeset = RangeSet::new();

    for i in 0..RANGE_SET_LEN {
        let point = 2 * (i as u64);
        rangeset.insert(Range::new(point, point).unwrap()).unwrap();
    }
}

#[test]
fn test_rangeset_insert_full_middle() {
    let mut rangeset = RangeSet::new();

    for i in 0..RANGE_SET_LEN - 1 {
        let point = 10 * (i as u64);
        rangeset.insert(Range::new(point, point).unwrap()).unwrap();
    }

    rangeset.insert(Range::new(5, 5).unwrap()).unwrap();
}

#[test]
fn test_rangeset_insert_full_plus_one() {
    let mut rangeset = RangeSet::new();

    for i in 0..RANGE_SET_LEN {
        let point = 2 * (i as u64);
        rangeset.insert(Range::new(point, point).unwrap()).unwrap();
    }

    match rangeset.insert(Range::new(1337, 1337).unwrap()) {
        Err(Error::FullRangeSet) => {}
        ret => panic!("unexpected result: {:?}", ret),
    }
}

#[test]
fn test_rangeset_insert_full_reuse() {
    let mut rangeset = RangeSet::new();

    for i in 0..RANGE_SET_LEN {
        let point = 2 * (i as u64);
        rangeset.insert(Range::new(point, point).unwrap()).unwrap();
    }

    rangeset.insert(Range::new(0, 1337).unwrap()).unwrap()
}

#[test]
fn test_rangeset_remove_empty() {
    let mut rangeset = RangeSet::new();

    rangeset.remove(Range::new(20, 30).unwrap()).unwrap();

    assert_eq!(rangeset.ranges(), []);
}

#[test]
fn test_rangeset_remove_unmodified() {
    let mut rangeset = RangeSet::new();

    rangeset.insert(Range::new(20, 30).unwrap()).unwrap();
    rangeset.insert(Range::new(40, 50).unwrap()).unwrap();

    rangeset.remove(Range::new(0, 19).unwrap()).unwrap();

    let want = [Range::new(20, 30).unwrap(), Range::new(40, 50).unwrap()];
    assert_eq!(rangeset.ranges(), want);
}

#[test]
fn test_rangeset_remove_one() {
    // Starting at the start point and finishing at the end point of the
    // removed range.
    let mut rangeset = RangeSet::new();
    rangeset.insert(Range::new(0, 10).unwrap()).unwrap();
    rangeset.insert(Range::new(20, 30).unwrap()).unwrap();
    rangeset.insert(Range::new(40, 50).unwrap()).unwrap();

    rangeset.remove(Range::new(20, 30).unwrap()).unwrap();

    let want = [Range::new(0, 10).unwrap(), Range::new(40, 50).unwrap()];
    assert_eq!(rangeset.ranges(), want);

    // Starting before the start point and finishing after the end point of
    // the removed range.
    let mut rangeset = RangeSet::new();
    rangeset.insert(Range::new(0, 10).unwrap()).unwrap();
    rangeset.insert(Range::new(20, 30).unwrap()).unwrap();
    rangeset.insert(Range::new(40, 50).unwrap()).unwrap();

    rangeset.remove(Range::new(18, 32).unwrap()).unwrap();

    let want = [Range::new(0, 10).unwrap(), Range::new(40, 50).unwrap()];
    assert_eq!(rangeset.ranges(), want);
}

#[test]
fn test_rangeset_remove_split() {
    let mut rangeset = RangeSet::new();
    rangeset.insert(Range::new(0, 20).unwrap()).unwrap();

    rangeset.remove(Range::new(6, 14).unwrap()).unwrap();

    let want = [Range::new(0, 5).unwrap(), Range::new(15, 20).unwrap()];
    assert_eq!(rangeset.ranges(), want);
}

#[test]
fn test_rangeset_remove_split_left() {
    // Starting at the start and finishing at the middle of the modified
    // range.
    let mut rangeset = RangeSet::new();
    rangeset.insert(Range::new(0, 20).unwrap()).unwrap();

    rangeset.remove(Range::new(0, 4).unwrap()).unwrap();

    let want = [Range::new(5, 20).unwrap()];
    assert_eq!(rangeset.ranges(), want);

    // Starting before the start and finishing at the middle of the
    // modified range.
    let mut rangeset = RangeSet::new();
    rangeset.insert(Range::new(10, 20).unwrap()).unwrap();

    rangeset.remove(Range::new(0, 10).unwrap()).unwrap();

    let want = [Range::new(11, 20).unwrap()];
    assert_eq!(rangeset.ranges(), want);
}

#[test]
fn test_rangeset_remove_split_right() {
    // Starting at the middle and finishing at the end of the modified
    // range.
    let mut rangeset = RangeSet::new();
    rangeset.insert(Range::new(0, 20).unwrap()).unwrap();

    rangeset.remove(Range::new(16, 20).unwrap()).unwrap();

    let want = [Range::new(0, 15).unwrap()];
    assert_eq!(rangeset.ranges(), want);

    // Starting at the middle and finishing after the end of the modified
    // range.
    let mut rangeset = RangeSet::new();
    rangeset.insert(Range::new(0, 20).unwrap()).unwrap();

    rangeset.remove(Range::new(16, 25).unwrap()).unwrap();

    let want = [Range::new(0, 15).unwrap()];
    assert_eq!(rangeset.ranges(), want);
}

#[test]
fn test_rangeset_remove_overlapped_two() {
    let mut rangeset = RangeSet::new();
    rangeset.insert(Range::new(0, 10).unwrap()).unwrap();
    rangeset.insert(Range::new(20, 30).unwrap()).unwrap();

    rangeset.remove(Range::new(6, 24).unwrap()).unwrap();

    let want = [Range::new(0, 5).unwrap(), Range::new(25, 30).unwrap()];
    assert_eq!(rangeset.ranges(), want);
}

#[test]
fn test_rangeset_remove_overlapped_three() {
    let mut rangeset = RangeSet::new();
    rangeset.insert(Range::new(0, 10).unwrap()).unwrap();
    rangeset.insert(Range::new(20, 30).unwrap()).unwrap();
    rangeset.insert(Range::new(40, 50).unwrap()).unwrap();

    rangeset.remove(Range::new(6, 44).unwrap()).unwrap();

    let want = [Range::new(0, 5).unwrap(), Range::new(45, 50).unwrap()];
    assert_eq!(rangeset.ranges(), want);
}

#[test]
fn test_rangeset_remove_one_plus_overlap() {
    // Starting at the start point of the first range.
    let mut rangeset = RangeSet::new();
    rangeset.insert(Range::new(20, 30).unwrap()).unwrap();
    rangeset.insert(Range::new(40, 50).unwrap()).unwrap();

    rangeset.remove(Range::new(20, 44).unwrap()).unwrap();

    let want = [Range::new(45, 50).unwrap()];
    assert_eq!(rangeset.ranges(), want);

    // Starting before the start point of the first range.
    let mut rangeset = RangeSet::new();
    rangeset.insert(Range::new(20, 30).unwrap()).unwrap();
    rangeset.insert(Range::new(40, 50).unwrap()).unwrap();

    rangeset.remove(Range::new(18, 44).unwrap()).unwrap();

    let want = [Range::new(45, 50).unwrap()];
    assert_eq!(rangeset.ranges(), want);
}

#[test]
fn test_rangeset_remove_all() {
    // Starting at the start point of the first range and finishing at the
    // end point of the last range.
    let mut rangeset = RangeSet::new();
    rangeset.insert(Range::new(20, 30).unwrap()).unwrap();
    rangeset.insert(Range::new(40, 50).unwrap()).unwrap();

    rangeset.remove(Range::new(20, 50).unwrap()).unwrap();

    assert_eq!(rangeset.ranges(), []);

    // Starting before the start point of the first range and finishing
    // after the end point of the last range.
    let mut rangeset = RangeSet::new();
    rangeset.insert(Range::new(20, 30).unwrap()).unwrap();
    rangeset.insert(Range::new(40, 50).unwrap()).unwrap();

    rangeset.remove(Range::new(18, 52).unwrap()).unwrap();

    assert_eq!(rangeset.ranges(), []);
}

#[test]
fn test_rangeset_remove_full_split() {
    let mut rangeset = RangeSet::new();

    for i in 0..RANGE_SET_LEN {
        let point = 10 * (i as u64);
        rangeset
            .insert(Range::new(point, point + 5).unwrap())
            .unwrap();
    }

    match rangeset.remove(Range::new(12, 13).unwrap()) {
        Err(Error::FullRangeSet) => {}
        ret => panic!("unexpected result: {:?}", ret),
    }
}

#[test]
fn test_rangeset_remove_full() {
    let mut rangeset = RangeSet::new();

    for i in 0..RANGE_SET_LEN - 1 {
        let point = 10 * (i as u64);
        rangeset
            .insert(Range::new(point, point + 5).unwrap())
            .unwrap();
    }

    rangeset.remove(Range::new(12, 13).unwrap()).unwrap();
}

#[test]
fn test_rangeset_remove_edges() {
    // Remove right part of the range.
    let mut rangeset = RangeSet::new();
    rangeset.insert(Range::new(0, 10).unwrap()).unwrap();

    rangeset.remove(Range::new(1, 10).unwrap()).unwrap();

    let want = [Range::new(0, 0).unwrap()];
    assert_eq!(rangeset.ranges(), want);

    // Remove left part of the range.
    let mut rangeset = RangeSet::new();
    rangeset.insert(Range::new(0, 10).unwrap()).unwrap();

    rangeset.remove(Range::new(0, 9).unwrap()).unwrap();

    let want = [Range::new(10, 10).unwrap()];
    assert_eq!(rangeset.ranges(), want);

    // Remove central part of the range.
    let mut rangeset = RangeSet::new();
    rangeset.insert(Range::new(0, 10).unwrap()).unwrap();

    rangeset.remove(Range::new(1, 9).unwrap()).unwrap();

    let want = [Range::new(0, 0).unwrap(), Range::new(10, 10).unwrap()];
    assert_eq!(rangeset.ranges(), want);

    // Remove central part of multiple ranges.
    let mut rangeset = RangeSet::new();
    rangeset.insert(Range::new(0, 10).unwrap()).unwrap();
    rangeset.insert(Range::new(20, 30).unwrap()).unwrap();
    rangeset.insert(Range::new(40, 50).unwrap()).unwrap();

    rangeset.remove(Range::new(1, 49).unwrap()).unwrap();

    let want = [Range::new(0, 0).unwrap(), Range::new(50, 50).unwrap()];
    assert_eq!(rangeset.ranges(), want);
}

fn range(start: u64, end: u64) -> Range {
    Range::new(start, end).unwrap()
}

fn full_set(step: u64, width: u64) -> RangeSet {
    let mut rangeset = RangeSet::new();
    for i in 0..RANGE_SET_LEN {
        let point = step * (i as u64);
        rangeset.insert(range(point, point + width)).unwrap();
    }
    rangeset
}

#[test]
fn test_range_new_checks_boundaries() {
    assert_eq!(Range::new(3, 7).unwrap().start(), 3);
    assert_eq!(Range::new(3, 7).unwrap().end(), 7);
    assert!(Range::new(7, 7).is_ok());
    assert!(matches!(Range::new(8, 7), Err(Error::InvalidBoundaries)));
    assert_eq!(Range::default(), range(0, 0));
}

#[test]
fn test_range_contains_and_overlaps() {
    let r = range(10, 20);
    assert!(r.contains_point(10));
    assert!(r.contains_point(20));
    assert!(!r.contains_point(9));
    assert!(!r.contains_point(21));
    assert!(r.contains_range(range(10, 20)));
    assert!(r.contains_range(range(12, 13)));
    assert!(!r.contains_range(range(9, 13)));
    assert!(!r.contains_range(range(12, 21)));
    assert!(r.overlaps(range(0, 10)));
    assert!(r.overlaps(range(20, 30)));
    assert!(r.overlaps(range(0, 30)));
    assert!(r.overlaps(range(12, 13)));
    assert!(!r.overlaps(range(0, 9)));
    assert!(!r.overlaps(range(21, 30)));
}

#[test]
fn test_range_size() {
    assert_eq!(range(0, 0).size(), 1);
    assert_eq!(range(10, 20).size(), 11);
    assert_eq!(range(1, u64::MAX).size(), u64::MAX);
}

#[test]
fn test_rangeset_size_is_sum_of_lengths() {
    let mut rangeset = RangeSet::default();
    assert_eq!(rangeset.size(), 0);
    rangeset.insert(range(0, 10)).unwrap();
    rangeset.insert(range(20, 30)).unwrap();
    rangeset.insert(range(100, 100)).unwrap();
    assert_eq!(rangeset.size(), 11 + 11 + 1);
    rangeset.remove(range(5, 24)).unwrap();
    assert_eq!(rangeset.ranges(), [range(0, 4), range(25, 30), range(100, 100)]);
    assert_eq!(rangeset.size(), 5 + 6 + 1);
}

#[test]
fn test_rangeset_stays_sorted_and_apart() {
    let mut rangeset = RangeSet::new();
    let mut seed: u64 = 12345;
    for _ in 0..500 {
        seed = seed.wrapping_mul(6364136223846793005).wrapping_add(1442695040888963407);
        let start = (seed >> 33) % 2000;
        let len = (seed >> 20) % 7;
        let _ = rangeset.insert(range(start, start + len));
        let ranges = rangeset.ranges();
        assert!(ranges.len() <= RANGE_SET_LEN);
        for r in ranges {
            assert!(r.start() <= r.end());
        }
        for pair in ranges.windows(2) {
            assert!(pair[0].end() + 1 < pair[1].start());
        }
    }
}

#[test]
fn test_rangeset_insert_is_idempotent() {
    let mut once = RangeSet::new();
    once.insert(range(0, 10)).unwrap();
    once.insert(range(20, 30)).unwrap();
    once.insert(range(8, 22)).unwrap();
    let mut twice = RangeSet::new();
    twice.insert(range(0, 10)).unwrap();
    twice.insert(range(20, 30)).unwrap();
    twice.insert(range(8, 22)).unwrap();
    twice.insert(range(8, 22)).unwrap();
    assert_eq!(once.ranges(), twice.ranges());
    assert_eq!(twice.ranges(), [range(0, 30)]);
}

#[test]
fn test_rangeset_insert_twice_into_full_set() {
    let mut rangeset = full_set(10, 5);
    let before = rangeset.ranges().to_vec();
    // Held already, but the set has no room for an entry from 12 on.
    assert!(matches!(rangeset.insert(range(12, 13)), Err(Error::FullRangeSet)));
    assert_eq!(rangeset.ranges(), before);
}

#[test]
fn test_rangeset_remove_inverts_insert() {
    let mut rangeset = RangeSet::new();
    rangeset.insert(range(7, 9000)).unwrap();
    assert_eq!(rangeset.ranges(), [range(7, 9000)]);
    rangeset.remove(range(7, 9000)).unwrap();
    assert_eq!(rangeset.ranges(), []);
    assert_eq!(rangeset.size(), 0);
}

#[test]
fn test_rangeset_failed_insert_changes_nothing() {
    let mut rangeset = full_set(2, 0);
    let before = rangeset.ranges().to_vec();
    assert!(matches!(rangeset.insert(range(1337, 1337)), Err(Error::FullRangeSet)));
    assert_eq!(rangeset.ranges(), before);
    // Overlapping an entry is no help where the start point is new.
    assert!(matches!(rangeset.insert(range(1, 2)), Err(Error::FullRangeSet)));
    assert_eq!(rangeset.ranges(), before);
    assert_eq!(rangeset.size(), RANGE_SET_LEN as u64);
}

#[test]
fn test_rangeset_failed_remove_changes_nothing() {
    let mut rangeset = full_set(10, 5);
    let before = rangeset.ranges().to_vec();
    assert!(matches!(rangeset.remove(range(12, 13)), Err(Error::FullRangeSet)));
    assert_eq!(rangeset.ranges(), before);
    assert_eq!(rangeset.size(), 6 * RANGE_SET_LEN as u64);
}

#[test]
fn test_rangeset_full_set_merges_and_shrinks() {
    let mut rangeset = full_set(2, 0);
    rangeset.insert(range(0, 1337)).unwrap();
    assert_eq!(rangeset.ranges(), [range(0, 1337)]);
    let mut rangeset = full_set(10, 5);
    rangeset.remove(range(10, 1265)).unwrap();
    assert_eq!(rangeset.ranges(), [range(0, 5), range(1270, 1275)]);
}

#[test]
fn test_rangeset_at_the_last_address() {
    let mut rangeset = RangeSet::new();
    rangeset.insert(range(u64::MAX, u64::MAX)).unwrap();
    rangeset.insert(range(0, 5)).unwrap();
    assert_eq!(rangeset.ranges(), [range(0, 5), range(u64::MAX, u64::MAX)]);
    rangeset.insert(range(6, u64::MAX - 1)).unwrap();
    assert_eq!(rangeset.ranges(), [range(0, u64::MAX)]);
    rangeset.insert(range(3, u64::MAX)).unwrap();
    assert_eq!(rangeset.ranges(), [range(0, u64::MAX)]);
    rangeset.remove(range(1, u64::MAX - 1)).unwrap();
    assert_eq!(rangeset.ranges(), [range(0, 0), range(u64::MAX, u64::MAX)]);
    assert_eq!(rangeset.size(), 2);
    rangeset.remove(range(0, u64::MAX)).unwrap();
    assert_eq!(rangeset.ranges(), []);
}

#[test]
fn test_rangeset_remove_leaves_no_touching_entries() {
    let mut rangeset = RangeSet::new();
    rangeset.insert(range(0, 100)).unwrap();
    rangeset.remove(range(50, 50)).unwrap();
    assert_eq!(rangeset.ranges(), [range(0, 49), range(51, 100)]);
    rangeset.remove(range(49, 51)).unwrap();
    assert_eq!(rangeset.ranges(), [range(0, 48), range(52, 100)]);
    rangeset.insert(range(49, 51)).unwrap();
    assert_eq!(rangeset.ranges(), [range(0, 100)]);
}
