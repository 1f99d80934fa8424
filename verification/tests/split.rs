use slpk_unpack::split_indices::split_indices_into_ranges;

fn assert_partition(num_items: usize, num_ranges: usize) {
    let ranges = split_indices_into_ranges(num_items, num_ranges);
    assert_eq!(ranges.len(), num_ranges);
    assert_eq!(ranges[0].0, 0);
    assert_eq!(ranges[num_ranges - 1].1, num_items);
    let short = num_items / num_ranges;
    let mut seen = vec![0usize; num_items];
    for (i, range) in ranges.iter().enumerate() {
        assert!(range.0 <= range.1);
        if i + 1 < num_ranges {
            assert_eq!(range.1, ranges[i + 1].0);
            assert!(range.1 - range.0 >= ranges[i + 1].1 - ranges[i + 1].0);
        }
        let len = range.1 - range.0;
        assert!(len == short || len == short + 1);
        for item in range.0..range.1 {
            seen[item] += 1;
        }
    }
    assert!(seen.iter().all(|&times| times == 1));
}

#[test]
fn split_ten_over_three() {
    assert_eq!(split_indices_into_ranges(10, 3), vec![(0, 4), (4, 7), (7, 10)]);
}

#[test]
fn split_eleven_over_four() {
    assert_eq!(split_indices_into_ranges(11, 4), vec![(0, 3), (3, 6), (6, 9), (9, 11)]);
}

#[test]
fn split_even() {
    assert_eq!(split_indices_into_ranges(12, 4), vec![(0, 3), (3, 6), (6, 9), (9, 12)]);
}

#[test]
fn split_fewer_items_than_ranges() {
    assert_eq!(split_indices_into_ranges(2, 5), vec![(0, 1), (1, 2), (2, 2), (2, 2), (2, 2)]);
}

#[test]
fn split_nothing() {
    assert_eq!(split_indices_into_ranges(0, 1), vec![(0, 0)]);
    assert_eq!(split_indices_into_ranges(0, 4), vec![(0, 0), (0, 0), (0, 0), (0, 0)]);
}

#[test]
fn split_into_one_range() {
    assert_eq!(split_indices_into_ranges(1, 1), vec![(0, 1)]);
    assert_eq!(split_indices_into_ranges(37, 1), vec![(0, 37)]);
    assert_eq!(split_indices_into_ranges(usize::MAX, 1), vec![(0, usize::MAX)]);
}

#[test]
fn split_largest_count() {
    let ranges = split_indices_into_ranges(usize::MAX, 2);
    assert_eq!(ranges, vec![(0, usize::MAX / 2 + 1), (usize::MAX / 2 + 1, usize::MAX)]);
}

#[test]
fn split_partitions_small_counts() {
    for num_items in 0..40 {
        for num_ranges in 1..12 {
            assert_partition(num_items, num_ranges);
        }
    }
}
