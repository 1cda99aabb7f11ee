use rtrb::position::{collapse_position, distance, increment, increment1, split_lengths};

#[test]
fn collapse_maps_both_halves_to_the_slots() {
    assert_eq!(collapse_position(3, 0), 0);
    assert_eq!(collapse_position(3, 2), 2);
    assert_eq!(collapse_position(3, 3), 0);
    assert_eq!(collapse_position(3, 5), 2);
    assert_eq!(collapse_position(0, 0), 0);
}

#[test]
fn increment_wraps_at_twice_the_capacity() {
    assert_eq!(increment(3, 0, 0), 0);
    assert_eq!(increment(3, 0, 3), 3);
    assert_eq!(increment(3, 3, 2), 5);
    assert_eq!(increment(3, 3, 3), 0);
    assert_eq!(increment(3, 5, 2), 1);
    assert_eq!(increment(3, 5, 1), 0);
    assert_eq!(increment(0, 0, 0), 0);
}

#[test]
fn increment_by_one_agrees_with_increment() {
    for capacity in 1..5usize {
        for pos in 0..2 * capacity {
            assert_eq!(increment1(capacity, pos), increment(capacity, pos, 1));
        }
    }
    assert_eq!(increment1(2, 3), 0);
    assert_eq!(increment1(2, 2), 3);
}

#[test]
fn distance_counts_forward_through_the_wrap() {
    assert_eq!(distance(3, 0, 0), 0);
    assert_eq!(distance(3, 0, 3), 3);
    assert_eq!(distance(3, 1, 4), 3);
    assert_eq!(distance(3, 4, 1), 3);
    assert_eq!(distance(3, 5, 0), 1);
    assert_eq!(distance(3, 5, 2), 3);
    assert_eq!(distance(0, 0, 0), 0);
}

#[test]
fn distance_undoes_increment() {
    for capacity in 0..5usize {
        for pos in 0..(2 * capacity).max(1) {
            for n in 0..=capacity {
                assert_eq!(distance(capacity, pos, increment(capacity, pos, n)), n);
            }
        }
    }
}

#[test]
fn chunks_split_where_the_storage_ends() {
    assert_eq!(split_lengths(3, 1, 3), (2, 1));
    assert_eq!(split_lengths(3, 4, 3), (2, 1));
    assert_eq!(split_lengths(3, 0, 3), (3, 0));
    assert_eq!(split_lengths(3, 2, 1), (1, 0));
    assert_eq!(split_lengths(3, 2, 2), (1, 1));
    assert_eq!(split_lengths(3, 2, 0), (0, 0));
    assert_eq!(split_lengths(0, 0, 0), (0, 0));
}
