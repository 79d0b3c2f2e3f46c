use binary_search::select_intervals;
use binary_search::spacing::{last_end, next_in_interval, spacing_is_feasible, total_capacity};

#[test]
fn select_intervals_scenarios() {
    assert_eq!(select_intervals(&mut vec![(0, 0), (1, 4)], 6), None);
    assert_eq!(select_intervals(&mut vec![(0, 0), (1, 5)], 6), Some(1));
    assert_eq!(
        select_intervals(&mut vec![(0, 2), (4, 7), (9, 9)], 5),
        Some(2)
    );
}

#[test]
fn select_intervals_sorts_its_argument() {
    let mut v = vec![(9, 9), (4, 7), (0, 2)];
    assert_eq!(select_intervals(&mut v, 5), Some(2));
    assert_eq!(v, vec![(0, 2), (4, 7), (9, 9)]);
    let mut w = vec![(3, 8), (3, 5), (0, 1), (3, 3)];
    let _ = select_intervals(&mut w, 2);
    assert_eq!(w, vec![(0, 1), (3, 3), (3, 5), (3, 8)]);
}

#[test]
fn select_intervals_sorts_even_without_a_solution() {
    let mut v = vec![(5, 6), (0, 1)];
    assert_eq!(select_intervals(&mut v, 9), None);
    assert_eq!(v, vec![(0, 1), (5, 6)]);
}

#[test]
fn select_intervals_for_each_count_on_three_intervals() {
    let expected = [
        Some(8),
        Some(8),
        Some(9),
        Some(4),
        Some(2),
        Some(2),
        Some(1),
        Some(1),
        Some(1),
        None,
        None,
    ];
    for (c, want) in expected.iter().enumerate() {
        assert_eq!(
            select_intervals(&mut vec![(4, 7), (9, 9), (0, 2)], c),
            *want
        );
    }
}

#[test]
fn select_intervals_has_a_solution_exactly_up_to_the_capacity() {
    let intervals = vec![(10, 12), (0, 3), (20, 20), (14, 18)];
    let capacity = 3 + 4 + 1 + 5;
    for c in 0usize..20 {
        let found = select_intervals(&mut intervals.clone(), c);
        assert_eq!(found.is_none(), capacity < c);
    }
    assert_eq!(select_intervals(&mut intervals.clone(), capacity), Some(1));
}

#[test]
fn select_intervals_single_interval() {
    assert_eq!(select_intervals(&mut vec![(3, 7)], 5), Some(1));
    assert_eq!(select_intervals(&mut vec![(3, 7)], 6), None);
    assert_eq!(select_intervals(&mut vec![(3, 7)], 3), Some(2));
    assert_eq!(select_intervals(&mut vec![(3, 7)], 2), Some(4));
    assert_eq!(select_intervals(&mut vec![(3, 7)], 1), Some(5));
    assert_eq!(select_intervals(&mut vec![(0, 100)], 11), Some(10));
    assert_eq!(select_intervals(&mut vec![(0, 100)], 12), Some(9));
}

#[test]
fn select_intervals_reaches_across_gaps() {
    assert_eq!(select_intervals(&mut vec![(0, 0), (100, 100)], 2), Some(100));
    assert_eq!(select_intervals(&mut vec![(100, 100), (0, 0)], 2), Some(100));
    assert_eq!(select_intervals(&mut vec![(0, 0), (100, 100)], 3), None);
    assert_eq!(select_intervals(&mut vec![(0, 2), (50, 50), (98, 100)], 3), Some(50));
    assert_eq!(select_intervals(&mut vec![(0, 2), (50, 50), (98, 100)], 2), Some(100));
    assert_eq!(select_intervals(&mut vec![(0, 2), (51, 51), (98, 100)], 3), Some(49));
    assert_eq!(
        select_intervals(&mut vec![(0, 0), (usize::MAX, usize::MAX)], 2),
        Some(usize::MAX)
    );
}

#[test]
fn select_intervals_of_one_point_or_none_is_the_capacity() {
    assert_eq!(select_intervals(&mut vec![(0, 0), (100, 100)], 1), Some(2));
    assert_eq!(select_intervals(&mut vec![(0, 0), (100, 100)], 0), Some(2));
    assert_eq!(select_intervals(&mut vec![(7, 9)], 1), Some(3));
    assert_eq!(select_intervals(&mut vec![(7, 9)], 0), Some(3));
}

#[test]
fn select_intervals_of_intervals_on_one_position() {
    assert_eq!(select_intervals(&mut vec![(4, 4), (4, 4)], 2), None);
    assert_eq!(select_intervals(&mut vec![(4, 4), (4, 4)], 1), Some(2));
}

#[test]
fn select_intervals_counts_shared_positions_once() {
    assert_eq!(select_intervals(&mut vec![(0, 5), (0, 5)], 12), None);
    assert_eq!(select_intervals(&mut vec![(0, 5), (0, 5)], 7), None);
    assert_eq!(select_intervals(&mut vec![(0, 5), (0, 5)], 6), Some(1));
    assert_eq!(select_intervals(&mut vec![(0, 5), (2, 9)], 4), Some(3));
}

#[test]
fn select_intervals_of_no_intervals() {
    let mut none: Vec<(usize, usize)> = Vec::new();
    assert_eq!(select_intervals(&mut none, 0), None);
    assert_eq!(select_intervals(&mut none, 1), None);
    assert!(none.is_empty());
}

#[test]
fn the_selected_spacing_is_feasible_and_the_next_is_not() {
    let intervals = vec![(2, 6), (8, 8), (11, 19), (25, 30)];
    let capacity = total_capacity(&intervals);
    assert_eq!(capacity, 21);
    for c in 0usize..=21 {
        let d = select_intervals(&mut intervals.clone(), c).unwrap();
        assert!(1 <= d);
        assert!(spacing_is_feasible(&intervals, c, d));
        if c >= 2 {
            assert!(!spacing_is_feasible(&intervals, c, d + 1));
            assert!(d <= last_end(&intervals) - intervals[0].0);
        } else {
            assert_eq!(d, capacity);
        }
        for narrower in 1..d {
            assert!(spacing_is_feasible(&intervals, c, narrower));
        }
    }
}

#[test]
fn last_end_is_the_largest_end() {
    assert_eq!(last_end(&Vec::new()), 0);
    assert_eq!(last_end(&vec![(3, 4)]), 4);
    assert_eq!(last_end(&vec![(0, 9), (2, 3), (5, 7)]), 9);
    assert_eq!(last_end(&vec![(0, 2), (4, 7), (9, 9)]), 9);
    assert_eq!(last_end(&vec![(0, usize::MAX), (1, 1)]), usize::MAX);
}

#[test]
fn total_capacity_adds_up_the_lengths() {
    assert_eq!(total_capacity(&Vec::new()), 0);
    assert_eq!(total_capacity(&vec![(0, 0)]), 1);
    assert_eq!(total_capacity(&vec![(0, 2), (4, 7), (9, 9)]), 8);
    assert_eq!(total_capacity(&vec![(0, 5), (0, 5)]), 12);
    assert_eq!(total_capacity(&vec![(usize::MAX - 1, usize::MAX)]), 2);
}

#[test]
fn spacing_is_feasible_counts_the_greedy_points() {
    let intervals = vec![(0, 2), (4, 7), (9, 9)];
    assert!(spacing_is_feasible(&intervals, 8, 1));
    assert!(!spacing_is_feasible(&intervals, 9, 1));
    assert!(spacing_is_feasible(&intervals, 5, 2));
    assert!(!spacing_is_feasible(&intervals, 6, 2));
    assert!(spacing_is_feasible(&intervals, 3, 3));
    assert!(spacing_is_feasible(&intervals, 3, 4));
    assert!(!spacing_is_feasible(&intervals, 3, 5));
    assert!(spacing_is_feasible(&intervals, 2, 9));
    assert!(!spacing_is_feasible(&intervals, 2, 10));
    assert!(spacing_is_feasible(&intervals, 1, usize::MAX));
    assert!(spacing_is_feasible(&intervals, 0, usize::MAX));
}

#[test]
fn next_in_interval_is_the_first_position_far_enough() {
    assert_eq!(next_in_interval((4, 7), 0, 2), Some(4));
    assert_eq!(next_in_interval((4, 7), 4, 2), Some(6));
    assert_eq!(next_in_interval((4, 7), 6, 2), None);
    assert_eq!(next_in_interval((4, 7), 6, 1), Some(7));
    assert_eq!(next_in_interval((4, 7), 7, 1), None);
    assert_eq!(next_in_interval((4, 7), 9, 1), None);
    assert_eq!(next_in_interval((4, 7), 0, 7), Some(7));
    assert_eq!(next_in_interval((4, 7), 0, 8), None);
    assert_eq!(next_in_interval((4, 7), 3, usize::MAX), None);
    assert_eq!(next_in_interval((4, usize::MAX), 5, usize::MAX - 5), Some(usize::MAX));
}
