use binary_search::{binary_search, exponential_search};

#[test]
fn binary_search_finds_every_element_of_a_strictly_rising_slice() {
    let v: Vec<u32> = vec![2, 3, 5, 7, 11, 13, 17, 19, 23];
    for (i, &x) in v.iter().enumerate() {
        assert_eq!(binary_search(&v[..], x), Some(i));
    }
}

#[test]
fn binary_search_is_absent_exactly_for_missing_keys() {
    let v: Vec<u32> = vec![2, 3, 5, 7, 11, 13, 17, 19, 23];
    for key in 0u32..30 {
        let expected = v.iter().position(|&x| x == key);
        assert_eq!(binary_search(&v[..], key), expected);
    }
}

#[test]
fn binary_search_returns_the_lowest_of_equal_elements() {
    let v: Vec<i64> = vec![-4, -4, 0, 0, 0, 0, 9, 9, 9, 9, 9];
    assert_eq!(binary_search(&v[..], -4), Some(0));
    assert_eq!(binary_search(&v[..], 0), Some(2));
    assert_eq!(binary_search(&v[..], 9), Some(6));
    let same: Vec<u8> = vec![7; 16];
    assert_eq!(binary_search(&same[..], 7), Some(0));
}

#[test]
fn binary_search_on_empty_and_single_slices() {
    let empty: Vec<u64> = Vec::new();
    assert_eq!(binary_search(&empty[..], 1), None);
    let one: Vec<u64> = vec![4];
    assert_eq!(binary_search(&one[..], 4), Some(0));
    assert_eq!(binary_search(&one[..], 3), None);
    assert_eq!(binary_search(&one[..], 5), None);
}

#[test]
fn binary_search_scenarios_on_nine_numbers() {
    let v = vec![0, 1, 2, 3, 4, 6, 7, 8, 9];
    assert_eq!(binary_search(&v[..], 5), None);
    assert_eq!(binary_search(&v[..], 3), Some(3));
    let d = vec![1, 1, 1, 2, 2, 2, 3, 3, 3];
    assert_eq!(binary_search(&d[..], 2), Some(3));
}

#[test]
fn exponential_search_on_empty_and_single_slices() {
    let empty: Vec<u64> = Vec::new();
    assert_eq!(exponential_search(&empty[..], 1), None);
    let one: Vec<u64> = vec![4];
    assert_eq!(exponential_search(&one[..], 4), Some(0));
    assert_eq!(exponential_search(&one[..], 3), None);
    assert_eq!(exponential_search(&one[..], 5), None);
}

#[test]
fn exponential_search_agrees_with_binary_search() {
    for len in 0usize..40 {
        let v: Vec<usize> = (0..len).map(|i| 3 * i + 1).collect();
        for key in 0usize..(3 * len + 3) {
            assert_eq!(exponential_search(&v[..], key), binary_search(&v[..], key));
        }
    }
}

#[test]
fn exponential_search_agrees_on_repeated_elements_past_the_front() {
    let v: Vec<u16> = vec![1, 2, 2, 2, 5, 5, 5, 5, 5, 8, 8, 9, 9, 9, 9, 9, 9, 12];
    for key in 0u16..14 {
        assert_eq!(exponential_search(&v[..], key), binary_search(&v[..], key));
    }
    assert_eq!(exponential_search(&v[..], 2), Some(1));
    assert_eq!(exponential_search(&v[..], 5), Some(4));
    assert_eq!(exponential_search(&v[..], 8), Some(9));
    assert_eq!(exponential_search(&v[..], 9), Some(11));
}

#[test]
fn exponential_search_returns_the_lowest_of_equal_elements_at_the_front() {
    let v: Vec<u8> = vec![5, 5];
    assert_eq!(exponential_search(&v[..], 5), Some(0));
    assert_eq!(binary_search(&v[..], 5), Some(0));
    let w: Vec<u8> = vec![5, 5, 5, 5, 7];
    assert_eq!(exponential_search(&w[..], 5), Some(0));
    let x: Vec<u8> = vec![4, 5, 5, 5, 7];
    assert_eq!(exponential_search(&x[..], 5), Some(1));
    assert_eq!(exponential_search(&x[..], 4), Some(0));
    let d = vec![1, 1, 1, 2, 2, 2, 3, 3, 3];
    assert_eq!(exponential_search(&d[..], 1), Some(0));
    assert_eq!(exponential_search(&d[..], 2), Some(3));
    assert_eq!(exponential_search(&d[..], 3), Some(6));
}

#[test]
fn exponential_search_agrees_with_binary_search_on_every_run_of_equals() {
    for len in 0usize..24 {
        for run in 1usize..5 {
            let v: Vec<usize> = (0..len).map(|i| i / run).collect();
            for key in 0usize..(len + 2) {
                let expected = v.iter().position(|&x| x == key);
                assert_eq!(binary_search(&v[..], key), expected);
                assert_eq!(exponential_search(&v[..], key), expected);
            }
        }
    }
}

#[test]
fn an_index_answered_on_an_unsorted_slice_holds_the_key() {
    let v: Vec<u32> = vec![9, 3, 7, 3, 1, 8, 8, 2, 6, 0, 5, 4, 3];
    for key in 0u32..11 {
        if let Some(i) = binary_search(&v[..], key) {
            assert!(i < v.len());
            assert_eq!(v[i], key);
        }
        if let Some(i) = exponential_search(&v[..], key) {
            assert!(i < v.len());
            assert_eq!(v[i], key);
        }
    }
}

#[test]
fn searches_work_on_strings() {
    let v = vec!["ant", "bee", "bee", "cat", "dog", "eel", "fox"];
    assert_eq!(binary_search(&v[..], "bee"), Some(1));
    assert_eq!(exponential_search(&v[..], "bee"), Some(1));
    assert_eq!(binary_search(&v[..], "fox"), Some(6));
    assert_eq!(exponential_search(&v[..], "fox"), Some(6));
    assert_eq!(binary_search(&v[..], "cow"), None);
    assert_eq!(exponential_search(&v[..], "cow"), None);
}
