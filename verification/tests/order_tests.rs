use herdr_quicknotes::order::sort_desc_stable;

#[test]
fn sorts_largest_key_first() {
    let items = vec![(1i128, 'a'), (5, 'b'), (3, 'c'), (9, 'd'), (-2, 'e')];
    let sorted = sort_desc_stable(items);
    assert_eq!(sorted, vec![(9, 'd'), (5, 'b'), (3, 'c'), (1, 'a'), (-2, 'e')]);
}

#[test]
fn equal_keys_keep_their_order() {
    let items = vec![(2i128, 1), (3, 2), (2, 3), (3, 4), (2, 5)];
    let sorted = sort_desc_stable(items);
    assert_eq!(sorted, vec![(3, 2), (3, 4), (2, 1), (2, 3), (2, 5)]);
}

#[test]
fn agrees_with_std_stable_sort() {
    let keys = [4i128, 1, 4, 0, 7, 1, 1, 9, 4, 0, 3, 3];
    let items: Vec<(i128, usize)> = keys.iter().enumerate().map(|(i, k)| (*k, i)).collect();
    let mut expected = items.clone();
    expected.sort_by(|a, b| b.0.cmp(&a.0));
    assert_eq!(sort_desc_stable(items), expected);
}

#[test]
fn empty_input_gives_empty_output() {
    let items: Vec<(i128, u8)> = Vec::new();
    assert!(sort_desc_stable(items).is_empty());
}
