use pna_cli::command::shared::iter::ReorderByIndex;

#[test]
fn reorders_out_of_order_items() {
    let items = vec![(2, 'c'), (0, 'a'), (1, 'b')];
    let out: Vec<_> = ReorderByIndex::new(items).collect();
    assert_eq!(out, vec!['a', 'b', 'c']);
}

#[test]
fn skips_missing_indices_after_input_is_exhausted() {
    let items = vec![(4, 'e'), (0, 'a'), (2, 'c')];
    let out: Vec<_> = ReorderByIndex::new(items).collect();
    assert_eq!(out, vec!['a', 'c', 'e']);
}

#[test]
fn with_start_reorders_from_given_index() {
    let items = vec![(3, 'b'), (4, 'c'), (2, 'a')];
    let out: Vec<_> = ReorderByIndex::with_start(items, 2).collect();
    assert_eq!(out, vec!['a', 'b', 'c']);
}

#[test]
fn repeated_index_keeps_only_the_last_item() {
    let items = vec![(0, 'a'), (1, 'b'), (0, 'z')];
    let out: Vec<_> = ReorderByIndex::new(items).collect();
    assert_eq!(out, vec!['z', 'b']);
    let out: Vec<_> = ReorderByIndex::new(vec![(0, 'a'), (0, 'b')]).collect();
    assert_eq!(out, vec!['b']);
}

#[test]
fn duplicate_index_keeps_the_later_item() {
    let items = vec![(1, 'x'), (1, 'y'), (0, 'a')];
    let mut r = ReorderByIndex::new(items);
    assert_eq!(r.next(), Some('a'));
    assert_eq!(r.next(), Some('y'));
    assert_eq!(r.next(), None);
    assert_eq!(r.next(), None);
}
