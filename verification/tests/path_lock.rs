use pna_cli::command::shared::path_lock::{advance_after, path_key_text, turn_arrived, PathRegistry};

#[test]
fn registry_numbers_each_path_from_zero() {
    let mut registry = PathRegistry::new();
    assert_eq!(registry.register("file.txt"), 0);
    assert_eq!(registry.register("other.txt"), 0);
    assert_eq!(registry.register("file.txt"), 1);
    assert_eq!(registry.register("file.txt"), 2);
    assert_eq!(registry.register("other.txt"), 1);
}

#[test]
fn workers_wait_for_their_number() {
    assert!(turn_arrived(0, 0));
    assert!(!turn_arrived(0, 1));
    assert_eq!(advance_after(0, 1), None);
    assert_eq!(advance_after(1, 1), Some(2));
    assert_eq!(advance_after(3, 1), Some(2));
}

#[test]
fn registered_count_gives_the_next_number() {
    let mut r = pna_cli::command::shared::path_lock::PathRegistry::new();
    assert_eq!(r.registered_count("a"), 0);
    r.register("a");
    r.register("a");
    assert_eq!(r.registered_count("a"), 2);
    assert_eq!(r.registered_count("b"), 0);
}

#[test]
fn single_path_no_contention() {
    let mut registry = PathRegistry::new();
    let ticket = registry.register("a.txt");
    assert!(turn_arrived(0, ticket));
}

#[test]
fn independent_paths_no_blocking() {
    let mut registry = PathRegistry::new();
    let t1 = registry.register("a.txt");
    let t2 = registry.register("b.txt");
    assert!(turn_arrived(0, t2));
    assert!(turn_arrived(0, t1));
}

#[test]
fn guard_advances_on_drop() {
    let mut registry = PathRegistry::new();
    let t0 = registry.register("x");
    let t1 = registry.register("x");
    assert!(turn_arrived(0, t0));
    assert!(!turn_arrived(0, t1));
    let current = advance_after(0, t0).unwrap();
    assert!(turn_arrived(current, t1));
}

#[test]
fn dropped_ticket_does_not_block_successor() {
    let mut registry = PathRegistry::new();
    let t0 = registry.register("x");
    let t1 = registry.register("x");
    let current = advance_after(0, t0).unwrap();
    assert!(turn_arrived(current, t1));
}

#[test]
fn paths_are_registered_by_their_components() {
    let mut r = PathRegistry::new();
    assert_eq!(r.register("a/b"), 0);
    assert_eq!(r.register("a//b/"), 1);
    assert_eq!(r.register("a/./b"), 2);
    assert_eq!(r.register("./a/b"), 0);
    assert_eq!(r.register("/a/b"), 0);
    assert_eq!(path_key_text("a//b/"), "a/b");
    assert_eq!(path_key_text("./x/"), "./x");
    assert_eq!(path_key_text("/"), "/");
    assert_eq!(path_key_text("."), "./");
}
