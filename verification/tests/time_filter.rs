use pna_cli::cli::value::missing_time_policy::MissingTimePolicy;
use pna_cli::command::shared::time_filter::{Bound, TimeFilter, TimeFilterResolver, TimeFilters, TimeRange};
use pna_cli::time::Timestamp;

fn t1() -> Timestamp {
    Timestamp::unix_epoch()
}
fn t2() -> Timestamp {
    Timestamp::from_unix_secs(3600)
}
fn t3() -> Timestamp {
    Timestamp::from_unix_secs(7200)
}

fn now() -> Timestamp {
    Timestamp::from_unix_secs(3600)
}

fn past() -> Timestamp {
    Timestamp::unix_epoch()
}

fn future() -> Timestamp {
    Timestamp::from_unix_secs(7200)
}

#[test]
fn contains_unbounded_passes_any_time() {
    let r = TimeRange::from_bounds(Bound::Unbounded, Bound::Unbounded);
    assert!(r.contains(t1()));
    assert!(r.contains(t2()));
    assert!(r.contains(t3()));
}

#[test]
fn contains_excluded_start_rejects_equal() {
    let r = TimeRange::from_bounds(Bound::Excluded(t2()), Bound::Unbounded);
    assert!(!r.contains(t2()));
}

#[test]
fn contains_excluded_start_accepts_later() {
    let r = TimeRange::from_bounds(Bound::Excluded(t2()), Bound::Unbounded);
    assert!(r.contains(t3()));
    assert!(!r.contains(t1()));
}

#[test]
fn contains_excluded_end_rejects_equal() {
    let r = TimeRange::from_bounds(Bound::Unbounded, Bound::Excluded(t2()));
    assert!(!r.contains(t2()));
}

#[test]
fn contains_excluded_end_accepts_earlier() {
    let r = TimeRange::from_bounds(Bound::Unbounded, Bound::Excluded(t2()));
    assert!(r.contains(t1()));
    assert!(!r.contains(t3()));
}

#[test]
fn contains_included_start_accepts_equal() {
    let r = TimeRange::from_bounds(Bound::Included(t2()), Bound::Unbounded);
    assert!(r.contains(t2()));
    assert!(r.contains(t3()));
    assert!(!r.contains(t1()));
}

#[test]
fn contains_included_end_accepts_equal() {
    let r = TimeRange::from_bounds(Bound::Unbounded, Bound::Included(t2()));
    assert!(r.contains(t2()));
    assert!(r.contains(t1()));
    assert!(!r.contains(t3()));
}

#[test]
fn new_strict_both_none_passes_any_time() {
    let r = TimeRange::new_strict(None, None);
    assert!(r.contains(t1()));
    assert!(r.contains(t2()));
    assert!(r.contains(t3()));
}

#[test]
fn new_strict_newer_maps_to_excluded_start() {
    // newer = Some(t2) => start = Excluded(t2)
    let r = TimeRange::new_strict(Some(t2()), None);
    assert!(!r.contains(t1()));
    assert!(!r.contains(t2())); // equal rejected (strict)
    assert!(r.contains(t3()));
}

#[test]
fn new_strict_older_maps_to_excluded_end() {
    // older = Some(t2) => end = Excluded(t2)
    let r = TimeRange::new_strict(None, Some(t2()));
    assert!(r.contains(t1()));
    assert!(!r.contains(t2())); // equal rejected (strict)
    assert!(!r.contains(t3()));
}

#[test]
fn contains_inverted_range_rejects_all() {
    // start > end: empty-range semantics
    let r = TimeRange::from_bounds(Bound::Excluded(t3()), Bound::Excluded(t1()));
    assert!(!r.contains(t1()));
    assert!(!r.contains(t2()));
    assert!(!r.contains(t3()));
}

#[test]
fn contains_both_bounded_accepts_strictly_inside() {
    let r = TimeRange::from_bounds(Bound::Excluded(t1()), Bound::Excluded(t3()));
    assert!(r.contains(t2()));
    assert!(!r.contains(t1()));
    assert!(!r.contains(t3()));
}

#[test]
fn contains_both_included_accepts_both_bounds_and_between() {
    let r = TimeRange::from_bounds(Bound::Included(t1()), Bound::Included(t3()));
    assert!(r.contains(t1())); // lower bound accepted (inclusive)
    assert!(r.contains(t2())); // strictly inside
    assert!(r.contains(t3())); // upper bound accepted (inclusive)
}

#[test]
fn test_matches_no_filters() {
    let filters = TimeFilters {
        ctime: TimeFilter::new(
            TimeRange::new_strict(None, None),
            MissingTimePolicy::Include,
        ),
        mtime: TimeFilter::new(
            TimeRange::new_strict(None, None),
            MissingTimePolicy::Include,
        ),
    };
    assert!(filters.matches(Some(now()), Some(now())));
    assert!(filters.matches(None, None));
}

#[test]
fn test_matches_newer_ctime() {
    // Case 1: newer_ctime is set, fs_ctime is older -> should not retain
    let filters = TimeFilters {
        ctime: TimeFilter::new(
            TimeRange::new_strict(Some(now()), None),
            MissingTimePolicy::Include,
        ),
        mtime: TimeFilter::new(
            TimeRange::new_strict(None, None),
            MissingTimePolicy::Include,
        ),
    };
    assert!(!filters.matches(Some(past()), Some(now())));

    // Case 2: newer_ctime is set, fs_ctime is newer -> should retain
    let filters = TimeFilters {
        ctime: TimeFilter::new(
            TimeRange::new_strict(Some(past()), None),
            MissingTimePolicy::Include,
        ),
        mtime: TimeFilter::new(
            TimeRange::new_strict(None, None),
            MissingTimePolicy::Include,
        ),
    };
    assert!(filters.matches(Some(now()), Some(now())));

    // Case 3: newer_ctime is set, fs_ctime is None -> should retain
    let filters = TimeFilters {
        ctime: TimeFilter::new(
            TimeRange::new_strict(Some(now()), None),
            MissingTimePolicy::Include,
        ),
        mtime: TimeFilter::new(
            TimeRange::new_strict(None, None),
            MissingTimePolicy::Include,
        ),
    };
    assert!(filters.matches(None, Some(now())));
}

#[test]
fn test_matches_older_ctime() {
    // Case 1: older_ctime is set, fs_ctime is newer -> should not retain
    let filters = TimeFilters {
        ctime: TimeFilter::new(
            TimeRange::new_strict(None, Some(now())),
            MissingTimePolicy::Include,
        ),
        mtime: TimeFilter::new(
            TimeRange::new_strict(None, None),
            MissingTimePolicy::Include,
        ),
    };
    assert!(!filters.matches(Some(future()), Some(now())));

    // Case 2: older_ctime is set, fs_ctime is older -> should retain
    let filters = TimeFilters {
        ctime: TimeFilter::new(
            TimeRange::new_strict(None, Some(future())),
            MissingTimePolicy::Include,
        ),
        mtime: TimeFilter::new(
            TimeRange::new_strict(None, None),
            MissingTimePolicy::Include,
        ),
    };
    assert!(filters.matches(Some(now()), Some(now())));

    // Case 3: older_ctime is set, fs_ctime is None -> should retain
    let filters = TimeFilters {
        ctime: TimeFilter::new(
            TimeRange::new_strict(None, Some(now())),
            MissingTimePolicy::Include,
        ),
        mtime: TimeFilter::new(
            TimeRange::new_strict(None, None),
            MissingTimePolicy::Include,
        ),
    };
    assert!(filters.matches(None, Some(now())));
}

#[test]
fn test_matches_newer_mtime() {
    // Case 1: newer_mtime is set, fs_mtime is older -> should not retain
    let filters = TimeFilters {
        ctime: TimeFilter::new(
            TimeRange::new_strict(None, None),
            MissingTimePolicy::Include,
        ),
        mtime: TimeFilter::new(
            TimeRange::new_strict(Some(now()), None),
            MissingTimePolicy::Include,
        ),
    };
    assert!(!filters.matches(Some(now()), Some(past())));

    // Case 2: newer_mtime is set, fs_mtime is newer -> should retain
    let filters = TimeFilters {
        ctime: TimeFilter::new(
            TimeRange::new_strict(None, None),
            MissingTimePolicy::Include,
        ),
        mtime: TimeFilter::new(
            TimeRange::new_strict(Some(past()), None),
            MissingTimePolicy::Include,
        ),
    };
    assert!(filters.matches(Some(now()), Some(now())));

    // Case 3: newer_mtime is set, fs_mtime is None -> should retain
    let filters = TimeFilters {
        ctime: TimeFilter::new(
            TimeRange::new_strict(None, None),
            MissingTimePolicy::Include,
        ),
        mtime: TimeFilter::new(
            TimeRange::new_strict(Some(now()), None),
            MissingTimePolicy::Include,
        ),
    };
    assert!(filters.matches(Some(now()), None));
}

#[test]
fn test_matches_older_mtime() {
    // Case 1: older_mtime is set, fs_mtime is newer -> should not retain
    let filters = TimeFilters {
        ctime: TimeFilter::new(
            TimeRange::new_strict(None, None),
            MissingTimePolicy::Include,
        ),
        mtime: TimeFilter::new(
            TimeRange::new_strict(None, Some(now())),
            MissingTimePolicy::Include,
        ),
    };
    assert!(!filters.matches(Some(now()), Some(future())));

    // Case 2: older_mtime is set, fs_mtime is older -> should retain
    let filters = TimeFilters {
        ctime: TimeFilter::new(
            TimeRange::new_strict(None, None),
            MissingTimePolicy::Include,
        ),
        mtime: TimeFilter::new(
            TimeRange::new_strict(None, Some(future())),
            MissingTimePolicy::Include,
        ),
    };
    assert!(filters.matches(Some(now()), Some(now())));

    // Case 3: older_mtime is set, fs_mtime is None -> should retain
    let filters = TimeFilters {
        ctime: TimeFilter::new(
            TimeRange::new_strict(None, None),
            MissingTimePolicy::Include,
        ),
        mtime: TimeFilter::new(
            TimeRange::new_strict(None, Some(now())),
            MissingTimePolicy::Include,
        ),
    };
    assert!(filters.matches(Some(now()), None));
}

#[test]
fn test_matches_all_filters_retain() {
    let filters = TimeFilters {
        ctime: TimeFilter::new(
            TimeRange::new_strict(Some(past()), Some(future())),
            MissingTimePolicy::Include,
        ),
        mtime: TimeFilter::new(
            TimeRange::new_strict(Some(past()), Some(future())),
            MissingTimePolicy::Include,
        ),
    };
    assert!(filters.matches(Some(now()), Some(now())));
}

#[test]
fn test_matches_all_filters_not_retain_ctime() {
    // newer_ctime fails
    let filters = TimeFilters {
        ctime: TimeFilter::new(
            TimeRange::new_strict(Some(now()), Some(future())),
            MissingTimePolicy::Include,
        ),
        mtime: TimeFilter::new(
            TimeRange::new_strict(Some(past()), Some(future())),
            MissingTimePolicy::Include,
        ),
    };
    assert!(!filters.matches(Some(past()), Some(now())));

    // older_ctime fails
    let filters = TimeFilters {
        ctime: TimeFilter::new(
            TimeRange::new_strict(Some(past()), Some(now())),
            MissingTimePolicy::Include,
        ),
        mtime: TimeFilter::new(
            TimeRange::new_strict(Some(past()), Some(future())),
            MissingTimePolicy::Include,
        ),
    };
    assert!(!filters.matches(Some(future()), Some(now())));
}

#[test]
fn test_matches_all_filters_not_retain_mtime() {
    // newer_mtime fails
    let filters = TimeFilters {
        ctime: TimeFilter::new(
            TimeRange::new_strict(Some(past()), Some(future())),
            MissingTimePolicy::Include,
        ),
        mtime: TimeFilter::new(
            TimeRange::new_strict(Some(now()), Some(future())),
            MissingTimePolicy::Include,
        ),
    };
    assert!(!filters.matches(Some(now()), Some(past())));

    // older_mtime fails
    let filters = TimeFilters {
        ctime: TimeFilter::new(
            TimeRange::new_strict(Some(past()), Some(future())),
            MissingTimePolicy::Include,
        ),
        mtime: TimeFilter::new(
            TimeRange::new_strict(Some(past()), Some(now())),
            MissingTimePolicy::Include,
        ),
    };
    assert!(!filters.matches(Some(now()), Some(future())));
}

#[test]
fn test_matches_mixed_filters_and_none_fs_times() {
    // newer_ctime set, fs_ctime is None
    let filters = TimeFilters {
        ctime: TimeFilter::new(
            TimeRange::new_strict(Some(now()), None),
            MissingTimePolicy::Include,
        ),
        mtime: TimeFilter::new(
            TimeRange::new_strict(None, None),
            MissingTimePolicy::Include,
        ),
    };
    assert!(filters.matches(None, Some(now())));

    // older_ctime set, fs_ctime is None
    let filters = TimeFilters {
        ctime: TimeFilter::new(
            TimeRange::new_strict(None, Some(now())),
            MissingTimePolicy::Include,
        ),
        mtime: TimeFilter::new(
            TimeRange::new_strict(None, None),
            MissingTimePolicy::Include,
        ),
    };
    assert!(filters.matches(None, Some(now())));

    // newer_mtime set, fs_mtime is None
    let filters = TimeFilters {
        ctime: TimeFilter::new(
            TimeRange::new_strict(None, None),
            MissingTimePolicy::Include,
        ),
        mtime: TimeFilter::new(
            TimeRange::new_strict(Some(now()), None),
            MissingTimePolicy::Include,
        ),
    };
    assert!(filters.matches(Some(now()), None));

    // older_mtime set, fs_mtime is None
    let filters = TimeFilters {
        ctime: TimeFilter::new(
            TimeRange::new_strict(None, None),
            MissingTimePolicy::Include,
        ),
        mtime: TimeFilter::new(
            TimeRange::new_strict(None, Some(now())),
            MissingTimePolicy::Include,
        ),
    };
    assert!(filters.matches(Some(now()), None));
}

#[test]
fn include_policy_passes_none_ctime() {
    let filters = TimeFilters {
        ctime: TimeFilter::new(
            TimeRange::new_strict(Some(now()), None),
            MissingTimePolicy::Include,
        ),
        mtime: TimeFilter::new(
            TimeRange::new_strict(None, None),
            MissingTimePolicy::Include,
        ),
    };
    assert!(filters.matches(None, Some(now())));
}

#[test]
fn exclude_policy_rejects_none_ctime() {
    let filters = TimeFilters {
        ctime: TimeFilter::new(
            TimeRange::new_strict(Some(now()), None),
            MissingTimePolicy::Exclude,
        ),
        mtime: TimeFilter::new(
            TimeRange::new_strict(None, None),
            MissingTimePolicy::Include,
        ),
    };
    assert!(!filters.matches(None, Some(now())));
}

#[test]
fn exclude_policy_rejects_none_mtime() {
    let filters = TimeFilters {
        ctime: TimeFilter::new(
            TimeRange::new_strict(None, None),
            MissingTimePolicy::Include,
        ),
        mtime: TimeFilter::new(
            TimeRange::new_strict(Some(now()), None),
            MissingTimePolicy::Exclude,
        ),
    };
    assert!(!filters.matches(Some(now()), None));
}

#[test]
fn assume_epoch_compared_as_older() {
    let filters = TimeFilters {
        ctime: TimeFilter::new(
            TimeRange::new_strict(Some(now()), None),
            MissingTimePolicy::Assume(past()),
        ),
        mtime: TimeFilter::new(
            TimeRange::new_strict(None, None),
            MissingTimePolicy::Include,
        ),
    };
    assert!(!filters.matches(None, Some(now())));
}

#[test]
fn assume_future_compared_as_newer() {
    let filters = TimeFilters {
        ctime: TimeFilter::new(
            TimeRange::new_strict(Some(now()), None),
            MissingTimePolicy::Assume(future()),
        ),
        mtime: TimeFilter::new(
            TimeRange::new_strict(None, None),
            MissingTimePolicy::Include,
        ),
    };
    assert!(filters.matches(None, Some(now())));
}

#[test]
fn assume_future_rejected_by_older_than() {
    let filters = TimeFilters {
        ctime: TimeFilter::new(
            TimeRange::new_strict(None, Some(now())),
            MissingTimePolicy::Assume(future()),
        ),
        mtime: TimeFilter::new(
            TimeRange::new_strict(None, None),
            MissingTimePolicy::Include,
        ),
    };
    assert!(!filters.matches(None, Some(now())));
}

#[test]
fn assume_past_passes_older_than() {
    let filters = TimeFilters {
        ctime: TimeFilter::new(
            TimeRange::new_strict(None, Some(now())),
            MissingTimePolicy::Assume(past()),
        ),
        mtime: TimeFilter::new(
            TimeRange::new_strict(None, None),
            MissingTimePolicy::Include,
        ),
    };
    assert!(filters.matches(None, Some(now())));
}

#[test]
fn policy_ignored_when_time_present() {
    let filters = TimeFilters {
        ctime: TimeFilter::new(
            TimeRange::new_strict(Some(now()), None),
            MissingTimePolicy::Exclude,
        ),
        mtime: TimeFilter::new(
            TimeRange::new_strict(None, None),
            MissingTimePolicy::Include,
        ),
    };
    assert!(filters.matches(Some(future()), Some(now())));
}


#[test]
fn resolver_prefers_reference_file_times() {
    let resolver = TimeFilterResolver {
        newer_ctime_than: None,
        older_ctime_than: None,
        newer_ctime: None,
        older_ctime: None,
        newer_mtime_than: Some(t2()),
        older_mtime_than: None,
        newer_mtime: Some(t1()),
        older_mtime: Some(t3()),
        missing_ctime: MissingTimePolicy::Include,
        missing_mtime: MissingTimePolicy::Exclude,
    };
    let filters = resolver.resolve();
    // The reference file (t2) wins over the given newer time (t1).
    assert!(!filters.matches(None, Some(t2())));
    assert!(filters.matches(None, Some(Timestamp::from_unix_secs(5000))));
    assert!(!filters.matches(None, Some(t3())));
    // A missing mtime is excluded, a missing ctime included.
    assert!(!filters.matches(Some(t1()), None));
    assert!(filters.matches(None, Some(Timestamp::from_unix_secs(3601))));
}

#[test]
fn epoch_offsets_give_signed_instants() {
    let after = Timestamp::from_epoch_offset(false, 2, 500).unwrap();
    assert_eq!(after.unix_nanos(), 2_000_000_500);
    let before = Timestamp::from_epoch_offset(true, 2, 500).unwrap();
    assert_eq!(before.unix_nanos(), -2_000_000_500);
    assert!(Timestamp::from_epoch_offset(false, u64::MAX, 0).is_none());
    assert!(Timestamp::from_epoch_offset(true, 1u64 << 63, 0).is_some());
    assert!(Timestamp::from_epoch_offset(true, 1u64 << 63, 1).is_none());
    let t = std::time::UNIX_EPOCH + std::time::Duration::new(3, 7);
    assert_eq!(Timestamp::from_system_time(&t).unwrap().unix_nanos(), 3_000_000_007);
}
