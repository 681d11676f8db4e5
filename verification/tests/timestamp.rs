use pna_cli::command::shared::timestamp::{clamped_time, cmp_at_stored_precision, TimeSource, TimestampStrategy};
use pna_cli::time::{Duration, Timestamp};
use std::cmp::Ordering;

fn time(secs: u64) -> Timestamp {
    Timestamp::from_unix_secs(secs)
}

#[test]
fn time_source_from_source() {
    let source = TimeSource::FromSource;
    assert_eq!(source.resolve(Some(time(100))), Some(time(100)));
    assert_eq!(source.resolve(None), None);
}

#[test]
fn time_source_override() {
    let source = TimeSource::Override(time(50));
    assert_eq!(source.resolve(Some(time(100))), Some(time(50)));
    assert_eq!(source.resolve(None), Some(time(50)));
}

#[test]
fn time_source_clamp_to() {
    let source = TimeSource::ClampTo(time(50));
    // Source is newer than clamp -> use clamp
    assert_eq!(source.resolve(Some(time(100))), Some(time(50)));
    // Source is older than clamp -> use source
    assert_eq!(source.resolve(Some(time(30))), Some(time(30)));
    // No source -> None
    assert_eq!(source.resolve(None), None);
}

#[test]
fn cmp_at_stored_precision_whole_second_archive_ignores_filesystem_subsecond() {
    assert_eq!(
        cmp_at_stored_precision(Duration::seconds(100), Duration::new(100, 500_000_000)),
        Ordering::Equal,
    );
}

#[test]
fn cmp_at_stored_precision_whole_second_archive_ignores_end_of_second() {
    assert_eq!(
        cmp_at_stored_precision(Duration::seconds(100), Duration::new(100, 999_999_999)),
        Ordering::Equal,
    );
}

#[test]
fn cmp_at_stored_precision_whole_second_archive_is_older_at_next_second() {
    assert_eq!(
        cmp_at_stored_precision(Duration::seconds(100), Duration::seconds(101)),
        Ordering::Less,
    );
}

#[test]
fn cmp_at_stored_precision_whole_second_archive_is_newer_at_previous_second() {
    assert_eq!(
        cmp_at_stored_precision(Duration::seconds(100), Duration::new(99, 999_999_999)),
        Ordering::Greater,
    );
}

#[test]
fn cmp_at_stored_precision_whole_second_archive_ignores_filesystem_subsecond_before_epoch() {
    assert_eq!(
        cmp_at_stored_precision(Duration::seconds(-100), Duration::new(-99, -500_000_000)),
        Ordering::Equal,
    );
}

#[test]
fn cmp_at_stored_precision_whole_second_archive_is_newer_below_its_own_second_before_epoch() {
    assert_eq!(
        cmp_at_stored_precision(Duration::seconds(-100), Duration::new(-100, -1)),
        Ordering::Greater,
    );
}

#[test]
fn cmp_at_stored_precision_whole_second_archive_is_older_at_next_second_before_epoch() {
    assert_eq!(
        cmp_at_stored_precision(Duration::seconds(-100), Duration::seconds(-99)),
        Ordering::Less,
    );
}

#[test]
fn cmp_at_stored_precision_whole_second_archive_accepts_exact_match_before_epoch() {
    assert_eq!(
        cmp_at_stored_precision(Duration::seconds(-100), Duration::seconds(-100)),
        Ordering::Equal,
    );
}

#[test]
fn cmp_at_stored_precision_subsecond_archive_accepts_exact_match() {
    assert_eq!(
        cmp_at_stored_precision(
            Duration::new(100, 500_000_000),
            Duration::new(100, 500_000_000),
        ),
        Ordering::Equal,
    );
}

#[test]
fn cmp_at_stored_precision_subsecond_archive_is_newer_within_same_second() {
    assert_eq!(
        cmp_at_stored_precision(
            Duration::new(100, 500_000_000),
            Duration::new(100, 250_000_000),
        ),
        Ordering::Greater,
    );
}

#[test]
fn cmp_at_stored_precision_subsecond_archive_is_older_within_same_second() {
    assert_eq!(
        cmp_at_stored_precision(
            Duration::new(100, 500_000_000),
            Duration::new(100, 750_000_000),
        ),
        Ordering::Less,
    );
}

#[test]
fn cmp_at_stored_precision_subsecond_archive_accepts_exact_match_before_epoch() {
    assert_eq!(
        cmp_at_stored_precision(
            Duration::new(-1, -500_000_000),
            Duration::new(-1, -500_000_000),
        ),
        Ordering::Equal,
    );
}

#[test]
fn cmp_at_stored_precision_subsecond_archive_is_older_within_same_second_before_epoch() {
    assert_eq!(
        cmp_at_stored_precision(
            Duration::new(-1, -500_000_000),
            Duration::new(-1, -400_000_000),
        ),
        Ordering::Less,
    );
}

#[test]
fn preserve_keeps_every_source_time() {
    assert_eq!(
        TimestampStrategy::preserve(),
        TimestampStrategy::Preserve {
            mtime: TimeSource::FromSource,
            ctime: TimeSource::FromSource,
            atime: TimeSource::FromSource,
        }
    );
}

#[test]
fn clamped_time_caps_or_overrides() {
    let early = Timestamp::from_unix_secs(10);
    let late = Timestamp::from_unix_secs(20);
    assert_eq!(clamped_time(Some(early), Some(late), true), Some(early));
    assert_eq!(clamped_time(Some(late), Some(early), true), Some(early));
    assert_eq!(clamped_time(Some(early), Some(late), false), Some(late));
    assert_eq!(clamped_time(None, Some(late), true), Some(late));
    assert_eq!(clamped_time(Some(early), None, true), Some(early));
}
