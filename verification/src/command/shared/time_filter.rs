//! Time-based filtering of entries by creation and modification time.
use vstd::prelude::*;
use crate::cli::value::missing_time_policy::MissingTimePolicy;
use crate::time::Timestamp;

verus! {

/// One end of a time range.
#[derive(Clone, Copy, Debug, PartialEq, Eq)]
pub enum Bound {
    /// The end value itself belongs to the range.
    Included(Timestamp),
    /// The end value itself does not belong to the range.
    Excluded(Timestamp),
    /// No constraint on this side.
    Unbounded,
}

/// Whether `t` (nanoseconds since the epoch) lies on the allowed side of a
/// lower bound.
pub open spec fn after_start(start: Bound, t: int) -> bool {
    match start {
        Bound::Unbounded => true,
        Bound::Included(s) => t >= s@,
        Bound::Excluded(s) => t > s@,
    }
}

/// Whether `t` lies on the allowed side of an upper bound.
pub open spec fn before_end(end: Bound, t: int) -> bool {
    match end {
        Bound::Unbounded => true,
        Bound::Included(e) => t <= e@,
        Bound::Excluded(e) => t < e@,
    }
}

/// Time range with boundary inclusivity expressed via `Bound`.
///
/// The relation between `start` and `end` is not enforced: an inverted
/// range is permitted and contains no instant.
#[derive(Clone, Copy, Debug)]
pub struct TimeRange {
    pub start: Bound,
    pub end: Bound,
}

impl TimeRange {
    /// Whether the instant `t` lies within this range.
    pub open spec fn spec_contains(self, t: int) -> bool {
        after_start(self.start, t) && before_end(self.end, t)
    }

    /// Builds a range with strict boundaries from a `(newer, older)` pair:
    /// `newer` becomes an excluded start, `older` an excluded end, and a
    /// missing value leaves that side unbounded.
    pub fn new_strict(newer: Option<Timestamp>, older: Option<Timestamp>) -> (r: Self)
        ensures
            r.start == (match newer {
                Some(t) => Bound::Excluded(t),
                None => Bound::Unbounded,
            }),
            r.end == (match older {
                Some(t) => Bound::Excluded(t),
                None => Bound::Unbounded,
            }),
    {
        TimeRange {
            start: match newer {
                Some(t) => Bound::Excluded(t),
                None => Bound::Unbounded,
            },
            end: match older {
                Some(t) => Bound::Excluded(t),
                None => Bound::Unbounded,
            },
        }
    }

    /// Builds a range from explicit bounds.
    pub fn from_bounds(start: Bound, end: Bound) -> (r: Self)
        ensures
            r.start == start,
            r.end == end,
    {
        TimeRange { start, end }
    }

    /// Whether `time` lies within this range.
    pub fn contains(&self, time: Timestamp) -> (r: bool)
        ensures
            r == self.spec_contains(time@),
    {
        let start_ok = match self.start {
            Bound::Unbounded => true,
            Bound::Included(s) => !time.is_before(&s),
            Bound::Excluded(s) => time.is_after(&s),
        };
        let end_ok = match self.end {
            Bound::Unbounded => true,
            Bound::Included(e) => !time.is_after(&e),
            Bound::Excluded(e) => time.is_before(&e),
        };
        start_ok && end_ok
    }
}

/// A filter on one timestamp: a range, and what to do when the timestamp
/// is missing.
#[derive(Clone, Copy, Debug)]
pub struct TimeFilter {
    pub range: TimeRange,
    pub missing_policy: MissingTimePolicy,
}

/// Whether a timestamp that may be missing passes a filter.
pub open spec fn filter_passes(f: TimeFilter, time: Option<Timestamp>) -> bool {
    match time {
        Some(t) => f.range.spec_contains(t@),
        None => match f.missing_policy {
            MissingTimePolicy::Include => true,
            MissingTimePolicy::Exclude => false,
            MissingTimePolicy::Assume(t) => f.range.spec_contains(t@),
        },
    }
}

impl TimeFilter {
    /// Builds a filter from a range and a missing-timestamp policy.
    pub fn new(range: TimeRange, missing_policy: MissingTimePolicy) -> (r: Self)
        ensures
            r.range == range,
            r.missing_policy == missing_policy,
    {
        TimeFilter { range, missing_policy }
    }

    /// Whether the given timestamp passes this filter.
    pub fn matches(&self, time: Option<Timestamp>) -> (r: bool)
        ensures
            r == filter_passes(*self, time),
    {
        let time = match time {
            Some(t) => t,
            None => match self.missing_policy {
                MissingTimePolicy::Include => return true,
                MissingTimePolicy::Exclude => return false,
                MissingTimePolicy::Assume(t) => t,
            },
        };
        self.range.contains(time)
    }
}

/// Filters on creation time and modification time together.
#[derive(Clone, Copy, Debug)]
pub struct TimeFilters {
    pub ctime: TimeFilter,
    pub mtime: TimeFilter,
}

impl TimeFilters {
    /// Whether the given times pass both the ctime and the mtime filter.
    pub fn matches(&self, fs_ctime: Option<Timestamp>, fs_mtime: Option<Timestamp>) -> (r: bool)
        ensures
            r == (filter_passes(self.ctime, fs_ctime) && filter_passes(self.mtime, fs_mtime)),
    {
        self.ctime.matches(fs_ctime) && self.mtime.matches(fs_mtime)
    }
}

/// The strict range from a `(newer, older)` pair, as `new_strict` builds it.
pub open spec fn strict_range(newer: Option<Timestamp>, older: Option<Timestamp>) -> TimeRange {
    TimeRange {
        start: match newer {
            Some(t) => Bound::Excluded(t),
            None => Bound::Unbounded,
        },
        end: match older {
            Some(t) => Bound::Excluded(t),
            None => Bound::Unbounded,
        },
    }
}

/// A bound taken from a reference file where one was named, else the time
/// given.
pub open spec fn file_or_given(file_time: Option<Timestamp>, given: Option<Timestamp>) -> Option<Timestamp> {
    match file_time {
        Some(t) => Some(t),
        None => given,
    }
}

/// What a command's time filters are made from: for each bound the time
/// of the reference file named for it (its creation or its modification
/// time, read by the caller), and the time given for it; and, for each of
/// the two timestamps, what to do with entries that lack it.
#[derive(Clone, Copy, Debug)]
pub struct TimeFilterResolver {
    pub newer_ctime_than: Option<Timestamp>,
    pub older_ctime_than: Option<Timestamp>,
    pub newer_ctime: Option<Timestamp>,
    pub older_ctime: Option<Timestamp>,
    pub newer_mtime_than: Option<Timestamp>,
    pub older_mtime_than: Option<Timestamp>,
    pub newer_mtime: Option<Timestamp>,
    pub older_mtime: Option<Timestamp>,
    pub missing_ctime: MissingTimePolicy,
    pub missing_mtime: MissingTimePolicy,
}

/// The bound from a reference file where one was named, else the one given.
fn pick_bound(file_time: Option<Timestamp>, given: Option<Timestamp>) -> (b: Option<Timestamp>)
    ensures
        b == file_or_given(file_time, given),
{
    match file_time {
        Some(t) => Some(t),
        None => given,
    }
}

impl TimeFilterResolver {
    /// The filters: each bound from its reference file where one was
    /// named, else the time given; both bounds strict.
    pub fn resolve(self) -> (r: TimeFilters)
        ensures
            r.ctime.range == strict_range(
                file_or_given(self.newer_ctime_than, self.newer_ctime),
                file_or_given(self.older_ctime_than, self.older_ctime),
            ),
            r.ctime.missing_policy == self.missing_ctime,
            r.mtime.range == strict_range(
                file_or_given(self.newer_mtime_than, self.newer_mtime),
                file_or_given(self.older_mtime_than, self.older_mtime),
            ),
            r.mtime.missing_policy == self.missing_mtime,
    {
        let ctime = TimeFilter::new(
            TimeRange::new_strict(pick_bound(self.newer_ctime_than, self.newer_ctime), pick_bound(self.older_ctime_than, self.older_ctime)),
            self.missing_ctime,
        );
        let mtime = TimeFilter::new(
            TimeRange::new_strict(pick_bound(self.newer_mtime_than, self.newer_mtime), pick_bound(self.older_mtime_than, self.older_mtime)),
            self.missing_mtime,
        );
        TimeFilters { ctime, mtime }
    }
}

/// The instant a bound names, where it names one.
pub open spec fn bound_instant(b: Bound) -> Option<int> {
    match b {
        Bound::Included(t) => Some(t@),
        Bound::Excluded(t) => Some(t@),
        Bound::Unbounded => None,
    }
}

/// A range whose start lies after its end contains no instant.
pub proof fn inverted_range_contains_nothing(r: TimeRange, t: int)
    requires
        bound_instant(r.start) matches Some(s) && bound_instant(r.end) matches Some(e) && s > e,
    ensures
        !r.spec_contains(t),
{
}

/// A strict range built from `newer` and `older` contains exactly the
/// instants later than `newer` and earlier than `older`, where given.
pub proof fn strict_range_contains(newer: Option<Timestamp>, older: Option<Timestamp>, r: TimeRange, t: int)
    requires
        r.start == (match newer {
            Some(n) => Bound::Excluded(n),
            None => Bound::Unbounded,
        }),
        r.end == (match older {
            Some(o) => Bound::Excluded(o),
            None => Bound::Unbounded,
        }),
    ensures
        r.spec_contains(t) <==> ((newer matches Some(n) ==> t > n@) && (older matches Some(o) ==> t < o@)),
{
}

} // verus!
