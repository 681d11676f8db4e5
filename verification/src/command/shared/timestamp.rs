//! Resolution of entry timestamps and comparison at stored precision.
use vstd::prelude::*;
use std::cmp::Ordering;
use crate::time::{Duration, Timestamp};

verus! {

/// The ordering of two integers.
pub open spec fn order_of(a: int, b: int) -> Ordering {
    if a < b {
        Ordering::Less
    } else if a == b {
        Ordering::Equal
    } else {
        Ordering::Greater
    }
}

/// Compares two timestamps at the precision `archived` was stored with: an
/// archived value without a sub-second part compares by whole seconds only
/// (each side rounded down to its second), any other by its exact value.
pub fn cmp_at_stored_precision(archived: Duration, fs: Duration) -> (r: Ordering)
    requires
        archived@ % 1_000_000_000 == 0 ==> fs@ >= i64::MIN * 1_000_000_000,
    ensures
        archived@ % 1_000_000_000 == 0 ==> r == order_of(
            archived@ / 1_000_000_000,
            fs@ / 1_000_000_000,
        ),
        archived@ % 1_000_000_000 != 0 ==> r == order_of(archived@, fs@),
{
    let sub = archived.subsec_nanoseconds();
    let _whole = archived.whole_seconds();
    if sub == 0 {
        proof {
            vstd::arithmetic::div_mod::lemma_fundamental_div_mod_converse(
                archived@, 1_000_000_000, archived.spec_whole_seconds(), 0);
        }
        let a = floor_seconds(archived);
        let b = floor_seconds(fs);
        if a < b {
            Ordering::Less
        } else if a == b {
            Ordering::Equal
        } else {
            Ordering::Greater
        }
    } else {
        proof {
            let s = archived.spec_whole_seconds();
            let n = archived.spec_subsec_nanoseconds();
            if n > 0 {
                vstd::arithmetic::div_mod::lemma_fundamental_div_mod_converse(
                    archived@, 1_000_000_000, s, n);
            } else {
                vstd::arithmetic::div_mod::lemma_fundamental_div_mod_converse(
                    archived@, 1_000_000_000, s - 1, n + 1_000_000_000);
            }
        }
        if archived.is_less_than(&fs) {
            Ordering::Less
        } else if fs.is_less_than(&archived) {
            Ordering::Greater
        } else {
            Ordering::Equal
        }
    }
}

/// At whole-second precision an archived time stands for its whole
/// second: a file time in `[archived, archived + 1 s)` compares equal, a
/// later one makes the archived time older, an earlier one newer; an
/// archived time with a fraction compares exactly.
pub proof fn stored_precision_intervals(archived: int, fs: int)
    ensures
        archived % 1_000_000_000 == 0 ==> {
            let r = order_of(archived / 1_000_000_000, fs / 1_000_000_000);
            &&& (r == Ordering::Equal <==> archived <= fs < archived + 1_000_000_000)
            &&& (r == Ordering::Less <==> fs >= archived + 1_000_000_000)
            &&& (r == Ordering::Greater <==> fs < archived)
        },
        archived % 1_000_000_000 != 0 ==> (order_of(archived, fs) == Ordering::Equal <==> archived == fs),
{
    vstd::arithmetic::div_mod::lemma_fundamental_div_mod(archived, 1_000_000_000);
    vstd::arithmetic::div_mod::lemma_fundamental_div_mod(fs, 1_000_000_000);
    let qa = archived / 1_000_000_000;
    let qf = fs / 1_000_000_000;
    if archived % 1_000_000_000 == 0 {
        assert(archived == qa * 1_000_000_000);
        assert(qa < qf ==> qa + 1 <= qf);
        assert(qa + 1 <= qf ==> (qa + 1) * 1_000_000_000 <= qf * 1_000_000_000) by (nonlinear_arith);
        assert(qf < qa ==> qf + 1 <= qa);
        assert(qf + 1 <= qa ==> (qf + 1) * 1_000_000_000 <= qa * 1_000_000_000) by (nonlinear_arith);
    }
}

/// The second that a span falls in, rounded down: a whole second denotes
/// the interval starting at it on both sides of the epoch. The spans below
/// `i64::MIN` seconds, whose second lies outside `i64`, are left out.
pub fn floor_seconds(duration: Duration) -> (r: i64)
    requires
        duration@ >= i64::MIN * 1_000_000_000,
    ensures
        r == duration@ / 1_000_000_000,
{
    let seconds = duration.whole_seconds();
    let n = duration.subsec_nanoseconds();
    if n < 0 {
        proof {
            vstd::arithmetic::div_mod::lemma_fundamental_div_mod_converse(
                duration@, 1_000_000_000, seconds - 1, n + 1_000_000_000);
        }
        seconds - 1
    } else {
        proof {
            vstd::arithmetic::div_mod::lemma_fundamental_div_mod_converse(
                duration@, 1_000_000_000, seconds as int, n as int);
        }
        seconds
    }
}

/// How to determine a single timestamp value.
#[derive(Clone, Copy, Debug, PartialEq, Eq)]
pub enum TimeSource {
    /// Use the source timestamp as-is.
    FromSource,
    /// Override with a specific value, ignoring the source.
    Override(Timestamp),
    /// Use the earlier of the source and this value ("no newer than").
    ClampTo(Timestamp),
}

impl TimeSource {
    /// Resolves the final timestamp given a source value.
    pub fn resolve(&self, source: Option<Timestamp>) -> (r: Option<Timestamp>)
        ensures
            match *self {
                TimeSource::FromSource => r == source,
                TimeSource::Override(t) => r == Some(t),
                TimeSource::ClampTo(t) => match source {
                    None => r is None,
                    Some(s) => r == Some(if t@ <= s@ { t } else { s }),
                },
            },
    {
        match self {
            TimeSource::FromSource => source,
            TimeSource::Override(t) => Some(*t),
            TimeSource::ClampTo(t) => match source {
                Some(s) => Some(t.earliest(s)),
                None => None,
            },
        }
    }
}

/// Top-level timestamp handling strategy.
#[derive(Clone, Copy, Debug, PartialEq, Eq)]
pub enum TimestampStrategy {
    /// Don't preserve timestamps.
    NoPreserve,
    /// Preserve timestamps with per-field configuration.
    Preserve { mtime: TimeSource, ctime: TimeSource, atime: TimeSource },
}

impl TimestampStrategy {
    /// Preserve all source timestamps as-is.
    pub fn preserve() -> (r: Self)
        ensures
            r == (TimestampStrategy::Preserve {
                mtime: TimeSource::FromSource,
                ctime: TimeSource::FromSource,
                atime: TimeSource::FromSource,
            }),
    {
        TimestampStrategy::Preserve {
            mtime: TimeSource::FromSource,
            ctime: TimeSource::FromSource,
            atime: TimeSource::FromSource,
        }
    }
}

/// The time to store for an entry: a specified time overrides the file
/// system's, or with `clamp` caps it (the file system's where earlier);
/// without one, the file system's.
pub fn clamped_time(fs_time: Option<Timestamp>, specified_time: Option<Timestamp>, clamp: bool) -> (r: Option<Timestamp>)
    ensures
        match specified_time {
            None => r == fs_time,
            Some(t) => if clamp && fs_time is Some && fs_time->0@ < t@ {
                r == fs_time
            } else {
                r == Some(t)
            },
        },
{
    match specified_time {
        Some(t) => {
            if clamp {
                match fs_time {
                    Some(f) => {
                        if f.is_before(&t) {
                            Some(f)
                        } else {
                            Some(t)
                        }
                    },
                    None => Some(t),
                }
            } else {
                Some(t)
            }
        },
        None => fs_time,
    }
}

} // verus!
