use vstd::prelude::*;

verus! {

/// Number of nanoseconds in one second.
pub const NANOS_PER_SEC: i128 = 1_000_000_000i128;

/// Smallest number of nanoseconds since the Unix epoch that a point in time
/// of this library can hold: `i64::MIN` whole seconds.
pub open spec fn min_nanos() -> int {
    i64::MIN * 1_000_000_000
}

/// Largest number of nanoseconds since the Unix epoch that a point in time
/// can hold: `i64::MAX` whole seconds and 999 999 999 nanoseconds.
pub open spec fn max_nanos() -> int {
    i64::MAX * 1_000_000_000 + 999_999_999
}

/// Whether `n` nanoseconds since the Unix epoch is a representable instant.
pub open spec fn representable(n: int) -> bool {
    min_nanos() <= n <= max_nanos()
}

/// A point in time, as a signed count of nanoseconds since the Unix epoch.
///
/// Its range is that of a Unix `timespec`: whole seconds in the range of
/// `i64` and a sub-second part below one second.
#[derive(Clone, Copy, Debug, PartialEq, Eq, Hash)]
pub struct Timestamp {
    nanos: i128,
}

impl View for Timestamp {
    type V = int;

    /// Nanoseconds since the Unix epoch.
    closed spec fn view(&self) -> int {
        self.nanos as int
    }
}

impl Timestamp {
    #[verifier::type_invariant]
    closed spec fn inv(self) -> bool {
        representable(self.nanos as int)
    }

    /// The Unix epoch, 1970-01-01T00:00:00Z.
    pub fn unix_epoch() -> (r: Timestamp)
        ensures
            r@ == 0,
    {
        Timestamp { nanos: 0 }
    }

    /// The instant `secs` whole seconds after the Unix epoch.
    pub fn from_unix_secs(secs: u64) -> (r: Timestamp)
        requires
            secs <= i64::MAX,
        ensures
            r@ == secs * 1_000_000_000,
    {
        Timestamp { nanos: (secs as i128) * NANOS_PER_SEC }
    }

    /// The instant `nanos` nanoseconds after (or, if negative, before) the
    /// Unix epoch; `None` where it lies outside the representable range.
    pub fn from_unix_nanos(nanos: i128) -> (r: Option<Timestamp>)
        ensures
            r is Some <==> representable(nanos as int),
            r matches Some(t) ==> t@ == nanos,
    {
        if -9_223_372_036_854_775_808_000_000_000i128 <= nanos
            && nanos <= 9_223_372_036_854_775_807_999_999_999i128 {
            Some(Timestamp { nanos })
        } else {
            None
        }
    }

    /// Nanoseconds since the Unix epoch.
    pub fn unix_nanos(&self) -> (r: i128)
        ensures
            r == self@,
            representable(r as int),
    {
        proof { use_type_invariant(self); }
        self.nanos
    }

    /// Whether `self` is strictly earlier than `other`.
    pub fn is_before(&self, other: &Timestamp) -> (r: bool)
        ensures
            r == (self@ < other@),
    {
        self.nanos < other.nanos
    }

    /// Whether `self` is strictly later than `other`.
    pub fn is_after(&self, other: &Timestamp) -> (r: bool)
        ensures
            r == (self@ > other@),
    {
        self.nanos > other.nanos
    }

    /// The earlier of two instants.
    pub fn earliest(self, other: Timestamp) -> (r: Timestamp)
        ensures
            r == if self@ <= other@ { self } else { other },
    {
        if self.nanos <= other.nanos { self } else { other }
    }
}

/// The number of whole seconds in `n` nanoseconds, truncated towards zero.
pub open spec fn whole_seconds_of_nanos(n: int) -> int {
    if n >= 0 { n / 1_000_000_000 } else { -((-n) / 1_000_000_000) }
}

/// A signed span of time, held as whole seconds and a sub-second part in
/// nanoseconds that carries the same sign.
#[derive(Clone, Copy, Debug, PartialEq, Eq, Hash)]
pub struct Duration {
    seconds: i64,
    nanoseconds: i32,
}

impl View for Duration {
    type V = int;

    /// The length of the span in nanoseconds.
    closed spec fn view(&self) -> int {
        self.seconds * 1_000_000_000 + self.nanoseconds
    }
}

impl Duration {
    #[verifier::type_invariant]
    closed spec fn inv(self) -> bool {
        &&& -1_000_000_000 < self.nanoseconds < 1_000_000_000
        &&& self.seconds > 0 ==> self.nanoseconds >= 0
        &&& self.seconds < 0 ==> self.nanoseconds <= 0
    }

    /// The whole-second part, truncated towards zero.
    pub closed spec fn spec_whole_seconds(self) -> int {
        self.seconds as int
    }

    /// The sub-second part in nanoseconds, with the sign of the span.
    pub closed spec fn spec_subsec_nanoseconds(self) -> int {
        self.nanoseconds as int
    }

    /// A span of `seconds` whole seconds.
    pub fn seconds(seconds: i64) -> (r: Duration)
        ensures
            r@ == seconds * 1_000_000_000,
            r.spec_whole_seconds() == seconds,
            r.spec_subsec_nanoseconds() == 0,
    {
        Duration { seconds, nanoseconds: 0 }
    }

    /// A span of `seconds` seconds plus `nanoseconds` nanoseconds; the parts
    /// are normalised so that they share one sign. The whole seconds must
    /// stay within `i64`.
    pub fn new(seconds: i64, nanoseconds: i32) -> (r: Duration)
        requires
            i64::MIN <= seconds + whole_seconds_of_nanos(nanoseconds as int) <= i64::MAX,
        ensures
            r@ == seconds * 1_000_000_000 + nanoseconds,
    {
        let carry: i64 = (nanoseconds / 1_000_000_000) as i64;
        let mut secs: i64 = seconds + carry;
        let mut nanos: i32 = nanoseconds % 1_000_000_000;
        if secs > 0 && nanos < 0 {
            secs = secs - 1;
            nanos = nanos + 1_000_000_000;
        } else if secs < 0 && nanos > 0 {
            secs = secs + 1;
            nanos = nanos - 1_000_000_000;
        }
        Duration { seconds: secs, nanoseconds: nanos }
    }

    /// The whole-second part, truncated towards zero.
    pub fn whole_seconds(&self) -> (r: i64)
        ensures
            r == self.spec_whole_seconds(),
            self@ == self.spec_whole_seconds() * 1_000_000_000 + self.spec_subsec_nanoseconds(),
            -1_000_000_000 < self.spec_subsec_nanoseconds() < 1_000_000_000,
            self.spec_whole_seconds() > 0 ==> self.spec_subsec_nanoseconds() >= 0,
            self.spec_whole_seconds() < 0 ==> self.spec_subsec_nanoseconds() <= 0,
    {
        proof { use_type_invariant(self); }
        self.seconds
    }

    /// The sub-second part in nanoseconds, with the sign of the span.
    pub fn subsec_nanoseconds(&self) -> (r: i32)
        ensures
            r == self.spec_subsec_nanoseconds(),
            self@ == self.spec_whole_seconds() * 1_000_000_000 + self.spec_subsec_nanoseconds(),
            -1_000_000_000 < r < 1_000_000_000,
            self.spec_whole_seconds() > 0 ==> r >= 0,
            self.spec_whole_seconds() < 0 ==> r <= 0,
    {
        proof { use_type_invariant(self); }
        self.nanoseconds
    }

    /// Whether `self` is a shorter (or more negative) span than `other`.
    pub fn is_less_than(&self, other: &Duration) -> (r: bool)
        ensures
            r == (self@ < other@),
    {
        proof {
            use_type_invariant(self);
            use_type_invariant(other);
        }
        self.seconds < other.seconds || (self.seconds == other.seconds && self.nanoseconds < other.nanoseconds)
    }
}

/// A point in time of the system clock.
#[verifier::external_type_specification]
#[verifier::external_body]
pub struct ExSystemTime(std::time::SystemTime);

/// The error that tells how far a system time lies before another.
#[verifier::external_type_specification]
#[verifier::external_body]
pub struct ExSystemTimeError(std::time::SystemTimeError);

/// `std::time::SystemTime::now`: the clock's current time; nothing is
/// stated of it.
#[verifier::external_body]
fn system_time_now() -> std::time::SystemTime {
    std::time::SystemTime::now()
}

/// `std::time::SystemTime::duration_since` with `UNIX_EPOCH`: the span from
/// the epoch, or an error for a time before it. Not stated: the time is
/// opaque here.
#[verifier::external_body]
fn duration_since_epoch(t: &std::time::SystemTime) -> Result<core::time::Duration, std::time::SystemTimeError> {
    t.duration_since(std::time::UNIX_EPOCH)
}

/// `std::time::SystemTimeError::duration`: how far the time lies before
/// the epoch. Not stated: the error is opaque here.
#[verifier::external_body]
fn time_error_duration(e: &std::time::SystemTimeError) -> core::time::Duration {
    e.duration()
}

/// `core::time::Duration::as_secs`: the whole seconds of a span. Not
/// stated: the span is opaque here.
#[verifier::external_body]
fn duration_secs(d: &core::time::Duration) -> u64 {
    d.as_secs()
}

/// `core::time::Duration::subsec_nanos`: the nanoseconds after the whole
/// seconds, which the documentation puts below one second.
#[verifier::external_body]
fn duration_subsec_nanos(d: &core::time::Duration) -> (r: u32)
    ensures
        r < 1_000_000_000,
{
    d.subsec_nanos()
}

/// Nanoseconds since the epoch of an offset of `secs` seconds and
/// `subsec_nanos` nanoseconds from it, negative before it.
pub open spec fn epoch_offset_nanos(before_epoch: bool, secs: u64, subsec_nanos: u32) -> int {
    if before_epoch {
        -(secs * 1_000_000_000 + subsec_nanos)
    } else {
        secs * 1_000_000_000 + subsec_nanos
    }
}

impl Timestamp {
    /// The instant of a system time, where it is representable.
    pub fn from_system_time(t: &std::time::SystemTime) -> (r: Option<Timestamp>)
        ensures
            r matches Some(v) ==> representable(v@),
    {
        let (after, d) = match duration_since_epoch(t) {
            Ok(d) => (true, d),
            Err(e) => (false, time_error_duration(&e)),
        };
        let secs = duration_secs(&d);
        let sub = duration_subsec_nanos(&d);
        Timestamp::from_epoch_offset(!after, secs, sub)
    }

    /// The instant `secs` seconds and `subsec_nanos` nanoseconds after the
    /// epoch, or before it with `before_epoch`; `None` where it is not
    /// representable.
    pub fn from_epoch_offset(before_epoch: bool, secs: u64, subsec_nanos: u32) -> (r: Option<Timestamp>)
        ensures
            r is Some <==> representable(epoch_offset_nanos(before_epoch, secs, subsec_nanos)),
            r matches Some(t) ==> t@ == epoch_offset_nanos(before_epoch, secs, subsec_nanos),
    {
        let magnitude: i128 = (secs as i128) * NANOS_PER_SEC + (subsec_nanos as i128);
        if before_epoch {
            Timestamp::from_unix_nanos(-magnitude)
        } else {
            Timestamp::from_unix_nanos(magnitude)
        }
    }

    /// The clock's current time, where it is representable.
    pub fn now() -> (r: Option<Timestamp>)
        ensures
            r matches Some(v) ==> representable(v@),
    {
        let t = system_time_now();
        Timestamp::from_system_time(&t)
    }
}

} // verus!
