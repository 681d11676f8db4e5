//! Date and time arguments: civil date-times, dates, zoned date-times and
//! `@<seconds>` epoch values, each held with the instant it denotes.
use vstd::prelude::*;
use crate::text::{chars_of, decimal, push_all, string_from_chars, u64_to_chars};
use crate::time::representable;

verus! {

/// A civil date and time without a zone.
#[verifier::external_type_specification]
#[verifier::external_body]
pub struct ExNaiveDateTime(chrono::NaiveDateTime);

/// A date and time in a time zone.
#[verifier::external_type_specification]
#[verifier::external_body]
pub struct ExZoned(jiff::Zoned);

/// The error of the civil date-time parser.
#[verifier::external_type_specification]
#[verifier::external_body]
pub struct ExChronoParseError(chrono::ParseError);

/// The error of the free-form date parser.
#[verifier::external_type_specification]
#[verifier::external_body]
pub struct ExParseDateTimeError(parse_datetime::ParseDateTimeError);

/// Nanoseconds since the Unix epoch of `seconds` whole seconds plus
/// `nanoseconds`.
pub open spec fn epoch_nanos(seconds: i64, nanoseconds: u32) -> int {
    seconds * 1_000_000_000 + nanoseconds
}

/// The instant `seconds` seconds and `nanoseconds` nanoseconds after the
/// Unix epoch, or `None` where no instant of the platform is there.
pub fn epoch_to_system_time(seconds: i64, nanoseconds: u32) -> (r: Option<crate::time::Timestamp>)
    ensures
        r is Some <==> representable(epoch_nanos(seconds, nanoseconds)),
        r matches Some(t) ==> t@ == epoch_nanos(seconds, nanoseconds),
{
    let n: i128 = (seconds as i128) * 1_000_000_000 + (nanoseconds as i128);
    crate::time::Timestamp::from_unix_nanos(n)
}

/// Splits nanoseconds since the epoch into whole seconds, rounded down, and
/// the non-negative rest; `None` where the seconds leave `i64`.
pub fn epoch_from_nanos(ns: i128) -> (r: Option<(i64, u32)>)
    ensures
        r is Some <==> i64::MIN <= ns / 1_000_000_000 <= i64::MAX,
        r matches Some((s, n)) ==> s == ns / 1_000_000_000 && n == ns % 1_000_000_000,
        r matches Some((s, n)) ==> epoch_nanos(s, n) == ns,
{
    let q: i128 = ns / 1_000_000_000;
    let m: i128 = ns % 1_000_000_000;
    let (s, n) = if m < 0 { (q - 1, m + 1_000_000_000) } else { (q, m) };
    proof {
        vstd::arithmetic::div_mod::lemma_fundamental_div_mod_converse(ns as int, 1_000_000_000, s as int, n as int);
    }
    if s < -9_223_372_036_854_775_808i128 || s > 9_223_372_036_854_775_807i128 {
        None
    } else {
        Some((s as i64, n as u32))
    }
}

/// What `parse_datetime` reads an `@<seconds>[.<fraction>]` text as:
/// `None` where it gives an error (a text that does not parse, or an
/// instant outside jiff's range), `Some(None)` where it gives a value that
/// is no zoned date-time, else the nanoseconds since the epoch of the
/// instant.
pub uninterp spec fn epoch_reading(s: Seq<char>) -> Option<Option<int>>;

/// `parse_datetime::parse_datetime` on a text that starts with `@`, its
/// zoned result taken with `jiff::Zoned::timestamp` and
/// `jiff::Timestamp::as_nanosecond`. For such a text parse_datetime reads
/// only its epoch-timestamp item, and the instant is fixed by the text
/// alone (the local zone only sets the zone the instant is shown in), so
/// the result is named by `epoch_reading`. The error value itself is not
/// stated.
#[verifier::external_body]
fn parse_epoch_text(s: &str) -> (r: Result<Option<i128>, parse_datetime::ParseDateTimeError>)
    requires
        s@.len() > 0,
        s@[0] == '@',
    ensures
        r is Err <==> epoch_reading(s@) is None,
        r matches Ok(x) ==> epoch_reading(s@) == Some(
            match x {
                Some(n) => Some(n as int),
                None => None::<int>,
            },
        ),
{
    match parse_datetime::parse_datetime(s) {
        Ok(p) => Ok(
            match p.into_zoned() {
                Some(z) => Some(z.timestamp().as_nanosecond()),
                None => None,
            },
        ),
        Err(e) => Err(e),
    }
}

/// `jiff::Zoned::timestamp` read with `as_second`: seconds since the epoch,
/// truncated towards zero. Not stated: the zoned value is opaque here.
#[verifier::external_body]
fn zoned_as_second(z: &jiff::Zoned) -> i64 {
    z.timestamp().as_second()
}

/// `jiff::Zoned::subsec_nanosecond`: the fractional second of the civil
/// time, which jiff keeps in `0..=999_999_999`. Which value in that range
/// is not stated: the zoned value is opaque here.
#[verifier::external_body]
fn zoned_subsec_nanosecond(z: &jiff::Zoned) -> (r: i32)
    ensures
        0 <= r < 1_000_000_000,
{
    z.subsec_nanosecond()
}

/// `parse_datetime::parse_datetime`: reads a free-form date, relative
/// dates and the local zone included; a result outside `jiff`'s range
/// comes back as `None`. The result depends on the clock and the zone, so
/// nothing is stated of it.
#[verifier::external_body]
fn parse_free_form(s: &str) -> Result<Option<jiff::Zoned>, parse_datetime::ParseDateTimeError> {
    match parse_datetime::parse_datetime(s) {
        Ok(p) => Ok(p.into_zoned()),
        Err(e) => Err(e),
    }
}

/// How chrono's civil date-time parser reads a text: the text chrono's
/// `Display` writes the parsed value as, or `None` where it does not
/// parse.
pub uninterp spec fn civil_reading(s: Seq<char>) -> Option<Seq<char>>;

/// `<chrono::NaiveDateTime as FromStr>::from_str`, its error dropped, with
/// the parsed value as `<chrono::NaiveDateTime as Display>` writes it
/// (`2024-03-20 12:34:56`). Both are fixed by the text, and named by
/// `civil_reading`; the parsed value itself is opaque here.
#[verifier::external_body]
fn parse_civil(s: &str) -> (r: Option<(chrono::NaiveDateTime, String)>)
    ensures
        r is Some <==> civil_reading(s@) is Some,
        r matches Some((_, t)) ==> civil_reading(s@) == Some(t@),
{
    match s.parse::<chrono::NaiveDateTime>() {
        Ok(n) => {
            let t = format!("{n}");
            Some((n, t))
        },
        Err(_) => None,
    }
}

/// How chrono's calendar-date parser reads a text: the seconds since the
/// epoch of the date's midnight in UTC, and the text chrono's `Display`
/// writes the date as; `None` where it does not parse.
pub uninterp spec fn date_reading(s: Seq<char>) -> Option<(int, Seq<char>)>;

/// `<chrono::NaiveDate as FromStr>::from_str`, its error dropped; the date
/// at `and_hms_opt(0, 0, 0)` (midnight always exists) read in UTC as its
/// `timestamp`, and the date as `<chrono::NaiveDate as Display>` writes it
/// (`2024-04-01`). Both are fixed by the text and named by `date_reading`;
/// the seconds are whole days (chrono counts days times 86 400 plus the
/// seconds since midnight, here none).
#[verifier::external_body]
fn parse_date(s: &str) -> (r: Option<(i64, String)>)
    ensures
        r is Some <==> date_reading(s@) is Some,
        r matches Some((sec, t)) ==> date_reading(s@) == Some((sec as int, t@)) && sec % 86_400 == 0,
{
    match s.parse::<chrono::NaiveDate>() {
        Ok(d) => {
            let sec = d.and_hms_opt(0, 0, 0).unwrap().and_utc().timestamp();
            let t = format!("{d}");
            Some((sec, t))
        },
        Err(_) => None,
    }
}

/// How a civil date-time falls in the local zone, with the instant of each
/// reading as seconds and nanoseconds.
#[derive(Clone, Copy, Debug, PartialEq, Eq)]
pub enum LocalReading {
    /// One instant.
    Single(i64, u32),
    /// Two instants (a clock turned back); the earlier one.
    Ambiguous(i64, u32),
    /// No instant (a clock turned forward).
    Missing,
}

/// The instant a civil date-time is taken at from its reading in the
/// local zone: the one instant, or the earlier of two; `None` where the
/// local clock skipped the time, and the caller reads it as UTC.
pub fn reading_instant(r: LocalReading) -> (o: Option<(i64, u32)>)
    ensures
        o == match r {
            LocalReading::Single(a, b) => Some((a, b)),
            LocalReading::Ambiguous(a, b) => Some((a, b)),
            LocalReading::Missing => None::<(i64, u32)>,
        },
{
    match r {
        LocalReading::Single(a, b) => Some((a, b)),
        LocalReading::Ambiguous(a, b) => Some((a, b)),
        LocalReading::Missing => None,
    }
}

/// `chrono::NaiveDateTime::and_local_timezone` with `chrono::Local`, each
/// reading taken as its `timestamp` and `timestamp_subsec_nanos`. It
/// depends on the machine's time zone, so nothing is stated of it.
#[verifier::external_body]
fn naive_in_local_zone(n: &chrono::NaiveDateTime) -> LocalReading {
    match n.and_local_timezone(chrono::Local) {
        chrono::LocalResult::Single(l) => LocalReading::Single(l.timestamp(), l.timestamp_subsec_nanos()),
        chrono::LocalResult::Ambiguous(e, _) => LocalReading::Ambiguous(e.timestamp(), e.timestamp_subsec_nanos()),
        chrono::LocalResult::None => LocalReading::Missing,
    }
}

/// `chrono::NaiveDateTime::and_utc`, taken as its `timestamp` and
/// `timestamp_subsec_nanos`. Not stated: the value is opaque here.
#[verifier::external_body]
fn naive_as_utc(n: &chrono::NaiveDateTime) -> (i64, u32) {
    let u = n.and_utc();
    (u.timestamp(), u.timestamp_subsec_nanos())
}

/// The decimal digits of `n`, with zeros in front up to `width` digits.
pub open spec fn zero_padded(n: nat, width: nat) -> Seq<char> {
    let d = decimal(n);
    if d.len() < width {
        Seq::new((width - d.len()) as nat, |_i: int| '0') + d
    } else {
        d
    }
}

/// How an epoch value is written: `@`, the seconds, `.` and nine digits of
/// nanoseconds. A negative instant with a fraction, held as the second
/// before it and the nanoseconds after that, is written as its magnitude:
/// `-0.5` seconds, held as `(-1, 500000000)`, is `@-0.500000000`.
pub open spec fn epoch_text(seconds: int, nanoseconds: int) -> Seq<char> {
    if seconds < 0 && nanoseconds > 0 {
        seq!['@', '-'] + decimal((-seconds - 1) as nat) + seq!['.'] + zero_padded(
            (1_000_000_000 - nanoseconds) as nat,
            9,
        )
    } else if seconds < 0 {
        seq!['@', '-'] + decimal((-seconds) as nat) + seq!['.'] + zero_padded(nanoseconds as nat, 9)
    } else {
        seq!['@'] + decimal(seconds as nat) + seq!['.'] + zero_padded(nanoseconds as nat, 9)
    }
}

/// Writes an epoch value as `epoch_text` says.
pub fn epoch_to_string(seconds: i64, nanoseconds: u32) -> (r: String)
    requires
        nanoseconds < 1_000_000_000,
    ensures
        r@ == epoch_text(seconds as int, nanoseconds as int),
{
    let mut out: Vec<char> = Vec::new();
    out.push('@');
    let (negative, magnitude, fraction): (bool, u64, u32) = if seconds < 0 && nanoseconds > 0 {
        (true, (-(seconds + 1)) as u64, 1_000_000_000 - nanoseconds)
    } else if seconds < 0 {
        (true, (-(seconds + 1)) as u64 + 1, nanoseconds)
    } else {
        (false, seconds as u64, nanoseconds)
    };
    if negative {
        out.push('-');
    }
    let whole = u64_to_chars(magnitude);
    push_all(&mut out, whole.as_slice());
    out.push('.');
    let digits = u64_to_chars(fraction as u64);
    let ghost mid = out@;
    let mut k: usize = digits.len();
    while k < 9
        invariant
            digits.len() <= k <= 9 || (k == digits.len() && k >= 9),
            out@ == mid + Seq::new((k - digits.len()) as nat, |_i: int| '0'),
        decreases 9 - k,
    {
        out.push('0');
        k = k + 1;
        assert(out@ =~= mid + Seq::new((k - digits.len()) as nat, |_i: int| '0'));
    }
    let ghost zeros = out@;
    push_all(&mut out, digits.as_slice());
    proof {
        let z = zero_padded(fraction as nat, 9);
        if digits.len() < 9 {
            assert(zeros + digits@ =~= mid + z);
        } else {
            assert(zeros =~= mid);
        }
        assert(out@ =~= epoch_text(seconds as int, nanoseconds as int));
    }
    string_from_chars(out.as_slice())
}

/// `<jiff::Zoned as Display>`: the RFC 9557 form with the zone in brackets.
/// Not stated: the value is opaque here.
#[verifier::external_body]
fn zoned_to_string(z: &jiff::Zoned) -> String {
    format!("{z}")
}

/// What a date-time argument was written as: a civil date-time, a zoned
/// date-time or a calendar date, each held as the text its parser's
/// `Display` writes it as, or an epoch value.
#[derive(Clone, Debug, PartialEq, Eq)]
pub enum DateTimeValue {
    Naive(String),
    Zoned(String),
    Date(String),
    /// Seconds since the epoch, rounded down, and the nanoseconds after.
    Epoch(i64, u32),
}

/// Why a text is no date-time.
#[derive(Debug)]
pub enum DateTimeError {
    ChronoParse(chrono::ParseError),
    ParseDateTime(parse_datetime::ParseDateTimeError),
    /// The date-time lies outside the instants of this platform.
    OutOfRange(String),
}

/// Whether a text is an `@<seconds>` epoch value.
pub open spec fn is_epoch_text(s: Seq<char>) -> bool {
    s.len() > 0 && s[0] == '@'
}

/// The text handed to the epoch reader: a trailing `.` reads as `.0`.
pub open spec fn epoch_text_of(s: Seq<char>) -> Seq<char> {
    if s.len() > 0 && s.last() == '.' {
        s.push('0')
    } else {
        s
    }
}

/// Whether `r` is the date read as `date` (midnight seconds, text): its
/// instant that midnight, its value the date's text.
pub open spec fn read_as_date(r: Result<DateTime, DateTimeError>, date: (int, Seq<char>)) -> bool {
    &&& r is Ok
    &&& r->Ok_0.spec_instant() == date.0 * 1_000_000_000
    &&& r->Ok_0.spec_value() is Date
    &&& r->Ok_0.spec_value()->Date_0@ == date.1
}

/// How a date-time is displayed: civil, zoned and date values as the
/// text their parser writes them as, an epoch value as `epoch_text` says.
pub open spec fn value_text(v: DateTimeValue) -> Seq<char> {
    match v {
        DateTimeValue::Naive(t) => t@,
        DateTimeValue::Zoned(t) => t@,
        DateTimeValue::Date(t) => t@,
        DateTimeValue::Epoch(sec, nano) => epoch_text(sec as int, nano as int),
    }
}

/// A date-time argument and the instant it denotes, which lies in the
/// range of the platform's instants.
#[derive(Debug)]
pub struct DateTime {
    value: DateTimeValue,
    seconds: i64,
    nanoseconds: u32,
}

impl DateTime {
    #[verifier::type_invariant]
    closed spec fn inv(self) -> bool {
        &&& representable(epoch_nanos(self.seconds, self.nanoseconds))
        &&& self.value matches DateTimeValue::Epoch(s, n) ==> s == self.seconds && n == self.nanoseconds
            && n < 1_000_000_000
    }

    /// What the argument was written as.
    pub closed spec fn spec_value(self) -> DateTimeValue {
        self.value
    }

    /// Nanoseconds since the epoch of the instant the date-time denotes.
    pub closed spec fn spec_instant(self) -> int {
        epoch_nanos(self.seconds, self.nanoseconds)
    }

    /// The instant as seconds and nanoseconds since the epoch.
    pub fn epoch_components(&self) -> (r: (i64, u32))
        ensures
            epoch_nanos(r.0, r.1) == self.spec_instant(),
            representable(self.spec_instant()),
    {
        proof { use_type_invariant(self); }
        (self.seconds, self.nanoseconds)
    }

    /// Whether the instant is one of the platform's: always, for a parsed
    /// date-time.
    pub fn is_representable(&self) -> (r: bool)
        ensures
            r,
    {
        proof { use_type_invariant(self); }
        epoch_to_system_time(self.seconds, self.nanoseconds).is_some()
    }

    /// The instant the date-time denotes.
    pub fn to_system_time(&self) -> (r: crate::time::Timestamp)
        ensures
            r@ == self.spec_instant(),
    {
        proof { use_type_invariant(self); }
        match epoch_to_system_time(self.seconds, self.nanoseconds) {
            Some(t) => t,
            None => crate::time::Timestamp::unix_epoch(),
        }
    }

    /// What the argument was written as.
    pub fn value(&self) -> (r: &DateTimeValue)
        ensures
            *r == self.spec_value(),
    {
        &self.value
    }

    /// The date-time as it is displayed, `value_text` says how.
    pub fn to_string(&self) -> (r: String)
        ensures
            r@ == value_text(self.spec_value()),
    {
        proof { use_type_invariant(self); }
        match &self.value {
            DateTimeValue::Naive(t) => t.clone(),
            DateTimeValue::Zoned(t) => t.clone(),
            DateTimeValue::Date(t) => t.clone(),
            DateTimeValue::Epoch(sec, nano) => epoch_to_string(*sec, *nano),
        }
    }

    /// The text with `0` appended.
    fn padded(s: &str) -> (r: String)
        ensures
            r@ == s@.push('0'),
    {
        let mut out = chars_of(s);
        out.push('0');
        string_from_chars(out.as_slice())
    }

    /// Reads a date-time, `datetime_outcome` says how: `@<seconds>` texts
    /// by `epoch_reading`, then civil date-times, calendar dates and
    /// free-form texts.
    pub fn from_str(s: &str) -> (r: Result<DateTime, DateTimeError>)
        ensures
            r matches Ok(d) ==> representable(d.spec_instant()),
            r matches Err(DateTimeError::OutOfRange(t)) ==> t@ == s@,
            r matches Err(DateTimeError::ChronoParse(_)) ==> false,
            is_epoch_text(s@) ==> match epoch_reading(epoch_text_of(s@)) {
                None => r matches Err(DateTimeError::ParseDateTime(_)),
                Some(None) => r matches Err(DateTimeError::OutOfRange(_)),
                Some(Some(n)) => if representable(n) {
                    r matches Ok(d) && d.spec_instant() == n && d.spec_value() is Epoch
                } else {
                    r matches Err(DateTimeError::OutOfRange(_))
                },
            },
            !is_epoch_text(s@) && civil_reading(s@) is Some && r is Ok ==> (r->Ok_0.spec_value() is Naive
                && r->Ok_0.spec_value()->Naive_0@ == civil_reading(s@)->0),
            !is_epoch_text(s@) && civil_reading(s@) is Some && r is Err ==> (r->Err_0 is OutOfRange),
            !is_epoch_text(s@) && civil_reading(s@) is None && date_reading(s@) is Some ==> read_as_date(
                r,
                date_reading(s@)->0,
            ),
            !is_epoch_text(s@) && civil_reading(s@) is None && date_reading(s@) is None && r is Ok ==> (
            r->Ok_0.spec_value() is Zoned),
    {
        let cs = chars_of(s);
        let (value, seconds, nanoseconds) = if cs.len() > 0 && cs[0] == '@' {
            let parsed = if cs[cs.len() - 1] == '.' {
                let p = DateTime::padded(s);
                parse_epoch_text(p.as_str())
            } else {
                parse_epoch_text(s)
            };
            let ns = match parsed {
                Err(e) => return Err(DateTimeError::ParseDateTime(e)),
                Ok(None) => return Err(DateTimeError::OutOfRange(string_from_chars(cs.as_slice()))),
                Ok(Some(n)) => n,
            };
            match epoch_from_nanos(ns) {
                None => return Err(DateTimeError::OutOfRange(string_from_chars(cs.as_slice()))),
                Some((sec, nano)) => (DateTimeValue::Epoch(sec, nano), sec, nano),
            }
        } else {
            match parse_civil(s) {
                Some((naive, text)) => {
                    let (sec, nano) = match reading_instant(naive_in_local_zone(&naive)) {
                        Some(i) => i,
                        None => naive_as_utc(&naive),
                    };
                    (DateTimeValue::Naive(text), sec, nano)
                },
                None => match parse_date(s) {
                    Some((sec, text)) => (DateTimeValue::Date(text), sec, 0u32),
                    None => match parse_free_form(s) {
                        Err(e) => return Err(DateTimeError::ParseDateTime(e)),
                        Ok(None) => return Err(DateTimeError::OutOfRange(string_from_chars(cs.as_slice()))),
                        Ok(Some(z)) => {
                            let sec = zoned_as_second(&z);
                            let nano = zoned_subsec_nanosecond(&z) as u32;
                            (DateTimeValue::Zoned(zoned_to_string(&z)), sec, nano)
                        },
                    },
                },
            }
        };
        if epoch_to_system_time(seconds, nanoseconds).is_some() {
            Ok(DateTime { value, seconds, nanoseconds })
        } else {
            Err(DateTimeError::OutOfRange(string_from_chars(cs.as_slice())))
        }
    }
}

} // verus!
