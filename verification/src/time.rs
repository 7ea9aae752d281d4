//! Instants, the spans between them, and the waiting schedule before an
//! invitation opens.
use vstd::prelude::*;
use crate::clock::{is_clock_stamp, is_reading, lemma_reading_facts};

verus! {

/// An instant, as chrono reports it: whole seconds since the Unix epoch and
/// the nanoseconds past that second (up to two seconds' worth during a leap second).
#[derive(Clone, Copy, Debug, PartialEq, Eq)]
pub struct Timestamp {
    pub secs: i64,
    pub nanos: u32,
}

/// A signed span of time, as chrono's `TimeDelta` reports it through
/// `num_seconds` (whole seconds, rounded toward zero) and `subsec_nanos`.
#[derive(Clone, Copy, Debug, PartialEq, Eq)]
pub struct Span {
    pub secs: i64,
    pub subsec_nanos: i32,
}

/// What `chrono::DateTime::parse_from_rfc3339` gives for a text: the instant
/// as (`timestamp`, `timestamp_subsec_nanos`), or the text of its parse error.
pub uninterp spec fn rfc3339_parse(text: Seq<char>) -> Result<(i64, u32), Seq<char>>;

/// What chrono computes for `later.signed_duration_since(earlier)` when both
/// instants are rebuilt with `DateTime::from_timestamp`, as
/// (`num_seconds`, `subsec_nanos`); `None` when an instant cannot be rebuilt.
pub uninterp spec fn chrono_span_between(
    later_secs: i64,
    later_nanos: u32,
    earlier_secs: i64,
    earlier_nanos: u32,
) -> Option<(i64, i32)>;

/// A parse outcome as plain values.
pub open spec fn parsed_view(r: Result<Timestamp, String>) -> Result<(i64, u32), Seq<char>> {
    match r {
        Ok(t) => Ok((t.secs, t.nanos)),
        Err(e) => Err(e@),
    }
}

/// A span, if any, as plain values.
pub open spec fn span_view(r: Option<Span>) -> Option<(i64, i32)> {
    match r {
        Some(s) => Some((s.secs, s.subsec_nanos)),
        None => None,
    }
}

/// The earliest and latest whole seconds since the epoch that chrono can
/// represent (the first second of -262143-01-01 and the last of 262142-12-31).
pub open spec fn min_timestamp() -> int { -8_334_601_228_800 }

pub open spec fn max_timestamp() -> int { 8_210_266_876_799 }

/// An instant that `chrono::DateTime::from_timestamp` accepts: its seconds lie
/// in chrono's range, and a sub-second part of a second or more (a leap
/// second) only on the last second of a minute.
pub open spec fn representable(secs: i64, nanos: u32) -> bool {
    &&& min_timestamp() <= secs <= max_timestamp()
    &&& nanos < 2_000_000_000
    &&& nanos >= 1_000_000_000 ==> secs % 60 == 59
}

/// An instant in nanoseconds since the epoch.
pub open spec fn instant_nanos(secs: i64, nanos: u32) -> int {
    secs * 1_000_000_000 + nanos
}

/// Calls `chrono::DateTime::parse_from_rfc3339` and reports the instant by its
/// `timestamp` and `timestamp_subsec_nanos`, or the error by its `Display` text.
/// The contract claims that the result is the one named by `rfc3339_parse`,
/// and that a parsed instant is one chrono can rebuild: every `DateTime`
/// lies in chrono's range, and its parser turns a second of 60 into the last
/// second of the minute plus one second's worth of nanoseconds, in an offset
/// of whole minutes.
#[verifier::external_body]
fn parse_rfc3339(text: &str) -> (r: Result<Timestamp, String>)
    ensures
        rfc3339_parse(text@) == parsed_view(r),
        r matches Ok(t) ==> representable(t.secs, t.nanos),
{
    match chrono::DateTime::parse_from_rfc3339(text) {
        Ok(t) => Ok(Timestamp { secs: t.timestamp(), nanos: t.timestamp_subsec_nanos() }),
        Err(e) => Err(e.to_string()),
    }
}

/// Calls `chrono::Utc::now`. The contract claims that the sub-second part is
/// below one second and that chrono can rebuild the instant, since chrono
/// builds it with `DateTime::from_timestamp` from the system clock's seconds
/// and `subsec_nanos`; and that the instant is a reading of the clock
/// (`is_reading`, which only a call of this function provides). Which instant
/// comes back depends on the clock. (chrono panics when the system clock
/// reads a time before the Unix epoch.)
#[verifier::external_body]
fn utc_now() -> (r: Timestamp)
    ensures
        r.nanos < 1_000_000_000,
        representable(r.secs, r.nanos),
        is_reading(r),
{
    let now = chrono::Utc::now();
    Timestamp { secs: now.timestamp(), nanos: now.timestamp_subsec_nanos() }
}

/// Rebuilds both instants with `chrono::DateTime::from_timestamp` and calls
/// `signed_duration_since`, reporting the span by `num_seconds` and
/// `subsec_nanos`. The contract claims that the result is the one named by
/// `chrono_span_between`; that there is a span whenever chrono can rebuild
/// both instants; and, for instants without a leap second, that the span is
/// the plain difference, its whole seconds rounded toward zero (chrono keeps
/// a span as seconds and a non-negative nanosecond part, and `num_seconds`
/// adds one second back when the seconds are negative).
#[verifier::external_body]
fn span_between(later: Timestamp, earlier: Timestamp) -> (r: Option<Span>)
    ensures
        chrono_span_between(later.secs, later.nanos, earlier.secs, earlier.nanos) == span_view(r),
        representable(later.secs, later.nanos) && representable(earlier.secs, earlier.nanos) ==> r is Some,
        later.nanos < 1_000_000_000 && earlier.nanos < 1_000_000_000 ==> (r matches Some(s) ==> plain_span(later, earlier, s)),
{
    match (
        chrono::DateTime::from_timestamp(later.secs, later.nanos),
        chrono::DateTime::from_timestamp(earlier.secs, earlier.nanos),
    ) {
        (Some(a), Some(b)) => {
            let d = a.signed_duration_since(b);
            Some(Span { secs: d.num_seconds(), subsec_nanos: d.subsec_nanos() })
        },
        _ => None,
    }
}

/// The span from `earlier` to `later` is their plain difference, its whole
/// seconds rounded toward zero and the rest in the sub-second part.
pub open spec fn plain_span(later: Timestamp, earlier: Timestamp, s: Span) -> bool {
    let diff = instant_nanos(later.secs, later.nanos) - instant_nanos(earlier.secs, earlier.nanos);
    &&& total_nanos(s.secs, s.subsec_nanos) == diff
    &&& s.secs == div_toward_zero(diff, 1_000_000_000)
}

pub open spec fn is_digit(c: char) -> bool {
    '0' <= c && c <= '9'
}

/// The digits of a year as chrono's `%Y` writes it: four digits for years 0
/// to 9999, otherwise a sign followed by at least four digits.
pub open spec fn year_shape(y: Seq<char>) -> bool {
    ||| y.len() == 4 && forall|i: int| 0 <= i < 4 ==> is_digit(#[trigger] y[i])
    ||| y.len() >= 5 && (y[0] == '+' || y[0] == '-') && forall|i: int| 1 <= i < y.len() ==> is_digit(#[trigger] y[i])
}

/// A text in the shape `%Y-%m-%dT%H:%M:%SZ` gives: the year, then
/// "-MM-DDTHH:MM:SSZ" with two digits in each field.
pub open spec fn utc_stamp_shape(s: Seq<char>) -> bool {
    let n = s.len() as int;
    &&& n >= 20
    &&& year_shape(s.subrange(0, n - 16))
    &&& s[n - 16] == '-' && s[n - 13] == '-' && s[n - 10] == 'T'
    &&& s[n - 7] == ':' && s[n - 4] == ':' && s[n - 1] == 'Z'
    &&& is_digit(s[n - 15]) && is_digit(s[n - 14]) && is_digit(s[n - 12]) && is_digit(s[n - 11])
    &&& is_digit(s[n - 9]) && is_digit(s[n - 8]) && is_digit(s[n - 6]) && is_digit(s[n - 5])
    &&& is_digit(s[n - 3]) && is_digit(s[n - 2])
}

/// Formats the current UTC time with the pattern `%Y-%m-%dT%H:%M:%SZ` through
/// `chrono::Utc::now` and `format`. The contract claims the shape of the text,
/// as chrono writes these fields: `%Y` by its year rule, the others as two
/// zero-padded digits; and that it is a stamp of the clock (`is_clock_stamp`,
/// which only a call of this function provides). Which time it shows depends
/// on the clock.
#[verifier::external_body]
pub(crate) fn current_date_time_iso8601() -> (r: String)
    ensures
        utc_stamp_shape(r@),
        is_clock_stamp(r@),
{
    chrono::Utc::now().format("%Y-%m-%dT%H:%M:%SZ").to_string()
}

/// Parses an RFC 3339 date and time (such as an invitation's opening time).
pub fn parse_event_time(text: &str) -> (r: Result<Timestamp, String>)
    ensures
        parsed_view(r) == rfc3339_parse(text@),
        r matches Ok(t) ==> representable(t.secs, t.nanos),
{
    parse_rfc3339(text)
}

/// The span from `earlier` to `later`, as chrono measures it.
pub fn span_of(later: Timestamp, earlier: Timestamp) -> (r: Option<Span>)
    ensures
        span_view(r) == chrono_span_between(later.secs, later.nanos, earlier.secs, earlier.nanos),
        representable(later.secs, later.nanos) && representable(earlier.secs, earlier.nanos) ==> r is Some,
        later.nanos < 1_000_000_000 && earlier.nanos < 1_000_000_000 ==> (r matches Some(s) ==> plain_span(later, earlier, s)),
{
    span_between(later, earlier)
}

/// The current instant, read from the system clock.
pub fn current_instant() -> (r: Timestamp)
    ensures
        r.nanos < 1_000_000_000,
        representable(r.secs, r.nanos),
        is_reading(r),
{
    utc_now()
}

/// Signed division rounded toward zero, as Rust's integer `/` does.
pub open spec fn div_toward_zero(x: int, d: int) -> int {
    if x >= 0 { x / d } else { -((-x) / d) }
}

/// The whole span in nanoseconds.
pub open spec fn total_nanos(secs: i64, subsec: i32) -> int {
    secs * 1_000_000_000 + subsec
}

/// `TimeDelta::num_nanoseconds`: the seconds scaled to nanoseconds and the
/// sub-second part added, each step checked against the range of `i64`.
pub open spec fn num_nanoseconds(secs: i64, subsec: i32) -> Option<int> {
    let scaled = secs * 1_000_000_000;
    if scaled < i64::MIN || scaled > i64::MAX {
        None
    } else if scaled + subsec < i64::MIN || scaled + subsec > i64::MAX {
        None
    } else {
        Some(scaled + subsec)
    }
}

/// `TimeDelta::num_milliseconds`.
pub open spec fn num_milliseconds(secs: i64, subsec: i32) -> int {
    secs * 1000 + div_toward_zero(subsec as int, 1_000_000)
}

/// One turn of the wait before an invitation opens.
#[derive(Clone, Copy, Debug, PartialEq, Eq)]
pub enum SleepStep {
    /// The opening time has come; the (non-positive) remaining nanoseconds.
    Arrived(i64),
    /// At least 210 s remain: report the whole seconds, sleep 10 s.
    WaitLong(i64),
    /// At least 3 s remain: report the whole seconds, sleep 1 s.
    WaitShort(i64),
    /// At least 2 ms remain: report the whole milliseconds, sleep 1 ms.
    WaitMillis(i64),
    /// Less than 2 ms remain: spin.
    BusyWait,
    /// The remaining time does not fit in `i64` nanoseconds.
    Overflow,
    /// An instant could not be represented by chrono.
    OutOfRange,
}

/// The step taken when `(secs, subsec)` remains until the opening time.
pub open spec fn sleep_step_spec(secs: i64, subsec: i32) -> SleepStep {
    match num_nanoseconds(secs, subsec) {
        None => SleepStep::Overflow,
        Some(n) => if n <= 0 {
            SleepStep::Arrived(n as i64)
        } else if n >= 210_000_000_000 {
            SleepStep::WaitLong(secs)
        } else if n >= 3_000_000_000 {
            SleepStep::WaitShort(secs)
        } else if n >= 2_000_000 {
            SleepStep::WaitMillis(num_milliseconds(secs, subsec) as i64)
        } else {
            SleepStep::BusyWait
        },
    }
}

/// Decides the next step of the wait from the time that remains.
pub fn sleep_step(remaining: Span) -> (r: SleepStep)
    ensures
        r == sleep_step_spec(remaining.secs, remaining.subsec_nanos),
{
    let secs = remaining.secs;
    let sub = remaining.subsec_nanos;
    let scaled = match secs.checked_mul(1_000_000_000) {
        None => return SleepStep::Overflow,
        Some(v) => v,
    };
    let n = match scaled.checked_add(sub as i64) {
        None => return SleepStep::Overflow,
        Some(v) => v,
    };
    if n <= 0 {
        SleepStep::Arrived(n)
    } else if n >= 210_000_000_000 {
        SleepStep::WaitLong(secs)
    } else if n >= 3_000_000_000 {
        SleepStep::WaitShort(secs)
    } else if n >= 2_000_000 {
        let sub64 = sub as i64;
        let sub_ms: i64 = if sub64 >= 0 { sub64 / 1_000_000 } else { -((-sub64) / 1_000_000) };
        assert(-9_223_372_037 <= secs <= 9_223_372_037);
        SleepStep::WaitMillis(secs * 1000 + sub_ms)
    } else {
        SleepStep::BusyWait
    }
}

/// The step taken at the moment `(now_secs, now_nanos)`.
pub open spec fn step_at(event: Timestamp, now_secs: i64, now_nanos: u32) -> SleepStep {
    match chrono_span_between(event.secs, event.nanos, now_secs, now_nanos) {
        None => SleepStep::OutOfRange,
        Some(p) => sleep_step_spec(p.0, p.1),
    }
}

/// For an opening time without a leap second, what a step reports agrees
/// with the clock reading: the wait ends with exactly the (non-positive)
/// nanoseconds from the reading to the opening time, and the seconds shown
/// while waiting are that distance's whole seconds.
pub open spec fn step_agrees_with_clock(event: Timestamp, now_secs: i64, now_nanos: u32, step: SleepStep) -> bool {
    let diff = instant_nanos(event.secs, event.nanos) - instant_nanos(now_secs, now_nanos);
    event.nanos < 1_000_000_000 ==> match step {
        SleepStep::Arrived(n) => n == diff && diff <= 0,
        SleepStep::WaitLong(x) => x == div_toward_zero(diff, 1_000_000_000) && diff >= 210_000_000_000,
        SleepStep::WaitShort(x) => x == div_toward_zero(diff, 1_000_000_000) && diff >= 3_000_000_000,
        SleepStep::WaitMillis(_) => diff >= 2_000_000,
        SleepStep::BusyWait => 0 < diff < 2_000_000,
        SleepStep::Overflow => diff < i64::MIN || diff > i64::MAX,
        SleepStep::OutOfRange => !(representable(event.secs, event.nanos) && representable(now_secs, now_nanos)),
    }
}

/// Reads the clock and decides the next step of the wait until `event`.
/// An opening time that chrono can represent is never out of range.
pub fn accurate_sleep_step(event: Timestamp) -> (r: SleepStep)
    ensures
        exists|now_secs: i64, now_nanos: u32| {
            &&& now_nanos < 1_000_000_000
            &&& representable(now_secs, now_nanos)
            &&& is_reading(Timestamp { secs: now_secs, nanos: now_nanos })
            &&& r == #[trigger] step_at(event, now_secs, now_nanos)
            &&& step_agrees_with_clock(event, now_secs, now_nanos, r)
        },
        representable(event.secs, event.nanos) ==> r != SleepStep::OutOfRange,
{
    let now = utc_now();
    let r = match span_between(event, now) {
        None => SleepStep::OutOfRange,
        Some(s) => sleep_step(s),
    };
    assert(r == step_at(event, now.secs, now.nanos));
    assert(step_agrees_with_clock(event, now.secs, now.nanos, r));
    assert(now == Timestamp { secs: now.secs, nanos: now.nanos });
    r
}

/// How long a step sleeps, in nanoseconds.
pub open spec fn sleep_nanos(step: SleepStep) -> int {
    match step {
        SleepStep::WaitLong(_) => 10_000_000_000,
        SleepStep::WaitShort(_) => 1_000_000_000,
        SleepStep::WaitMillis(_) => 1_000_000,
        _ => 0,
    }
}

/// The wait never sleeps past the opening time: every sleep is shorter than
/// the time that remains (at least 200 s, 2 s and 1 ms are left after the
/// long, short and millisecond sleeps); the wait ends only once no time
/// remains, reporting exactly how far past the opening time it is; and it
/// spins only in the last 2 ms.
pub proof fn law_wait_never_overshoots(secs: i64, subsec: i32)
    ensures
        ({
            let step = sleep_step_spec(secs, subsec);
            let total = total_nanos(secs, subsec);
            &&& step is WaitLong ==> total - sleep_nanos(step) >= 200_000_000_000
            &&& step is WaitShort ==> total - sleep_nanos(step) >= 2_000_000_000
            &&& step is WaitMillis ==> total - sleep_nanos(step) >= 1_000_000
            &&& step matches SleepStep::Arrived(n) ==> n == total && n <= 0
            &&& step is BusyWait ==> 0 < total < 2_000_000
            &&& step is Overflow <==> num_nanoseconds(secs, subsec) is None
        }),
{
}


/// The countdown follows the clock: for an opening time without a leap
/// second, a step taken at a clock reading at or after the opening time
/// fires, reporting exactly how far past it the reading is (unless that
/// distance does not fit in `i64` nanoseconds); a step taken before the
/// opening time never fires.
pub proof fn law_countdown_follows_the_clock(event: Timestamp, now: Timestamp, r: SleepStep)
    requires
        event.nanos < 1_000_000_000,
        representable(event.secs, event.nanos),
        is_reading(now),
        step_agrees_with_clock(event, now.secs, now.nanos, r),
    ensures
        ({
            let diff = instant_nanos(event.secs, event.nanos) - instant_nanos(now.secs, now.nanos);
            &&& (i64::MIN <= diff <= 0 ==> r == SleepStep::Arrived(diff as i64))
            &&& (diff > 0 ==> !(r is Arrived))
        }),
{
    lemma_reading_facts(now);
}

/// Once the countdown has fired at one clock reading, it fires at every
/// later reading as well (for an opening time without a leap second, and
/// while the distance fits in `i64` nanoseconds).
pub proof fn law_countdown_stays_fired(event: Timestamp, now1: Timestamp, r1: SleepStep, now2: Timestamp, r2: SleepStep)
    requires
        event.nanos < 1_000_000_000,
        representable(event.secs, event.nanos),
        is_reading(now1),
        is_reading(now2),
        step_agrees_with_clock(event, now1.secs, now1.nanos, r1),
        step_agrees_with_clock(event, now2.secs, now2.nanos, r2),
        r1 is Arrived,
        instant_nanos(now2.secs, now2.nanos) >= instant_nanos(now1.secs, now1.nanos),
        instant_nanos(event.secs, event.nanos) - instant_nanos(now2.secs, now2.nanos) >= i64::MIN,
    ensures
        r2 is Arrived,
{
    law_countdown_follows_the_clock(event, now1, r1);
    law_countdown_follows_the_clock(event, now2, r2);
}

} // verus!
