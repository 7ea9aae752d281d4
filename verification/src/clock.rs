//! Readings of the system clock. An instant or a time stamp counts as a
//! reading only when the clock gave it: outside this module, nothing else
//! can be shown to be one.
use vstd::prelude::*;
use crate::time::{representable, utc_stamp_shape, Timestamp};

verus! {

/// `t` is an instant as the system clock reported it: below one second of
/// sub-second part, and one that chrono can represent.
pub closed spec fn is_reading(t: Timestamp) -> bool {
    t.nanos < 1_000_000_000 && representable(t.secs, t.nanos)
}

/// `s` is the current UTC time as the clock reported it, formatted as
/// `%Y-%m-%dT%H:%M:%SZ`.
pub closed spec fn is_clock_stamp(s: Seq<char>) -> bool {
    utc_stamp_shape(s)
}

/// What every clock reading satisfies.
pub proof fn lemma_reading_facts(t: Timestamp)
    requires
        is_reading(t),
    ensures
        t.nanos < 1_000_000_000,
        representable(t.secs, t.nanos),
{
}

/// What every clock stamp satisfies.
pub proof fn lemma_stamp_facts(s: Seq<char>)
    requires
        is_clock_stamp(s),
    ensures
        utc_stamp_shape(s),
{
}

} // verus!
