//! Instants of UTC, to the nanosecond, leap seconds among them.
use vstd::prelude::*;

verus! {

/// The first second that a date can name: the start of the year -262143.
pub const MIN_SECS: i64 = -8_334_601_228_800;

/// The last second that a date can name: the end of the year 262142.
pub const MAX_SECS: i64 = 8_210_266_876_799;

/// The milliseconds that a date can name.
pub open spec fn representable_millis(ms: int) -> bool {
    MIN_SECS * 1000 <= ms <= MAX_SECS * 1000 + 999
}

/// An instant: so many seconds since the Unix epoch, and so many nanoseconds
/// into that second. A leap second has no number of its own; it lengthens the
/// last second of a minute, whose nanoseconds then go on from a billion.
#[verifier::ext_equal]
pub ghost struct Moment {
    pub secs: int,
    pub nanos: int,
}

/// A date can name the instant.
pub open spec fn nameable(secs: int, nanos: int) -> bool {
    &&& MIN_SECS <= secs <= MAX_SECS
    &&& 0 <= nanos < 2_000_000_000
    &&& nanos >= 1_000_000_000 ==> secs % 60 == 59
}

impl Moment {
    /// This instant is within a leap second.
    pub open spec fn is_leap(self) -> bool {
        self.nanos >= 1_000_000_000
    }

    /// This instant is before another.
    pub open spec fn before(self, other: Moment) -> bool {
        self.secs < other.secs || (self.secs == other.secs && self.nanos < other.nanos)
    }

    /// The second of the day that this instant falls in.
    pub open spec fn second_of_day(self) -> int {
        self.secs % 86_400
    }
}

/// The instant that many milliseconds after the epoch.
pub open spec fn moment_at(ms: int) -> Moment {
    Moment { secs: ms / 1000, nanos: ms % 1000 * 1_000_000 }
}

/// The milliseconds since the epoch that an instant falls in. Those of a leap
/// second are also those of the second after it.
pub open spec fn millis_of(at: Moment) -> int {
    at.secs * 1000 + at.nanos / 1_000_000
}

/// The leap second to be counted between two instants: that of the one whose
/// second of the day is the earlier, where it is within one.
pub open spec fn leap_between(from: Moment, to: Moment) -> int {
    if from.second_of_day() < to.second_of_day() && from.is_leap() {
        1
    } else if to.second_of_day() < from.second_of_day() && to.is_leap() {
        -1
    } else {
        0
    }
}

/// The whole seconds from one instant to a later one, and 0 where it is not
/// later.
pub open spec fn secs_between(from: Moment, to: Moment) -> int {
    let whole = to.secs - from.secs + leap_between(from, to) + (to.nanos - from.nanos)
        / 1_000_000_000;
    if whole < 0 {
        0
    } else {
        whole
    }
}

/// An instant of UTC that a date can name.
#[derive(Clone, Copy, Debug, PartialEq, Eq)]
pub struct Timestamp {
    secs: i64,
    nanos: u32,
}

impl View for Timestamp {
    type V = Moment;

    /// The instant.
    closed spec fn view(&self) -> Moment {
        Moment { secs: self.secs as int, nanos: self.nanos as int }
    }
}

impl Timestamp {
    #[verifier::type_invariant]
    spec fn in_range(&self) -> bool {
        nameable(self.secs as int, self.nanos as int)
    }

    /// The instant `secs` seconds and `nanos` nanoseconds after the epoch,
    /// where a date can name it. From a billion nanoseconds on it is one of the
    /// leap second that ends a minute.
    pub fn new(secs: i64, nanos: u32) -> (r: Option<Timestamp>)
        ensures
            r is Some <==> nameable(secs as int, nanos as int),
            r is Some ==> r->0@ == (Moment { secs: secs as int, nanos: nanos as int }),
    {
        if secs < MIN_SECS || secs > MAX_SECS || nanos >= 2_000_000_000 {
            return None;
        }
        if nanos >= 1_000_000_000 && (secs - MIN_SECS) % 60 != 59 {
            return None;
        }
        Some(Timestamp { secs, nanos })
    }

    /// The Unix epoch.
    pub fn epoch() -> (r: Timestamp)
        ensures
            r@ == (Moment { secs: 0, nanos: 0 }),
    {
        Timestamp { secs: 0, nanos: 0 }
    }

    /// The instant `ms` milliseconds after the epoch, where a date can name
    /// it.
    pub fn from_millis(ms: i64) -> (r: Option<Timestamp>)
        ensures
            r is Some <==> representable_millis(ms as int),
            r is Some ==> r->0@ == moment_at(ms as int),
    {
        if !date_names_millis(ms) {
            return None;
        }
        let mut secs: i64 = ms / 1000;
        let mut rest: i64 = ms % 1000;
        if rest < 0 {
            secs = secs - 1;
            rest = rest + 1000;
        }
        Some(Timestamp { secs, nanos: rest as u32 * 1_000_000 })
    }

    /// The milliseconds since the epoch that this instant falls in.
    pub fn millis(&self) -> (r: i64)
        ensures
            r == millis_of(self@),
    {
        proof {
            use_type_invariant(self);
        }
        self.secs * 1000 + (self.nanos / 1_000_000) as i64
    }

    /// Whether this instant is at or after another.
    pub fn at_or_after(&self, other: &Timestamp) -> (r: bool)
        ensures
            r == !self@.before(other@),
    {
        self.secs > other.secs || (self.secs == other.secs && self.nanos >= other.nanos)
    }

    /// The second of the day that this instant falls in.
    fn second_of_day(&self) -> (r: i64)
        ensures
            r == self@.second_of_day(),
    {
        proof {
            use_type_invariant(self);
        }
        (self.secs - MIN_SECS) % 86_400
    }

    /// The whole seconds from this instant to a later one, and 0 where it is
    /// not later.
    pub fn secs_until(&self, to: &Timestamp) -> (r: u64)
        ensures
            r == secs_between(self@, to@),
    {
        let (from_second, to_second) = (self.second_of_day(), to.second_of_day());
        proof {
            use_type_invariant(self);
            use_type_invariant(to);
        }
        let mut whole: i64 = to.secs - self.secs;
        if from_second < to_second && self.nanos >= 1_000_000_000 {
            whole = whole + 1;
        } else if to_second < from_second && to.nanos >= 1_000_000_000 {
            whole = whole - 1;
        }
        let apart: i64 = to.nanos as i64 - self.nanos as i64;
        if apart < -1_000_000_000 {
            whole = whole - 2;
        } else if apart < 0 {
            whole = whole - 1;
        } else if apart >= 1_000_000_000 {
            whole = whole + 1;
        }
        if whole < 0 {
            0
        } else {
            whole as u64
        }
    }

    /// The instant as RFC 3339 text.
    pub fn rfc3339(&self) -> (r: String)
        ensures
            r@ == rfc3339_text(self@.secs, self@.nanos),
    {
        proof {
            use_type_invariant(self);
        }
        date_text(self.secs, self.nanos)
    }
}

/// What `chrono::DateTime::<Utc>::to_rfc3339` writes for the instant that many
/// seconds after the epoch and that many nanoseconds into its second.
pub uninterp spec fn rfc3339_text(secs: int, nanos: int) -> Seq<char>;

/// `chrono::DateTime::to_rfc3339` on the instant that
/// `chrono::DateTime::from_timestamp` makes of the two numbers: the text
/// depends on them alone.
#[verifier::external_body]
fn date_text(secs: i64, nanos: u32) -> (r: String)
    requires
        nameable(secs as int, nanos as int),
    ensures
        r@ == rfc3339_text(secs as int, nanos as int),
{
    match chrono::DateTime::from_timestamp(secs, nanos) {
        Some(t) => t.to_rfc3339(),
        None => String::new(),
    }
}

/// `chrono::DateTime::from_timestamp_millis` gives a date for the milliseconds
/// from the start of the year -262143 to the end of the year 262142, and none
/// for any other.
#[verifier::external_body]
fn date_names_millis(ms: i64) -> (r: bool)
    ensures
        r == representable_millis(ms as int),
{
    chrono::DateTime::from_timestamp_millis(ms).is_some()
}

/// `chrono::Utc::now` reads the system clock; what it hands back is an instant
/// that a date can name, and none before the epoch, for which it does not
/// return.
#[verifier::external_body]
fn clock_reading() -> (r: (i64, u32))
    ensures
        0 <= r.0 <= MAX_SECS,
        r.1 < 1_000_000_000,
{
    let t = chrono::Utc::now();
    (t.timestamp(), t.timestamp_subsec_nanos())
}

/// The present instant, as the system clock has it.
pub fn now() -> (r: Timestamp)
    ensures
        0 <= r@.secs <= MAX_SECS,
        0 <= r@.nanos < 1_000_000_000,
{
    let (secs, nanos) = clock_reading();
    Timestamp { secs, nanos }
}

/// The reading of a clock that only runs forward.
#[verifier::external_type_specification]
#[verifier::external_body]
pub struct MonotonicReading(std::time::Instant);

/// `std::time::Instant::now`; nothing is claimed of the reading.
#[verifier::external_body]
pub(crate) fn start_watch() -> (r: std::time::Instant) {
    std::time::Instant::now()
}

/// `std::time::Instant::elapsed`, in whole milliseconds; nothing is claimed of
/// how long it was.
#[verifier::external_body]
pub(crate) fn watched_ms(since: &std::time::Instant) -> (r: u64) {
    since.elapsed().as_millis() as u64
}

/// An instant that was given in milliseconds is read back as it was given.
pub proof fn milliseconds_read_back(ms: int, other: int)
    ensures
        millis_of(moment_at(ms)) == ms,
        0 <= moment_at(ms).nanos < 1_000_000_000,
        moment_at(ms).before(moment_at(other)) <==> ms < other,
{
}

/// Of two instants in ordinary seconds the one comes first that is earlier in
/// nanoseconds.
pub proof fn the_earlier_instant_comes_first(a: Moment, b: Moment)
    requires
        0 <= a.nanos < 1_000_000_000,
        0 <= b.nanos < 1_000_000_000,
    ensures
        a.before(b) <==> a.secs * 1_000_000_000 + a.nanos < b.secs * 1_000_000_000 + b.nanos,
{
}

/// A second that was added to a minute is counted between two instants where it
/// lies between them and the day does not end there: one from it on to a later
/// second of the day is a second longer than the instants say, and one from a
/// later second of the day back to it a second shorter.
pub proof fn a_leap_second_is_counted(from: Moment, to: Moment)
    ensures
        ({
            let plain = to.secs - from.secs + (to.nanos - from.nanos) / 1_000_000_000;
            let n = secs_between(from, to);
            &&& from.secs % 86_400 < to.secs % 86_400 && from.nanos >= 1_000_000_000 && plain >= -1
                ==> n == plain + 1
            &&& from.secs % 86_400 < to.secs % 86_400 && from.nanos < 1_000_000_000 && plain >= 0
                ==> n == plain
            &&& to.secs % 86_400 < from.secs % 86_400 && to.nanos >= 1_000_000_000 && plain >= 1
                ==> n == plain - 1
            &&& to.secs % 86_400 < from.secs % 86_400 && to.nanos < 1_000_000_000 && plain >= 0
                ==> n == plain
            &&& from.secs % 86_400 == to.secs % 86_400 && plain >= 0 ==> n == plain
        }),
{
}

} // verus!
