//! Points in time, held as plain integers, and their RFC 3339 notation.

use vstd::prelude::*;

verus! {

/// The first second that a four-digit year can hold: `0000-01-01T00:00:00Z`.
pub const FIRST_SECOND: i64 = -62_167_219_200;

/// The last second that a four-digit year can hold: `9999-12-31T23:59:59Z`.
pub const LAST_SECOND: i64 = 253_402_300_799;

/// One second in nanoseconds.
pub const NANOS_PER_SECOND: u32 = 1_000_000_000;

/// One day in seconds; an offset from UTC stays strictly below it.
pub const SECONDS_PER_DAY: i32 = 86_400;

/// Whether the three numbers describe an instant that a `Timestamp` may hold:
/// a second within the years 0000 to 9999 of UTC, a fraction below one
/// second, and an offset from UTC of less than a day to either side.
pub open spec fn representable(seconds: int, nanos: int, offset: int) -> bool {
    &&& FIRST_SECOND <= seconds <= LAST_SECOND
    &&& 0 <= nanos < NANOS_PER_SECOND
    &&& -SECONDS_PER_DAY < offset < SECONDS_PER_DAY
}

/// The RFC 3339 notation of the instant `seconds` and `nanos` after the Unix
/// epoch, written in the zone that is `offset` seconds east of UTC, as chrono
/// prints it. It says nothing of numbers that are not `representable`.
pub uninterp spec fn rfc3339_text(seconds: i64, nanos: u32, offset: i32) -> Seq<char>;

/// An instant with the offset of the zone it was observed in.
#[derive(Clone, Copy, Debug)]
pub struct Timestamp {
    seconds: i64,
    nanos: u32,
    offset: i32,
}

impl Timestamp {
    /// Whole seconds since the Unix epoch.
    pub closed spec fn seconds(self) -> i64 {
        self.seconds
    }

    /// Nanoseconds since the last whole second.
    pub closed spec fn nanos(self) -> u32 {
        self.nanos
    }

    /// Seconds that the local zone is ahead of UTC.
    pub closed spec fn offset(self) -> i32 {
        self.offset
    }

    /// Nanoseconds since the Unix epoch: the number by which instants are
    /// ordered, whatever their zone.
    pub open spec fn instant(self) -> int {
        self.seconds() * NANOS_PER_SECOND + self.nanos()
    }

    /// What every timestamp in a running program satisfies.
    pub open spec fn wf(self) -> bool {
        representable(self.seconds() as int, self.nanos() as int, self.offset() as int)
    }

    #[verifier::type_invariant]
    spec fn held(self) -> bool {
        self.wf()
    }

    /// The timestamp of the given numbers, or `None` where they are not
    /// `representable`.
    pub fn new(seconds: i64, nanos: u32, offset: i32) -> (r: Option<Timestamp>)
        ensures
            r is Some <==> representable(seconds as int, nanos as int, offset as int),
            r is Some ==> r->0.seconds() == seconds && r->0.nanos() == nanos && r->0.offset()
                == offset,
    {
        if FIRST_SECOND <= seconds && seconds <= LAST_SECOND && nanos < NANOS_PER_SECOND
            && -SECONDS_PER_DAY < offset && offset < SECONDS_PER_DAY {
            Some(Timestamp { seconds, nanos, offset })
        } else {
            None
        }
    }

    /// The present moment in the local zone, or `None` where the system clock
    /// is set outside the years that a timestamp can hold.
    pub fn now() -> (r: Option<Timestamp>)
        ensures
            r matches Some(read) ==> read.wf(),
    {
        let (seconds, nanos, offset) = local_now();
        Timestamp::new(seconds, nanos, offset)
    }

    /// Whole seconds since the Unix epoch.
    pub fn unix_seconds(&self) -> (r: i64)
        ensures
            r == self.seconds(),
    {
        self.seconds
    }

    /// Nanoseconds since the last whole second.
    pub fn subsec_nanos(&self) -> (r: u32)
        ensures
            r == self.nanos(),
            r < NANOS_PER_SECOND,
    {
        proof {
            use_type_invariant(self);
        }
        self.nanos
    }

    /// Seconds that the local zone is ahead of UTC.
    pub fn offset_seconds(&self) -> (r: i32)
        ensures
            r == self.offset(),
    {
        self.offset
    }

    /// Whether `self` lies strictly before `other` in time.
    pub fn is_before(&self, other: &Timestamp) -> (r: bool)
        ensures
            r == (self.instant() < other.instant()),
    {
        proof {
            use_type_invariant(self);
            use_type_invariant(other);
            assert(self.instant() < other.instant() <==> (self.seconds < other.seconds || (
            self.seconds == other.seconds && self.nanos < other.nanos))) by (nonlinear_arith)
                requires
                    self.instant() == self.seconds * 1_000_000_000 + self.nanos,
                    other.instant() == other.seconds * 1_000_000_000 + other.nanos,
                    0 <= self.nanos < 1_000_000_000,
                    0 <= other.nanos < 1_000_000_000,
            ;
        }
        self.seconds < other.seconds || (self.seconds == other.seconds && self.nanos
            < other.nanos)
    }

    /// The timestamp in RFC 3339 notation, such as `1996-12-19T16:39:57-08:00`.
    pub fn to_rfc3339(&self) -> (r: String)
        ensures
            r@ == rfc3339_text(self.seconds(), self.nanos(), self.offset()),
    {
        proof {
            use_type_invariant(self);
        }
        rfc3339(self.seconds, self.nanos, self.offset).unwrap()
    }
}

/// Reads the clock with chrono's `Local::now` and takes the result apart with
/// `DateTime::timestamp`, `DateTime::timestamp_subsec_nanos` and
/// `FixedOffset::local_minus_utc`. Nothing is claimed of the numbers: they
/// depend on the clock and the zone of the machine. chrono itself gives up
/// where the clock is set before 1970.
#[verifier::external_body]
fn local_now() -> (r: (i64, u32, i32)) {
    let now = chrono::Local::now();
    (now.timestamp(), now.timestamp_subsec_nanos(), now.offset().local_minus_utc())
}

/// Builds the instant with chrono's `FixedOffset::east_opt` and
/// `TimeZone::timestamp_opt` and prints it with `DateTime::to_rfc3339`.
/// Trusted: the text is a function of the three numbers alone, and chrono
/// accepts every `representable` triple, so that `None` tells of numbers
/// outside that range.
#[verifier::external_body]
fn rfc3339(seconds: i64, nanos: u32, offset: i32) -> (r: Option<String>)
    ensures
        r is Some ==> r->0@ == rfc3339_text(seconds, nanos, offset),
        representable(seconds as int, nanos as int, offset as int) ==> r is Some,
{
    let zone = chrono::FixedOffset::east_opt(offset)?;
    let at = chrono::TimeZone::timestamp_opt(&zone, seconds, nanos).single()?;
    Some(at.to_rfc3339())
}

} // verus!
