//! Points in time as stored in the tables: a naive (zone-less) date and time,
//! held as seconds since 1970-01-01 00:00:00 and the nanoseconds past them.
use vstd::prelude::*;

verus! {

/// The first second that a naive date-time can hold (1 January of year -262143).
pub const MIN_NAIVE_SECS: i64 = -8334601228800i64;

/// The last second that a naive date-time can hold (31 December of year 262142).
pub const MAX_NAIVE_SECS: i64 = 8210266876799i64;

/// Whether a whole-second timestamp names a date-time that `chrono` can hold.
pub open spec fn naive_secs_in_range(secs: int) -> bool {
    MIN_NAIVE_SECS <= secs <= MAX_NAIVE_SECS
}

/// What `chrono::NaiveDateTime::parse_from_str` yields for a text and a format,
/// as (seconds, nanoseconds).
pub uninterp spec fn naive_parse_result(s: Seq<char>, fmt: Seq<char>) -> Option<(i64, u32)>;

/// Calls `chrono::Local::now().naive_local()`: the local wall-clock time. Claims
/// only what holds of every naive date-time: the seconds lie in chrono's range
/// and the nanoseconds are below two seconds (leap seconds reach past one).
#[verifier::external_body]
fn local_now() -> (r: (i64, u32))
    ensures
        naive_secs_in_range(r.0 as int),
        r.1 < 2_000_000_000,
{
    let t = chrono::Local::now().naive_local().and_utc();
    (t.timestamp(), t.timestamp_subsec_nanos())
}

/// Calls `chrono::NaiveDateTime::from_timestamp_opt(secs, 0)` and reads the
/// date-time back. Claims that it exists exactly for the seconds in chrono's
/// range, and that it reads back as the same seconds with no nanoseconds.
#[allow(deprecated)]
#[verifier::external_body]
fn naive_from_unix_secs(secs: i64) -> (r: Option<(i64, u32)>)
    ensures
        r is Some <==> naive_secs_in_range(secs as int),
        r matches Some(p) ==> p == (secs, 0u32),
{
    match chrono::NaiveDateTime::from_timestamp_opt(secs, 0) {
        Some(t) => Some((t.and_utc().timestamp(), t.and_utc().timestamp_subsec_nanos())),
        None => None,
    }
}

/// Calls `chrono::NaiveDateTime::parse_from_str(s, fmt)`. Claims that the result
/// is the one named `naive_parse_result`, and that a parsed date-time is one
/// chrono can hold.
#[verifier::external_body]
fn naive_parse(s: &str, fmt: &str) -> (r: Option<(i64, u32)>)
    ensures
        r == naive_parse_result(s@, fmt@),
        r matches Some(p) ==> naive_secs_in_range(p.0 as int) && p.1 < 2_000_000_000,
{
    match chrono::NaiveDateTime::parse_from_str(s, fmt) {
        Ok(t) => Some((t.and_utc().timestamp(), t.and_utc().timestamp_subsec_nanos())),
        Err(_) => None,
    }
}

/// The error of `FlexTimestamp::from_str`: the text is not a date-time in the
/// expected format.
#[derive(Clone, Copy, PartialEq, Eq, Structural, Debug)]
pub struct TimestampParseError;

/// A naive date and time.
#[derive(Clone, Copy, PartialEq, Eq, Structural, Debug)]
pub struct FlexTimestamp {
    pub secs: i64,
    pub nanos: u32,
}

/// The format with a fraction after the seconds, `2019-11-02T10:20:30.123`;
/// chrono's `%f` reads the digits after the dot as a count of nanoseconds.
pub open spec fn format_with_fraction() -> Seq<char> {
    "%Y-%m-%dT%H:%M:%S.%f"@
}

/// The format without fractional seconds, `2019-11-02T10:20:30`.
pub open spec fn format_without_fraction() -> Seq<char> {
    "%Y-%m-%dT%H:%M:%S"@
}

impl FlexTimestamp {
    /// A date-time that `chrono` can hold.
    pub open spec fn valid(self) -> bool {
        naive_secs_in_range(self.secs as int) && self.nanos < 2_000_000_000
    }

    /// The position of this instant on the time line, for ordering.
    pub open spec fn key(self) -> int {
        self.secs * 2_000_000_000 + self.nanos
    }

    /// `self` is at or after `other`.
    pub open spec fn spec_at_or_after(self, other: FlexTimestamp) -> bool {
        self.secs > other.secs || (self.secs == other.secs && self.nanos >= other.nanos)
    }

    /// The current local date-time.
    pub fn now() -> (t: FlexTimestamp)
        ensures
            t.valid(),
    {
        let (secs, nanos) = local_now();
        FlexTimestamp { secs, nanos }
    }

    /// The date-time `x` seconds after 1970-01-01 00:00:00.
    pub fn from_timestamp(x: i64) -> (t: FlexTimestamp)
        requires
            naive_secs_in_range(x as int),
        ensures
            t == (FlexTimestamp { secs: x, nanos: 0 }),
            t.valid(),
    {
        FlexTimestamp { secs: x, nanos: 0 }
    }

    /// The date-time `x` seconds after 1970-01-01 00:00:00, or `None` where
    /// no such date-time can be held.
    pub fn try_from_timestamp(x: i64) -> (t: Option<FlexTimestamp>)
        ensures
            naive_secs_in_range(x as int) ==> t == Some(FlexTimestamp { secs: x, nanos: 0 }),
            !naive_secs_in_range(x as int) ==> t is None,
    {
        match naive_from_unix_secs(x) {
            Some(_) => Some(FlexTimestamp::from_timestamp(x)),
            None => None,
        }
    }

    /// The whole seconds since 1970-01-01 00:00:00.
    pub fn timestamp(&self) -> (x: i64)
        ensures
            x == self.secs,
    {
        self.secs
    }

    /// Whether `self` is at or after `other`.
    pub fn at_or_after(&self, other: &FlexTimestamp) -> (b: bool)
        ensures
            b == self.spec_at_or_after(*other),
            self.nanos < 2_000_000_000 && other.nanos < 2_000_000_000 ==> b == (self.key()
                >= other.key()),
    {
        proof {
            if self.nanos < 2_000_000_000 && other.nanos < 2_000_000_000 {
                lemma_key_order(*self, *other);
            }
        }
        self.secs > other.secs || (self.secs == other.secs && self.nanos >= other.nanos)
    }

    /// The ordering key of `key`, as a machine integer.
    pub fn order_key(&self) -> (k: i128)
        ensures
            k == self.key(),
    {
        self.secs as i128 * 2_000_000_000i128 + self.nanos as i128
    }

    /// Parses `YYYY-MM-DDTHH:MM:SS.n`; the part after the dot is required and
    /// counts nanoseconds.
    pub fn from_str(s: &str) -> (r: Result<FlexTimestamp, TimestampParseError>)
        ensures
            match naive_parse_result(s@, format_with_fraction()) {
                Some(p) => r == Ok::<FlexTimestamp, TimestampParseError>(FlexTimestamp { secs: p.0, nanos: p.1 }),
                None => r == Err::<FlexTimestamp, TimestampParseError>(TimestampParseError),
            },
            r matches Ok(t) ==> t.valid(),
    {
        match naive_parse(s, "%Y-%m-%dT%H:%M:%S.%f") {
            Some((secs, nanos)) => Ok(FlexTimestamp { secs, nanos }),
            None => Err(TimestampParseError),
        }
    }

    /// Reads a date-time as it comes in a request or an export: first with
    /// fractional seconds, and where that fails without them.
    pub fn parse_flexible(s: &str) -> (r: Option<FlexTimestamp>)
        ensures
            r == match naive_parse_result(s@, format_with_fraction()) {
                Some(p) => Some(FlexTimestamp { secs: p.0, nanos: p.1 }),
                None => match naive_parse_result(s@, format_without_fraction()) {
                    Some(q) => Some(FlexTimestamp { secs: q.0, nanos: q.1 }),
                    None => None,
                },
            },
            r matches Some(t) ==> t.valid(),
    {
        match naive_parse(s, "%Y-%m-%dT%H:%M:%S.%f") {
            Some((secs, nanos)) => Some(FlexTimestamp { secs, nanos }),
            None => match naive_parse(s, "%Y-%m-%dT%H:%M:%S") {
                Some((secs, nanos)) => Some(FlexTimestamp { secs, nanos }),
                None => None,
            },
        }
    }
}

/// The ordering key orders instants by seconds, then by nanoseconds.
pub proof fn lemma_key_order(a: FlexTimestamp, b: FlexTimestamp)
    requires
        a.nanos < 2_000_000_000,
        b.nanos < 2_000_000_000,
    ensures
        a.spec_at_or_after(b) == (a.key() >= b.key()),
{
    let sa = a.secs as int;
    let sb = b.secs as int;
    if sa > sb {
        assert(sa * 2_000_000_000 >= sb * 2_000_000_000 + 2_000_000_000) by (nonlinear_arith)
            requires
                sa > sb,
        ;
    } else if sa < sb {
        assert(sb * 2_000_000_000 >= sa * 2_000_000_000 + 2_000_000_000) by (nonlinear_arith)
            requires
                sa < sb,
        ;
    }
}

impl Default for FlexTimestamp {
    /// The current local date-time, as a new record gets.
    fn default() -> (t: FlexTimestamp)
        ensures
            t.valid(),
    {
        FlexTimestamp::now()
    }
}

} // verus!
