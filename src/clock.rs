//! Wall-clock instants as the library holds them: Unix seconds and a
//! nanosecond part, within the calendar range that the `time` crate accepts.
use vstd::prelude::*;

use crate::error::InvalidRequestError;
use crate::wire::Timestamp;

verus! {

/// Unix seconds of -9999-01-01T00:00:00 UTC.
pub const UNIX_MIN: i64 = -377705116800;

/// Unix seconds of 9999-12-31T23:59:59 UTC.
pub const UNIX_MAX: i64 = 253402300799;

/// Nanoseconds in one second.
pub const NANOS_PER_SECOND: i64 = 1000000000;

/// A UTC instant.
#[derive(Clone, Copy, Debug, PartialEq, Eq, Structural)]
pub struct WallClock {
    pub unix_seconds: i64,
    pub nanosecond: u32,
}

impl WallClock {
    /// Within the calendar range, with a nanosecond part under one second.
    pub open spec fn wf(self) -> bool {
        &&& UNIX_MIN <= self.unix_seconds <= UNIX_MAX
        &&& self.nanosecond < NANOS_PER_SECOND
    }

    /// Nanoseconds since the Unix epoch.
    pub open spec fn total_nanos(self) -> int {
        self.unix_seconds * NANOS_PER_SECOND + self.nanosecond
    }
}

/// The instant that a wire timestamp denotes, in nanoseconds since the epoch.
pub open spec fn instant_of(ts: Timestamp) -> int {
    ts.seconds * NANOS_PER_SECOND + ts.nanos
}

/// Whether a wire timestamp can be read as an instant: its seconds name a
/// representable time, and so does the instant after its nanoseconds are added.
pub open spec fn timestamp_readable(ts: Timestamp) -> bool {
    &&& UNIX_MIN <= ts.seconds <= UNIX_MAX
    &&& UNIX_MIN * NANOS_PER_SECOND <= instant_of(ts) < (UNIX_MAX + 1) * NANOS_PER_SECOND
}

/// Relies on `time::OffsetDateTime::from_unix_timestamp`: it succeeds exactly on
/// the seconds from -9999-01-01 to 9999-12-31T23:59:59 UTC (the crate's range
/// without its `large-dates` feature).
#[verifier::external_body]
fn unix_seconds_representable(seconds: i64) -> (r: bool)
    ensures
        r == (UNIX_MIN <= seconds <= UNIX_MAX),
{
    time::OffsetDateTime::from_unix_timestamp(seconds).is_ok()
}

/// Relies on `time::OffsetDateTime::now_utc`, `unix_timestamp` and
/// `nanosecond`: the current instant, whose nanosecond part is under one second.
#[verifier::external_body]
pub(crate) fn now() -> (r: WallClock)
    ensures
        r.wf(),
{
    let n = time::OffsetDateTime::now_utc();
    WallClock { unix_seconds: n.unix_timestamp(), nanosecond: n.nanosecond() }
}

/// Two well-formed instants with the same nanosecond count are the same.
pub proof fn lemma_total_nanos_injective(a: WallClock, b: WallClock)
    requires
        a.wf(),
        b.wf(),
        a.total_nanos() == b.total_nanos(),
    ensures
        a == b,
{
    let sa = a.unix_seconds as int;
    let sb = b.unix_seconds as int;
    let na = a.nanosecond as int;
    let nb = b.nanosecond as int;
    assert(sa == sb) by (nonlinear_arith)
        requires
            sa * 1000000000 + na == sb * 1000000000 + nb,
            0 <= na < 1000000000,
            0 <= nb < 1000000000,
    ;
}

/// Reads a wire timestamp as an instant: its seconds plus its nanoseconds,
/// which may be negative or exceed a second.
pub fn to_primtive_time(ts: Timestamp) -> (r: Result<WallClock, InvalidRequestError>)
    ensures
        r is Ok <==> timestamp_readable(ts),
        r matches Ok(w) ==> w.wf() && w.total_nanos() == instant_of(ts),
        r matches Err(e) ==> e == InvalidRequestError::InvalidTime,
{
    if !unix_seconds_representable(ts.seconds) {
        return Err(InvalidRequestError::InvalidTime);
    }
    let total: i128 = (ts.seconds as i128) * 1000000000i128 + (ts.nanos as i128);
    let low: i128 = (UNIX_MIN as i128) * 1000000000i128;
    let high: i128 = ((UNIX_MAX as i128) + 1) * 1000000000i128;
    if total < low || total >= high {
        return Err(InvalidRequestError::InvalidTime);
    }
    let off: u128 = (total - low) as u128;
    let q: u128 = off / 1000000000u128;
    let rem: u128 = off % 1000000000u128;
    proof {
        assert(off == q * 1000000000 + rem) by (nonlinear_arith)
            requires
                q == off / 1000000000,
                rem == off % 1000000000,
        ;
        assert(q * 1000000000 < high - low) by (nonlinear_arith)
            requires
                off == q * 1000000000 + rem,
                rem >= 0,
                off < high - low,
        ;
        assert(q < (UNIX_MAX as int) - (UNIX_MIN as int) + 1) by (nonlinear_arith)
            requires
                q * 1000000000 < ((UNIX_MAX as int) - (UNIX_MIN as int) + 1) * 1000000000,
        ;
    }
    let secs: i64 = ((q as i128) + (UNIX_MIN as i128)) as i64;
    let w = WallClock { unix_seconds: secs, nanosecond: rem as u32 };
    proof {
        assert(w.total_nanos() == instant_of(ts)) by (nonlinear_arith)
            requires
                w.unix_seconds == q + UNIX_MIN,
                w.nanosecond == rem,
                off == q * 1000000000 + rem,
                off == total - low,
                low == UNIX_MIN * 1000000000,
                total == instant_of(ts),
                NANOS_PER_SECOND == 1000000000,
        ;
    }
    Ok(w)
}

/// The wire timestamp of an instant: its Unix seconds and nanosecond part.
pub fn from_timestamp(ts: WallClock) -> (r: Option<Timestamp>)
    ensures
        r == Some(Timestamp { seconds: ts.unix_seconds, nanos: ts.nanosecond as i32 }),
{
    Some(Timestamp { seconds: ts.unix_seconds, nanos: ts.nanosecond as i32 })
}

/// Writing an instant out to the wire and reading it back gives the same
/// instant.
pub proof fn lemma_timestamp_round_trip(w: WallClock)
    requires
        w.wf(),
    ensures
        ({
            let ts = Timestamp { seconds: w.unix_seconds, nanos: w.nanosecond as i32 };
            &&& timestamp_readable(ts)
            &&& forall|v: WallClock| v.wf() && v.total_nanos() == instant_of(ts) ==> v == w
        }),
{
    let ts = Timestamp { seconds: w.unix_seconds, nanos: w.nanosecond as i32 };
    assert(instant_of(ts) == w.total_nanos());
    let s = w.unix_seconds as int;
    let n = w.nanosecond as int;
    assert(UNIX_MIN * NANOS_PER_SECOND <= s * NANOS_PER_SECOND + n < (UNIX_MAX + 1) * NANOS_PER_SECOND)
        by (nonlinear_arith)
        requires
            UNIX_MIN <= s <= UNIX_MAX,
            0 <= n < NANOS_PER_SECOND,
            NANOS_PER_SECOND == 1000000000,
    ;
    assert forall|v: WallClock| v.wf() && v.total_nanos() == instant_of(ts) implies v == w by {
        lemma_total_nanos_injective(v, w);
    }
}

} // verus!
