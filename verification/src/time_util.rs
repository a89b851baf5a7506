//! Instants on the UTC scale and their time stamps in the time zone of
//! Shanghai. Nothing here reads a clock: the caller hands the instant in.

use vstd::prelude::*;

verus! {

/// Seconds since the Unix epoch of -262143-01-01T00:00:00Z, the earliest
/// instant that `chrono` represents.
pub const MIN_UTC_SECS: i64 = -8_334_601_228_800;

/// Seconds since the Unix epoch of +262142-12-31T23:59:59Z, the last second
/// that `chrono` represents.
pub const MAX_UTC_SECS: i64 = 8_210_266_876_799;

/// An instant on the UTC scale that `chrono` represents: whole seconds since
/// 1970-01-01T00:00:00Z, and the nanoseconds that have passed since that
/// second began.
#[derive(Clone, Copy, Debug)]
pub struct UtcInstant {
    secs: i64,
    nanos: u32,
}

/// Whether `chrono` represents the instant. A count of nanoseconds of one
/// thousand million or more stands for a leap second, which can only follow
/// the last second of a minute.
pub open spec fn representable(secs: int, nanos: int) -> bool {
    &&& MIN_UTC_SECS <= secs <= MAX_UTC_SECS
    &&& 0 <= nanos < 2_000_000_000
    &&& nanos >= 1_000_000_000 ==> secs % 60 == 59
}

/// The text that `chrono` writes for the instant in the zone
/// `Asia/Shanghai`, in the form of RFC 3339.
pub uninterp spec fn shanghai_rfc3339(secs: int, nanos: int) -> Seq<char>;

impl UtcInstant {
    #[verifier::type_invariant]
    spec fn inv(self) -> bool {
        representable(self.secs as int, self.nanos as int)
    }

    /// Whole seconds since the Unix epoch.
    pub closed spec fn spec_secs(self) -> i64 {
        self.secs
    }

    /// Nanoseconds since the last whole second.
    pub closed spec fn spec_nanos(self) -> u32 {
        self.nanos
    }

    /// The instant of the given seconds and nanoseconds, where `chrono`
    /// represents it.
    pub fn new(secs: i64, nanos: u32) -> (instant: Option<UtcInstant>)
        ensures
            instant is Some <==> representable(secs as int, nanos as int),
            instant matches Some(t) ==> t.spec_secs() == secs && t.spec_nanos() == nanos,
    {
        if secs < MIN_UTC_SECS || secs > MAX_UTC_SECS || nanos >= 2_000_000_000 {
            return None;
        }
        if nanos >= 1_000_000_000 {
            let second = secs.checked_rem_euclid(60);
            if second != Some(59) {
                return None;
            }
        }
        Some(UtcInstant { secs, nanos })
    }

    /// Whole seconds since the Unix epoch.
    #[verifier::when_used_as_spec(spec_secs)]
    pub fn secs(self) -> (secs: i64)
        ensures
            secs == self.spec_secs(),
            representable(self.spec_secs() as int, self.spec_nanos() as int),
    {
        proof {
            use_type_invariant(self);
        }
        self.secs
    }

    /// Nanoseconds since the last whole second.
    #[verifier::when_used_as_spec(spec_nanos)]
    pub fn nanos(self) -> (nanos: u32)
        ensures
            nanos == self.spec_nanos(),
            representable(self.spec_secs() as int, self.spec_nanos() as int),
    {
        proof {
            use_type_invariant(self);
        }
        self.nanos
    }

    /// Milliseconds since the Unix epoch, the rest of a millisecond dropped.
    pub fn timestamp_millis(self) -> (ms: i64)
        ensures
            ms == self.spec_secs() * 1000 + self.spec_nanos() / 1_000_000,
    {
        proof {
            use_type_invariant(self);
        }
        let sub: u32 = self.nanos / 1_000_000;
        self.secs * 1000 + sub as i64
    }
}

/// The time stamp of `instant` in the zone of Shanghai.
pub fn utc_to_sh_rfc3339(instant: UtcInstant) -> (text: String)
    ensures
        text@ == shanghai_rfc3339(instant.spec_secs() as int, instant.spec_nanos() as int),
{
    let secs: i64 = instant.secs();
    let nanos: u32 = instant.nanos();
    outside_shanghai_rfc3339(secs, nanos)
}

/// Calls `chrono::DateTime::from_timestamp`, then `DateTime::with_timezone`
/// with `chrono_tz::Asia::Shanghai`, then `DateTime::to_rfc3339`. Taken on
/// trust: the first gives a value for every representable instant, so that
/// nothing panics; and what the last one writes depends on the instant and
/// on the rules of the zone alone, which `chrono_tz` holds as constants, so
/// that the same instant always gives the same text. What the text is, is
/// not stated here.
#[verifier::external_body]
fn outside_shanghai_rfc3339(secs: i64, nanos: u32) -> (text: String)
    requires
        representable(secs as int, nanos as int),
    ensures
        text@ == shanghai_rfc3339(secs as int, nanos as int),
{
    let utc = chrono::DateTime::from_timestamp(secs, nanos).unwrap();
    utc.with_timezone(&chrono_tz::Asia::Shanghai).to_rfc3339()
}

} // verus!
