//! Points in time, held as whole seconds since the Unix epoch and the nanoseconds
//! past that second, and the calls into `chrono` that make or print them.
use vstd::prelude::*;

verus! {

/// A UTC point in time: `secs` whole seconds since 1970-01-01T00:00:00Z and
/// `nanos` nanoseconds past that second.
#[derive(Clone, Copy, Debug, PartialEq, Eq, Structural)]
pub struct UtcTime {
    pub secs: i64,
    pub nanos: u32,
}

/// Strict chronological order on points in time.
pub open spec fn time_lt(a: UtcTime, b: UtcTime) -> bool {
    a.secs < b.secs || (a.secs == b.secs && a.nanos < b.nanos)
}

/// Length of the pseudo lifetime given to a Devin session token: 32 days.
pub const SESSION_PSEUDO_LIFETIME_SECS: i64 = 2_764_800;

/// When a freshly obtained Devin session token is taken to expire: 32 days after `now`.
pub open spec fn pseudo_expiry(now: UtcTime) -> UtcTime {
    UtcTime { secs: (now.secs + SESSION_PSEUDO_LIFETIME_SECS) as i64, nanos: now.nanos }
}

/// Devin session tokens carry no expiry of their own; this gives them one 32 days
/// after `now`, so that a newly stored token does not read as expired.
pub fn session_pseudo_expiry(now: UtcTime) -> (t: UtcTime)
    requires
        now.secs <= i64::MAX - SESSION_PSEUDO_LIFETIME_SECS,
    ensures
        t == pseudo_expiry(now),
{
    UtcTime { secs: now.secs + SESSION_PSEUDO_LIFETIME_SECS, nanos: now.nanos }
}

/// The current time, from `chrono::Utc::now`. Of the value only what holds of
/// every `chrono::DateTime<Utc>` is promised: its year lies within chrono's range
/// (years -262143 to 262142), so its seconds are well inside +/- 9e12, and its
/// sub-second part is below two seconds (leap seconds go past one).
#[verifier::external_body]
pub(crate) fn utc_now() -> (t: UtcTime)
    ensures
        -9_000_000_000_000 <= t.secs <= 9_000_000_000_000,
        t.nanos < 2_000_000_000,
{
    let d = chrono::Utc::now();
    UtcTime { secs: d.timestamp(), nanos: d.timestamp_subsec_nanos() }
}

/// `chrono::DateTime::from_timestamp(secs, 0)`: when it yields a time, that time is
/// exactly `secs` seconds after the epoch, and it yields one for every `secs`
/// within +/- 8e12 (well inside chrono's years -262143 to 262142). Where exactly it
/// yields none beyond that is not restated here.
#[verifier::external_body]
pub(crate) fn utc_from_unix_secs(secs: i64) -> (r: Option<UtcTime>)
    ensures
        r matches Some(t) ==> t.secs == secs && t.nanos == 0,
        -8_000_000_000_000 <= secs <= 8_000_000_000_000 ==> r is Some,
{
    match chrono::DateTime::from_timestamp(secs, 0) {
        Some(d) => Some(UtcTime { secs: d.timestamp(), nanos: d.timestamp_subsec_nanos() }),
        None => None,
    }
}

/// The RFC 3339 text that `chrono` prints for a point in time.
pub uninterp spec fn rfc3339(t: UtcTime) -> Seq<char>;

/// A point in time that chrono can always hold: its sub-second part is below one
/// second, and its seconds lie within +/- 8e12 of the epoch, well inside chrono's
/// years -262143 to 262142 (a little over +/- 8.2e12 seconds).
pub open spec fn within_chrono_range(t: UtcTime) -> bool {
    -8_000_000_000_000 <= t.secs <= 8_000_000_000_000 && t.nanos < 1_000_000_000
}

/// `chrono::DateTime::<Utc>::to_rfc3339` of the point in time `t`, made with
/// `DateTime::from_timestamp(t.secs, t.nanos)`; none when that gives none.
/// `from_timestamp` gives a time for every `t` within [`within_chrono_range`] (its
/// days then fit the date range, and its nanoseconds are below one second), and
/// `to_rfc3339` always yields a text. Where exactly it gives none outside that
/// range (the edges of the year range, leap-second nanoseconds) is not restated.
#[verifier::external_body]
pub(crate) fn rfc3339_text(t: UtcTime) -> (r: Option<String>)
    ensures
        r matches Some(s) ==> s@ == rfc3339(t),
        within_chrono_range(t) ==> r is Some,
{
    match chrono::DateTime::from_timestamp(t.secs, t.nanos) {
        Some(d) => Some(d.to_rfc3339()),
        None => None,
    }
}

} // verus!
