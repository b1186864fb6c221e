//! Points in UTC time as plain numbers, their RFC 3339 text (through
//! `chrono`), and whole-day offsets.
use vstd::prelude::*;

verus! {

/// The earliest second that `chrono` can represent (-262143-01-01T00:00:00Z).
pub const MIN_TIMESTAMP: i64 = -8334601228800i64;

/// The latest second that `chrono` can represent (+262142-12-31T23:59:59Z).
pub const MAX_TIMESTAMP: i64 = 8210266876799i64;

/// Seconds in a day.
pub const SECS_PER_DAY: i64 = 86400i64;

/// A point in UTC time: whole seconds since 1970-01-01T00:00:00Z and the
/// nanoseconds within that second.
#[derive(Clone, Copy, Debug, PartialEq, Eq, Structural)]
pub struct Timestamp {
    pub secs: i64,
    pub nanos: u32,
}

/// Seconds that `chrono` can represent.
pub open spec fn secs_in_range(secs: int) -> bool {
    MIN_TIMESTAMP <= secs <= MAX_TIMESTAMP
}

/// A timestamp that `chrono` can represent, outside any leap second.
pub open spec fn valid_timestamp(t: Timestamp) -> bool {
    secs_in_range(t.secs as int) && t.nanos < 1_000_000_000
}

/// Name for what `DateTime::<Utc>::to_rfc3339` writes for the instant
/// `secs` seconds and `nanos` nanoseconds after the epoch.
pub uninterp spec fn rfc3339_text(secs: i64, nanos: u32) -> Seq<char>;

#[verifier::external_type_specification]
#[verifier::external_body]
pub struct ExSystemTime(std::time::SystemTime);

/// Calls `std::time::SystemTime::now`.  The reading is the system clock's;
/// nothing is stated of it.
#[verifier::external_body]
fn system_time_now() -> (t: std::time::SystemTime) {
    std::time::SystemTime::now()
}

/// Calls `SystemTime::duration_since(UNIX_EPOCH)` and gives the duration's
/// whole seconds (`as_secs`) and nanoseconds within the second
/// (`subsec_nanos`, which std documents as below one billion); `None` when
/// `t` lies before the epoch (the call's `Err`).
#[verifier::external_body]
fn duration_since_epoch(t: std::time::SystemTime) -> (r: Option<(u64, u32)>)
    ensures
        r matches Some(d) ==> d.1 < 1_000_000_000,
{
    match t.duration_since(std::time::UNIX_EPOCH) {
        Ok(d) => Some((d.as_secs(), d.subsec_nanos())),
        Err(_) => None,
    }
}

/// Builds the `DateTime<Utc>` with `DateTime::from_timestamp` and calls
/// `to_rfc3339` on it; the text is named by `rfc3339_text`.  On the
/// timestamps that `requires` admits, `from_timestamp` gives `Some`.
#[verifier::external_body]
fn format_rfc3339(t: Timestamp) -> (r: String)
    requires
        valid_timestamp(t),
    ensures
        r@ == rfc3339_text(t.secs, t.nanos),
{
    match chrono::DateTime::from_timestamp(t.secs, t.nanos) {
        Some(dt) => dt.to_rfc3339(),
        None => String::new(),
    }
}

impl Timestamp {
    /// The current UTC time, as `chrono::Utc::now` reads it from the system
    /// clock; `None` where that panics: a clock before 1970, or past what
    /// `chrono` represents.
    pub fn now() -> (r: Option<Timestamp>)
        ensures
            r matches Some(t) ==> valid_timestamp(t) && t.secs >= 0,
    {
        match duration_since_epoch(system_time_now()) {
            Some((secs, nanos)) => {
                if secs <= MAX_TIMESTAMP as u64 {
                    Some(Timestamp { secs: secs as i64, nanos })
                } else {
                    None
                }
            },
            None => None,
        }
    }

    /// RFC 3339 text of this instant, as `DateTime::<Utc>::to_rfc3339`
    /// writes it.
    pub fn to_rfc3339(&self) -> (r: String)
        requires
            valid_timestamp(*self),
        ensures
            r@ == rfc3339_text(self.secs, self.nanos),
    {
        format_rfc3339(*self)
    }
}

/// `days` whole days after `t` stays within what `chrono` represents.
pub open spec fn days_later_in_range(t: Timestamp, days: int) -> bool {
    secs_in_range(t.secs + days * SECS_PER_DAY)
}

/// The instant `days` whole days after `t`: for a UTC `DateTime` outside a
/// leap second, adding `TimeDelta::days(days)` adds `days * 86400` seconds
/// and keeps the nanoseconds.
pub open spec fn days_later(t: Timestamp, days: int) -> Timestamp {
    Timestamp { secs: (t.secs + days * SECS_PER_DAY) as i64, nanos: t.nanos }
}

/// Whether `days` days after `t` can be represented (when it cannot,
/// `DateTime + TimeDelta::days` panics).
pub fn days_later_fits(t: Timestamp, days: i64) -> (r: bool)
    requires
        valid_timestamp(t),
    ensures
        r == days_later_in_range(t, days as int),
{
    let span: i64 = MAX_TIMESTAMP - MIN_TIMESTAMP;
    if days > span / SECS_PER_DAY + 1 || days < -(span / SECS_PER_DAY + 1) {
        assert(days * SECS_PER_DAY > span || days * SECS_PER_DAY < -span) by (nonlinear_arith)
            requires
                days > span / SECS_PER_DAY + 1 || days < -(span / SECS_PER_DAY + 1),
                span == MAX_TIMESTAMP - MIN_TIMESTAMP,
                SECS_PER_DAY == 86400,
        ;
        return false;
    }
    assert(-(span + SECS_PER_DAY) <= days * SECS_PER_DAY <= span + SECS_PER_DAY) by (nonlinear_arith)
        requires
            -(span / SECS_PER_DAY + 1) <= days <= span / SECS_PER_DAY + 1,
            span == MAX_TIMESTAMP - MIN_TIMESTAMP,
            SECS_PER_DAY == 86400,
    ;
    let later = t.secs + days * SECS_PER_DAY;
    MIN_TIMESTAMP <= later && later <= MAX_TIMESTAMP
}

/// The instant `days` whole days after `t`.
pub fn add_days(t: Timestamp, days: i64) -> (r: Timestamp)
    requires
        valid_timestamp(t),
        days_later_in_range(t, days as int),
    ensures
        r == days_later(t, days as int),
        valid_timestamp(r),
{
    assert(-(MAX_TIMESTAMP - MIN_TIMESTAMP) <= days * SECS_PER_DAY <= MAX_TIMESTAMP - MIN_TIMESTAMP);
    Timestamp { secs: t.secs + days * SECS_PER_DAY, nanos: t.nanos }
}

} // verus!
