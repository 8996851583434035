use vstd::prelude::*;

use core::time::Duration;
use std::time::{SystemTime, UNIX_EPOCH};

verus! {

/// The cached list of template names, with the time it was fetched.
pub struct CachedTypes {
    /// Seconds since the Unix epoch.
    pub fetched_at: u64,
    pub types: Vec<String>,
}

/// The whole seconds of a duration, as `Duration::as_secs` gives them.
pub uninterp spec fn secs_of(d: Duration) -> nat;

/// The sub-second part of a duration in nanoseconds, as `Duration::subsec_nanos` gives it.
pub uninterp spec fn subsec_nanos_of(d: Duration) -> nat;

/// Relies on `Duration::as_secs`: the whole seconds of `d`.
#[verifier::external_body]
fn duration_secs(d: &Duration) -> (r: u64)
    ensures
        r == secs_of(*d),
{
    d.as_secs()
}

/// Relies on `Duration::subsec_nanos`: the fractional part of `d` in nanoseconds, which
/// its documentation puts below one second.
#[verifier::external_body]
fn duration_subsec_nanos(d: &Duration) -> (r: u32)
    ensures
        r == subsec_nanos_of(*d),
        r < NANOS_PER_SEC,
{
    d.subsec_nanos()
}

#[verifier::external_type_specification]
#[verifier::external_body]
pub struct ExSystemTime(SystemTime);

/// Relies on `SystemTime::now`: the current time of the system clock.
#[verifier::external_body]
fn system_now() -> (r: SystemTime) {
    SystemTime::now()
}

/// Relies on `SystemTime::duration_since(UNIX_EPOCH)`: the time since the epoch, or `None`
/// when `t` stands before it.
#[verifier::external_body]
fn since_epoch(t: &SystemTime) -> (r: Option<Duration>) {
    t.duration_since(UNIX_EPOCH).ok()
}

pub const NANOS_PER_SEC: u32 = 1_000_000_000;

/// A time or a span given as whole seconds and nanoseconds, in nanoseconds.
pub open spec fn in_nanos(secs: int, nanos: int) -> int {
    secs * 1_000_000_000 + nanos
}

/// The latest time past the epoch, in nanoseconds, that a `Duration` can hold.
pub open spec fn latest_reading() -> int {
    in_nanos(u64::MAX as int, 999_999_999)
}

/// The exact span of `d` in nanoseconds.
pub open spec fn duration_nanos(d: Duration) -> int {
    in_nanos(secs_of(d) as int, subsec_nanos_of(d) as int)
}

impl CachedTypes {
    /// An entry is fresh at `now` under `ttl` (both in nanoseconds) unless its age, `now`
    /// less the time it was fetched, exceeds `ttl`. An entry stamped after `now` has a
    /// negative age and is fresh.
    pub open spec fn fresh_at(&self, now: int, ttl: int) -> bool {
        now - in_nanos(self.fetched_at as int, 0) <= ttl
    }

    /// Whether the entry is fresh at `now_secs` and `now_nanos` past the epoch, under a
    /// time-to-live of `ttl_secs` and `ttl_nanos`.
    pub fn is_fresh_at(&self, now_secs: u64, now_nanos: u32, ttl_secs: u64, ttl_nanos: u32) -> (r: bool)
        ensures
            r == self.fresh_at(in_nanos(now_secs as int, now_nanos as int), in_nanos(ttl_secs as int, ttl_nanos as int)),
    {
        let scale: u128 = 1_000_000_000;
        let fetched: u128 = (self.fetched_at as u128) * scale;
        let now: u128 = (now_secs as u128) * scale + (now_nanos as u128);
        let ttl: u128 = (ttl_secs as u128) * scale + (ttl_nanos as u128);
        fetched >= now || now - fetched <= ttl
    }

    /// Whether the entry is fresh now under `ttl`, by the system clock. The decision is that
    /// of `is_fresh_at` on the time read; a clock before the epoch puts every entry in the
    /// future, so every entry is then fresh. A time-to-live that no reading of the clock can
    /// exceed makes every entry fresh.
    pub fn is_fresh(&self, ttl: Duration) -> (r: bool)
        ensures
            exists|now: int| 0 <= now <= latest_reading() && r == self.fresh_at(now, duration_nanos(ttl)),
            duration_nanos(ttl) >= latest_reading() ==> r,
    {
        let ttl_secs = duration_secs(&ttl);
        let ttl_nanos = duration_subsec_nanos(&ttl);
        let clock = system_now();
        match since_epoch(&clock) {
            Some(elapsed) => {
                let now_secs = duration_secs(&elapsed);
                let now_nanos = duration_subsec_nanos(&elapsed);
                let r = self.is_fresh_at(now_secs, now_nanos, ttl_secs, ttl_nanos);
                let ghost now = in_nanos(now_secs as int, now_nanos as int);
                assert(0 <= now <= latest_reading());
                assert(r == self.fresh_at(now, duration_nanos(ttl)));
                r
            },
            None => {
                assert(self.fresh_at(0, duration_nanos(ttl)));
                true
            },
        }
    }
}

/// An entry stamped with the current time is fresh under any time-to-live, one stamped
/// later than now is fresh too, and one stamped at the epoch is stale once more than the
/// time-to-live has passed since.
pub proof fn freshness_bounds(c: CachedTypes, now: int, ttl: int)
    requires
        ttl >= 0,
    ensures
        in_nanos(c.fetched_at as int, 0) >= now ==> c.fresh_at(now, ttl),
        c.fetched_at == 0 && now > ttl ==> !c.fresh_at(now, ttl),
{
}

/// The cache time-to-live in seconds for a window given in minutes, saturating at the
/// largest `u64`.
pub fn ttl_seconds(minutes: u64) -> (r: u64)
    ensures
        minutes * 60 <= u64::MAX ==> r == minutes * 60,
        minutes * 60 > u64::MAX ==> r == u64::MAX,
{
    if minutes <= u64::MAX / 60 {
        minutes * 60
    } else {
        u64::MAX
    }
}

/// The names to use from the cache, if any: only when the cache is not bypassed, was
/// read and parsed, and is fresh at `now_secs` and `now_nanos` past the epoch under a
/// time-to-live of `ttl_secs` seconds.
pub fn usable_cached_types(
    no_cache: bool,
    cached: Option<CachedTypes>,
    now_secs: u64,
    now_nanos: u32,
    ttl_secs: u64,
) -> (r: Option<Vec<String>>)
    ensures
        r is Some <==> (!no_cache && cached is Some && cached->0.fresh_at(
            in_nanos(now_secs as int, now_nanos as int),
            in_nanos(ttl_secs as int, 0),
        )),
        r is Some ==> r->0@ == cached->0.types@,
{
    if no_cache {
        return None;
    }
    match cached {
        Some(c) => {
            if c.is_fresh_at(now_secs, now_nanos, ttl_secs, 0) {
                Some(c.types)
            } else {
                None
            }
        },
        None => None,
    }
}

} // verus!
