//! The sliding-window rate limit of requests to a site: at most `max_per_minute`
//! requests in the last 60 seconds.

use vstd::prelude::*;

use crate::entropy::{now_micros, random_uuid};
use crate::ids::{is_v4_uuid, uuid_hyphenated, uuid_string};
use crate::text::{chars_of, concat, push_signed_decimal, signed_decimal, string_of};

verus! {

/// Seconds that a request stays in the window.
pub const WINDOW_SECS: i64 = 60;

/// Seconds after which an idle site's window expires.
pub const EXPIRE_SECS: i64 = 120;

/// The key of a site's window: `arachne:rate:{site}`.
pub fn rate_limit_key(site: &str) -> (r: String)
    ensures
        r@ == "arachne:rate:"@ + site@,
{
    let a = chars_of("arachne:rate:");
    let b = chars_of(site);
    string_of(&concat(&a, &b))
}

/// A request is allowed while fewer than `max_per_minute` requests are in the window.
pub fn rate_limit_allows(count: u32, max_per_minute: u32) -> (r: bool)
    ensures
        r == (count < max_per_minute),
{
    count < max_per_minute
}

/// A request check at time `now` (seconds): entries with a score up to
/// `stale_before` leave the window first.
#[derive(Debug)]
pub struct RateCheck {
    pub key: String,
    pub now: i64,
    pub stale_before: i64,
}

/// The whole seconds since the epoch at `micros` microseconds (rounded down).
pub open spec fn seconds_of(micros: i64) -> int {
    if micros >= 0 {
        micros / 1_000_000
    } else {
        -((-(micros + 1)) / 1_000_000) - 1
    }
}

/// The check of a request to `site` at time `now` (seconds).
pub fn rate_check_at(site: &str, now: i64) -> (r: RateCheck)
    requires
        now >= i64::MIN + WINDOW_SECS,
    ensures
        r.key@ == "arachne:rate:"@ + site@,
        r.now == now,
        r.stale_before == now - WINDOW_SECS,
{
    RateCheck { key: rate_limit_key(site), now, stale_before: now - WINDOW_SECS }
}

/// The check of a request to `site` now.
pub fn rate_check(site: &str) -> (r: RateCheck)
    ensures
        r.key@ == "arachne:rate:"@ + site@,
        exists|micros: i64| r.now == seconds_of(micros),
        r.stale_before == r.now - WINDOW_SECS,
{
    let micros = now_micros();
    let now: i64 = if micros >= 0 {
        micros / 1_000_000
    } else {
        -((-(micros + 1)) / 1_000_000) - 1
    };
    assert(now == seconds_of(micros));
    rate_check_at(site, now)
}

/// The window entry of a request at `now`: `{now}:{id}`.
pub open spec fn rate_member_spec(now: i64, id: u128) -> Seq<char> {
    signed_decimal(now as int) + ":"@ + uuid_hyphenated(id)
}

/// The window entry of request `id` at `now`.
pub fn rate_member(now: i64, id: u128) -> (r: String)
    ensures
        r@ == rate_member_spec(now, id),
{
    let mut out: Vec<char> = Vec::new();
    push_signed_decimal(&mut out, now);
    let colon = chars_of(":");
    out = concat(&out, &colon);
    let u = uuid_string(id);
    let uc = chars_of(u.as_str());
    string_of(&concat(&out, &uc))
}

/// The window entry of a new request at `now`, under a fresh random id.
pub fn new_rate_member(now: i64) -> (r: String)
    ensures
        exists|id: u128| is_v4_uuid(id) && r@ == rate_member_spec(now, id),
{
    rate_member(now, random_uuid())
}

} // verus!
