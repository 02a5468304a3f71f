//! The upstream's rate-limit state, as its response headers last gave it.
use vstd::prelude::*;
use crate::decimal::{decimal_value, parse_i64};

verus! {

/// The last values of `x-ratelimit-limit`, `x-ratelimit-remaining` and
/// `x-ratelimit-reset`.
pub struct RateLimits {
    pub limit: i64,
    pub remaining: i64,
    pub reset: i64,
}

/// The value a header leaves: its number where it carries one, else the
/// value before.
pub open spec fn header_value(before: i64, header: Option<Seq<char>>) -> i64 {
    match header {
        Some(h) => match decimal_value(h) {
            Some(v) => v,
            None => before,
        },
        None => before,
    }
}

pub open spec fn opt_str(h: Option<&str>) -> Option<Seq<char>> {
    match h {
        Some(s) => Some(s@),
        None => None,
    }
}

fn updated(before: i64, header: Option<&str>) -> (r: i64)
    ensures
        r == header_value(before, opt_str(header)),
{
    match header {
        Some(h) => match parse_i64(h) {
            Some(v) => v,
            None => before,
        },
        None => before,
    }
}

impl RateLimits {
    /// The state before any response: one request allowed, one remaining.
    pub fn new() -> (r: RateLimits)
        ensures
            r.limit == 1 && r.remaining == 1 && r.reset == 0,
    {
        RateLimits { limit: 1, remaining: 1, reset: 0 }
    }

    /// Takes in the rate-limit headers of one response; a header that is
    /// absent or not a number leaves its value as it was.
    pub fn update(&mut self, limit: Option<&str>, remaining: Option<&str>, reset: Option<&str>)
        ensures
            final(self).limit == header_value(old(self).limit, opt_str(limit)),
            final(self).remaining == header_value(old(self).remaining, opt_str(remaining)),
            final(self).reset == header_value(old(self).reset, opt_str(reset)),
    {
        self.limit = updated(self.limit, limit);
        self.remaining = updated(self.remaining, remaining);
        self.reset = updated(self.reset, reset);
    }
}

} // verus!
