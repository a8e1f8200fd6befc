//! The outbound bandwidth limiter: token buckets per traffic class, and the
//! drop-policy decision of the send path. The socket write itself is I/O
//! and stays outside; this module holds every decision the send path makes.

use vstd::prelude::*;
use crate::channel::{DropPolicy, TrafficType};

verus! {

/// The tokens a bucket holds after standing idle from `last_refill` to
/// `now`: one refill of `rate` tokens per second, capped at the bucket's
/// size, and never drained by time alone.
pub open spec fn spec_refilled(current: u64, max_tokens: u64, rate: u64, last_refill: u64, now: u64) -> int {
    let elapsed = if now >= last_refill {
        now - last_refill
    } else {
        0
    };
    let grown = current + rate * elapsed;
    if grown > max_tokens {
        max_tokens as int
    } else {
        grown
    }
}

/// A token bucket: `rate` tokens arrive per second up to `max_tokens`, and
/// a send passes by consuming its size in tokens.
pub struct TokenBucket {
    pub max_tokens: u64,
    pub rate: u64,
    pub current: u64,
    pub last_refill: u64,
}

impl TokenBucket {
    /// A full bucket.
    pub fn new(max_tokens: u64, rate: u64, now: u64) -> (r: TokenBucket)
        ensures
            r.max_tokens == max_tokens,
            r.rate == rate,
            r.current == max_tokens,
            r.last_refill == now,
    {
        TokenBucket { max_tokens, rate, current: max_tokens, last_refill: now }
    }

    /// Consumes `tokens` if the refilled bucket holds them; says whether it
    /// did. A clock that ran backwards refills nothing.
    pub fn try_consume(&mut self, tokens: u64, now: u64) -> (r: bool)
        ensures
            ({
                let refilled = spec_refilled(
                    old(self).current,
                    old(self).max_tokens,
                    old(self).rate,
                    old(self).last_refill,
                    now,
                );
                &&& r == (tokens <= refilled)
                &&& final(self).current == if r {
                    refilled - tokens
                } else {
                    refilled
                }
                &&& final(self).last_refill == now
                &&& final(self).max_tokens == old(self).max_tokens
                &&& final(self).rate == old(self).rate
            }),
    {
        let elapsed: u64 = if now >= self.last_refill {
            now - self.last_refill
        } else {
            0
        };
        let grown: u64 = match self.rate.checked_mul(elapsed) {
            Some(add) => self.current.saturating_add(add),
            None => u64::MAX,
        };
        let refilled: u64 = if grown > self.max_tokens {
            self.max_tokens
        } else {
            grown
        };
        proof {
            let g = old(self).current + old(self).rate * (if now >= old(self).last_refill {
                now - old(self).last_refill
            } else {
                0int
            });
            // saturation only ever lands at or above the cap
            assert(g >= grown || grown == u64::MAX || g == grown);
            assert(refilled as int == spec_refilled(
                old(self).current,
                old(self).max_tokens,
                old(self).rate,
                old(self).last_refill,
                now,
            ));
        }
        self.last_refill = now;
        if tokens <= refilled {
            self.current = refilled - tokens;
            true
        } else {
            self.current = refilled;
            false
        }
    }
}

/// The outbound limiter: one bucket for gossip traffic and one for
/// bootstrap traffic. A bucket of size zero does not limit.
pub struct OutboundBandwidthLimiter {
    pub generic: TokenBucket,
    pub bootstrap: TokenBucket,
}

impl OutboundBandwidthLimiter {
    pub fn new(generic_limit: u64, generic_rate: u64, bootstrap_limit: u64, bootstrap_rate: u64, now: u64) -> (r:
        OutboundBandwidthLimiter)
        ensures
            r.generic.max_tokens == generic_limit,
            r.generic.rate == generic_rate,
            r.generic.current == generic_limit,
            r.bootstrap.max_tokens == bootstrap_limit,
            r.bootstrap.rate == bootstrap_rate,
            r.bootstrap.current == bootstrap_limit,
    {
        OutboundBandwidthLimiter {
            generic: TokenBucket::new(generic_limit, generic_rate, now),
            bootstrap: TokenBucket::new(bootstrap_limit, bootstrap_rate, now),
        }
    }

    /// Whether a buffer of `size` bytes may go out now under its traffic
    /// class: an unlimited class always passes, a limited one consumes its
    /// size in tokens.
    pub fn should_pass(&mut self, size: u64, traffic_type: TrafficType, now: u64) -> (r: bool)
        ensures
            ({
                let bucket = match traffic_type {
                    TrafficType::Generic => old(self).generic,
                    TrafficType::Bootstrap => old(self).bootstrap,
                };
                let refilled = spec_refilled(
                    bucket.current,
                    bucket.max_tokens,
                    bucket.rate,
                    bucket.last_refill,
                    now,
                );
                &&& r == (bucket.max_tokens == 0 || size <= refilled)
                &&& (bucket.max_tokens == 0 ==> *final(self) == *old(self))
            }),
            traffic_type == TrafficType::Generic ==> final(self).bootstrap == old(self).bootstrap,
            traffic_type == TrafficType::Bootstrap ==> final(self).generic == old(self).generic,
    {
        let bucket = match traffic_type {
            TrafficType::Generic => &mut self.generic,
            TrafficType::Bootstrap => &mut self.bootstrap,
        };
        if bucket.max_tokens == 0 {
            return true;
        }
        bucket.try_consume(size, now)
    }
}

/// The send path's drop decision: under the limiter policy a refused
/// buffer is dropped, under every other policy it is enqueued regardless.
pub fn should_enqueue(drop_policy: DropPolicy, passed: bool) -> (r: bool)
    ensures
        r == (drop_policy != DropPolicy::Limiter || passed),
{
    match drop_policy {
        DropPolicy::Limiter => passed,
        DropPolicy::NoLimiterDrop => true,
    }
}

} // verus!
