//! Per-domain rate limiting: a limiter enforces a minimum spacing between
//! outbound requests to one host. The clock and the sleep are the caller's;
//! the limiter computes how long to wait and records when the request went
//! out.

use vstd::prelude::*;

verus! {

/// The spacing between requests for a given rate: a thousand milliseconds
/// divided by the requests per second, with a zero rate read as one.
pub open spec fn spec_delay_ms(requests_per_second: u64) -> int {
    1000int / (if requests_per_second == 0 {
        1int
    } else {
        requests_per_second as int
    })
}

/// One host's limiter: the spacing it enforces and the instant (in
/// milliseconds of a monotonic clock) it last let a request through.
pub struct RateLimiter {
    pub delay_ms: u64,
    pub last_request: Option<u64>,
}

impl RateLimiter {
    /// A limiter for the given rate; no request has gone through yet.
    pub fn new(requests_per_second: u64) -> (r: RateLimiter)
        ensures
            r.delay_ms == spec_delay_ms(requests_per_second),
            r.delay_ms <= 1000,
            r.last_request is None,
    {
        let rps = if requests_per_second == 0 {
            1
        } else {
            requests_per_second
        };
        RateLimiter { delay_ms: 1000 / rps, last_request: None }
    }

    /// How long the caller must sleep before its request may go out: the
    /// remainder of the spacing since the last request, zero when enough
    /// time has passed or no request went out yet, and the full spacing if
    /// the clock ran backwards.
    pub fn wait_ms(&self, now: u64) -> (r: u64)
        ensures
            self.last_request is None ==> r == 0,
            self.last_request matches Some(last) ==> {
                &&& (now >= last && now - last < self.delay_ms ==> r == self.delay_ms - (now
                    - last))
                &&& (now >= last && now - last >= self.delay_ms ==> r == 0)
                &&& (now < last ==> r == self.delay_ms)
                &&& (now >= last ==> now + r >= last + self.delay_ms)
            },
    {
        match self.last_request {
            None => 0,
            Some(last) => {
                if now < last {
                    self.delay_ms
                } else if now - last < self.delay_ms {
                    self.delay_ms - (now - last)
                } else {
                    0
                }
            },
        }
    }

    /// Record the instant a request went out.
    pub fn record(&mut self, stamp: u64)
        ensures
            final(self).delay_ms == old(self).delay_ms,
            final(self).last_request == Option::Some(stamp),
    {
        self.last_request = Some(stamp);
    }
}

/// Rate limiter spacing: if each request's timestamp is at least the
/// spacing after the previous one — which `wait_ms` guarantees when the
/// caller sleeps what it is told and stamps the time the request goes out —
/// then the first and last of N requests are at least (N-1) spacings apart:
/// N requests at R per second take at least (N-1)/R seconds.
pub proof fn lemma_rate_limiter_spacing(stamps: Seq<u64>, delay_ms: u64)
    requires
        stamps.len() >= 1,
        forall|i: int| 0 <= i < stamps.len() - 1 ==> #[trigger] stamps[i + 1] >= stamps[i]
            + delay_ms,
    ensures
        stamps.last() >= stamps.first() + (stamps.len() - 1) * delay_ms,
    decreases stamps.len(),
{
    if stamps.len() > 1 {
        let head = stamps.drop_last();
        assert(forall|i: int| 0 <= i < head.len() - 1 ==> #[trigger] head[i + 1] >= head[i]
            + delay_ms) by {
            assert(forall|i: int| 0 <= i < head.len() - 1 ==> #[trigger] head[i + 1] == stamps[i
                + 1] && head[i] == stamps[i]);
        }
        lemma_rate_limiter_spacing(head, delay_ms);
        assert(stamps.last() >= stamps[stamps.len() - 2] + delay_ms) by {
            assert(stamps[stamps.len() - 2 + 1] >= stamps[stamps.len() - 2] + delay_ms);
        }
        assert(head.last() == stamps[stamps.len() - 2]);
        assert(head.first() == stamps.first());
        assert(head.last() >= head.first() + (head.len() - 1) * delay_ms);
        assert((stamps.len() - 1) * delay_ms == (stamps.len() - 2) * delay_ms + delay_ms)
            by (nonlinear_arith);
        assert(head.len() - 1 == stamps.len() - 2);
        assert((head.len() - 1) * delay_ms == (stamps.len() - 2) * delay_ms);
        assert(stamps.last() >= stamps.first() + (stamps.len() - 2) * delay_ms + delay_ms);
        assert(stamps.last() >= stamps.first() + (stamps.len() - 1) * delay_ms);
    } else {
        assert(stamps.len() == 1);
        assert(stamps.last() == stamps.first());
        assert((stamps.len() - 1) * delay_ms == 0) by (nonlinear_arith)
            requires
                stamps.len() == 1,
        ;
    }
}

} // verus!
