//! Application settings.
use vstd::prelude::*;

verus! {

/// Settings the interface can change.
#[derive(Debug)]
pub struct AppSettings {
    pub concurrency: u32,
}

/// The fewest and the most synthesis workers a project may run at once.
pub const MIN_CONCURRENCY: u32 = 1;
pub const MAX_CONCURRENCY: u32 = 5;

/// A requested concurrency brought into the allowed range.
pub fn clamp_concurrency(requested: u32) -> (r: u32)
    ensures
        r == (if requested < MIN_CONCURRENCY {
            MIN_CONCURRENCY
        } else if requested > MAX_CONCURRENCY {
            MAX_CONCURRENCY
        } else {
            requested
        }),
        MIN_CONCURRENCY <= r <= MAX_CONCURRENCY,
{
    if requested < MIN_CONCURRENCY {
        MIN_CONCURRENCY
    } else if requested > MAX_CONCURRENCY {
        MAX_CONCURRENCY
    } else {
        requested
    }
}

/// The concurrency read back from a stored setting: its value clamped where it
/// parses, one where it does not (or nothing is stored).
pub fn stored_concurrency(parsed: Option<u32>) -> (r: u32)
    ensures
        parsed is None ==> r == 1,
        parsed matches Some(c) ==> r == (if c < MIN_CONCURRENCY {
            MIN_CONCURRENCY
        } else if c > MAX_CONCURRENCY {
            MAX_CONCURRENCY
        } else {
            c
        }),
{
    match parsed {
        Some(c) => clamp_concurrency(c),
        None => 1,
    }
}

/// API usage: today's requests, characters, rate-limit hits and mean latency,
/// and the requests and characters since the usage record began.
#[derive(Debug, Clone, Copy, PartialEq, Eq, Structural)]
pub struct QuotaMetrics {
    pub today_requests: u64,
    pub today_chars: u64,
    pub today_rate_limits: u64,
    pub avg_latency_ms: u64,
    pub total_requests: u64,
    pub total_chars: u64,
}

/// The stored sums of the usage record and the counters kept in memory since
/// start-up fit in `u64` when added together.
pub open spec fn live_sums_fit(stored: QuotaMetrics, requests: u64, chars: u64, rate_limits: u64) -> bool {
    &&& stored.today_requests + requests <= u64::MAX
    &&& stored.today_chars + chars <= u64::MAX
    &&& stored.today_rate_limits + rate_limits <= u64::MAX
    &&& stored.total_requests + requests <= u64::MAX
    &&& stored.total_chars + chars <= u64::MAX
}

/// The stored usage with the counters kept in memory added to it.
pub open spec fn with_live_counters(m: QuotaMetrics, requests: u64, chars: u64, rate_limits: u64) -> QuotaMetrics {
    QuotaMetrics {
        today_requests: (m.today_requests + requests) as u64,
        today_chars: (m.today_chars + chars) as u64,
        today_rate_limits: (m.today_rate_limits + rate_limits) as u64,
        avg_latency_ms: m.avg_latency_ms,
        total_requests: (m.total_requests + requests) as u64,
        total_chars: (m.total_chars + chars) as u64,
    }
}

/// The usage shown to the user. With a usage record (`stored`), the counters kept
/// in memory are added to it once at least one request was counted; the mean
/// latency stays the stored one. Without one, the counters alone, for today
/// and in total, with no latency.
pub fn quota_metrics_from(stored: Option<QuotaMetrics>, requests: u64, chars: u64, rate_limits: u64) -> (r:
    QuotaMetrics)
    requires
        requests > 0 && stored is Some ==> live_sums_fit(stored->0, requests, chars, rate_limits),
    ensures
        r == match stored {
            Some(m) => if requests > 0 {
                with_live_counters(m, requests, chars, rate_limits)
            } else {
                m
            },
            None => QuotaMetrics {
                today_requests: requests,
                today_chars: chars,
                today_rate_limits: rate_limits,
                avg_latency_ms: 0,
                total_requests: requests,
                total_chars: chars,
            },
        },
{
    match stored {
        Some(m) => {
            if requests > 0 {
                QuotaMetrics {
                    today_requests: m.today_requests + requests,
                    today_chars: m.today_chars + chars,
                    today_rate_limits: m.today_rate_limits + rate_limits,
                    avg_latency_ms: m.avg_latency_ms,
                    total_requests: m.total_requests + requests,
                    total_chars: m.total_chars + chars,
                }
            } else {
                m
            }
        },
        None => QuotaMetrics {
            today_requests: requests,
            today_chars: chars,
            today_rate_limits: rate_limits,
            avg_latency_ms: 0,
            total_requests: requests,
            total_chars: chars,
        },
    }
}

} // verus!
