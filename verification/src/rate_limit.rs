//! Rate limiting for the A2A protocol: configuration, the quota it yields,
//! the per-IP table's expiry and eviction rules, and the rejection a caller
//! receives.

use vstd::prelude::*;

use crate::strings::{
    chars_vec, concat3, decimal, u128_to_decimal, find_char, first_index_of, lemma_first_index_of, owned, string_of, trim_bounds, trim_spec,
};

verus! {

/// JSON-RPC error code of a rejected request.
pub const RATE_LIMIT_ERROR_CODE: i32 = -32001;

/// Rate limiting configuration.
#[derive(Debug, Clone, PartialEq, Eq)]
pub struct RateLimitConfig {
    /// Maximum requests per second.
    pub max_requests_per_second: u32,
    /// Burst size (allows temporary spikes).
    pub burst_size: u32,
    /// Whether rate limiting is enabled.
    pub enabled: bool,
    /// Maximum number of IP entries to track (for per-IP limiting).
    pub max_ip_entries: usize,
    /// How long to keep IP entries before eviction (0 disables TTL cleanup).
    pub ip_entry_ttl_seconds: u64,
}

impl Default for RateLimitConfig {
    fn default() -> (c: Self)
        ensures
            c.max_requests_per_second == 100,
            c.burst_size == 10,
            c.enabled,
            c.max_ip_entries == 10_000,
            c.ip_entry_ttl_seconds == 3600,
    {
        RateLimitConfig {
            max_requests_per_second: 100,
            burst_size: 10,
            enabled: true,
            max_ip_entries: 10_000,
            ip_entry_ttl_seconds: 3600,
        }
    }
}

impl RateLimitConfig {
    /// The configuration of an agent's rate-limiting budget. Each field the
    /// budget leaves unset takes its default; a burst is capped at one
    /// million; the rate arrives already clamped to `1..=1_000_000` and
    /// truncated to an integer. Limiting is enabled.
    pub fn from_arp(
        requests_per_second: Option<u32>,
        burst_size: Option<u64>,
        max_tracking_entries: Option<usize>,
        tracking_entry_ttl_sec: Option<u64>,
    ) -> (c: RateLimitConfig)
        ensures
            c.max_requests_per_second == match requests_per_second {
                Some(r) => r,
                None => 100,
            },
            c.burst_size == match burst_size {
                Some(b) => if b < 1_000_000 {
                    b
                } else {
                    1_000_000
                },
                None => 10,
            },
            c.enabled,
            c.max_ip_entries == match max_tracking_entries {
                Some(n) => n,
                None => 10_000,
            },
            c.ip_entry_ttl_seconds == match tracking_entry_ttl_sec {
                Some(t) => t,
                None => 3600,
            },
    {
        let burst: u32 = match burst_size {
            Some(b) => if b < 1_000_000 {
                b as u32
            } else {
                1_000_000
            },
            None => 10,
        };
        RateLimitConfig {
            max_requests_per_second: match requests_per_second {
                Some(r) => r,
                None => 100,
            },
            burst_size: burst,
            enabled: true,
            max_ip_entries: match max_tracking_entries {
                Some(n) => n,
                None => 10_000,
            },
            ip_entry_ttl_seconds: match tracking_entry_ttl_sec {
                Some(t) => t,
                None => 3600,
            },
        }
    }

    /// Requests per second of the quota; a zero rate falls back to 100.
    pub fn per_second_quota(&self) -> (r: u32)
        ensures
            r == if self.max_requests_per_second == 0 {
                100
            } else {
                self.max_requests_per_second
            },
            r > 0,
    {
        if self.max_requests_per_second == 0 {
            100
        } else {
            self.max_requests_per_second
        }
    }

    /// Burst of the quota; a zero burst falls back to 10.
    pub fn burst_quota(&self) -> (r: u32)
        ensures
            r == if self.burst_size == 0 {
                10
            } else {
                self.burst_size
            },
            r > 0,
    {
        if self.burst_size == 0 {
            10
        } else {
            self.burst_size
        }
    }

    /// Whether a per-IP entry idle for `idle_nanos` has expired: only when a
    /// TTL is set and the idle time exceeds it.
    pub fn entry_expired(&self, idle_nanos: u128) -> (r: bool)
        ensures
            r == (self.ip_entry_ttl_seconds > 0 && idle_nanos > self.ip_entry_ttl_seconds * 1_000_000_000),
    {
        let ttl: u128 = (self.ip_entry_ttl_seconds as u128) * 1_000_000_000;
        self.ip_entry_ttl_seconds > 0 && idle_nanos > ttl
    }

    /// Whether periodic cleanup keeps an entry idle for `idle_nanos`: every
    /// entry when no TTL is set, otherwise those idle for less than the TTL.
    pub fn kept_by_cleanup(&self, idle_nanos: u128) -> (r: bool)
        ensures
            r == (self.ip_entry_ttl_seconds == 0 || idle_nanos < self.ip_entry_ttl_seconds * 1_000_000_000),
    {
        let ttl: u128 = (self.ip_entry_ttl_seconds as u128) * 1_000_000_000;
        self.ip_entry_ttl_seconds == 0 || idle_nanos < ttl
    }

    /// Whether an access popped from the queue marks its entry for eviction:
    /// the entry is still present and either its last access is that one, or
    /// that access is older than the TTL.
    pub fn queued_entry_stale(&self, last_access_matches: Option<bool>, queued_idle_nanos: u128) -> (r: bool)
        ensures
            r == match last_access_matches {
                None => false,
                Some(same) => same || (self.ip_entry_ttl_seconds > 0 && queued_idle_nanos
                    > self.ip_entry_ttl_seconds * 1_000_000_000),
            },
    {
        match last_access_matches {
            None => false,
            Some(same) => same || self.entry_expired(queued_idle_nanos),
        }
    }

    /// Size the per-IP table is trimmed to once it is full: nine tenths of
    /// the bound (rounded down), for hysteresis.
    pub fn eviction_target(&self) -> (r: usize)
        ensures
            r == self.max_ip_entries * 9 / 10,
            r <= self.max_ip_entries,
    {
        let m = self.max_ip_entries;
        let r = m / 10 * 9 + (m % 10) * 9 / 10;
        assert(r == m * 9 / 10) by (nonlinear_arith)
            requires
                r == m / 10 * 9 + (m % 10) * 9 / 10,
        ;
        r
    }
}

/// How many of the first `n` entries come before entry `i` when the least
/// recently used are listed first: those idle longer, and those idle as long
/// that are listed earlier.
pub open spec fn used_before(ages: Seq<u128>, n: int, i: int) -> nat
    decreases n,
{
    if n <= 0 {
        0
    } else {
        used_before(ages, n - 1, i) + if ages[n - 1] > ages[i] || (n - 1 < i && ages[n - 1] == ages[i]) {
            1nat
        } else {
            0nat
        }
    }
}

/// Positions, among the first `n`, of the entries to evict so that `target`
/// remain: the least recently used, in listing order.
pub open spec fn evicted_positions(ages: Seq<u128>, target: nat, n: int) -> Seq<int>
    decreases n,
{
    if n <= 0 {
        Seq::empty()
    } else {
        evicted_positions(ages, target, n - 1) + if used_before(ages, ages.len() as int, n - 1) + target
            < ages.len() {
            seq![n - 1]
        } else {
            Seq::empty()
        }
    }
}

/// Which per-IP entries to evict when the access queue is exhausted: given
/// how long each entry has been idle, the positions of the least recently
/// used ones, as many as bring the table down to `target` entries.
pub fn least_recently_used(ages: &[u128], target: usize) -> (r: Vec<usize>)
    ensures
        r@.map_values(|p: usize| p as int) == evicted_positions(ages@, target as nat, ages@.len() as int),
{
    let n = ages.len();
    let mut r: Vec<usize> = Vec::new();
    let mut i: usize = 0;
    while i < n
        invariant
            i <= n,
            n == ages@.len(),
            r@.map_values(|p: usize| p as int) == evicted_positions(ages@, target as nat, i as int),
        decreases n - i,
    {
        let mut ahead: usize = 0;
        let mut j: usize = 0;
        while j < n
            invariant
                j <= n,
                i < n,
                n == ages@.len(),
                ahead == used_before(ages@, j as int, i as int),
                ahead <= j,
            decreases n - j,
        {
            if ages[j] > ages[i] || (j < i && ages[j] == ages[i]) {
                ahead = ahead + 1;
            }
            j = j + 1;
        }
        let ghost before = r@;
        if ahead < n && target < n - ahead {
            r.push(i);
            proof {
                assert(r@.map_values(|p: usize| p as int) =~= before.map_values(|p: usize| p as int).push(i as int));
            }
        }
        proof {
            assert(evicted_positions(ages@, target as nat, i + 1) == evicted_positions(ages@, target as nat, i as int)
                + if used_before(ages@, n as int, i as int) + target < n {
                seq![i as int]
            } else {
                Seq::<int>::empty()
            });
        }
        i = i + 1;
    }
    r
}

/// Where a request's client address is taken from.
#[derive(Debug, Clone, Copy, PartialEq, Eq)]
pub enum ClientIpSource {
    /// The first entry of `X-Forwarded-For`.
    ForwardedFor,
    /// The `X-Real-IP` header.
    RealIp,
    /// The connection's peer address.
    Peer,
}

/// The first entry of an `X-Forwarded-For` header, trimmed.
pub open spec fn first_forwarded_spec(header: Seq<char>) -> Seq<char> {
    let k = first_index_of(header, ',');
    trim_spec(
        if k < 0 {
            header
        } else {
            header.take(k)
        },
    )
}

/// The first entry of an `X-Forwarded-For` header: the text before the first
/// comma, trimmed.
pub fn first_forwarded(header: &str) -> (r: String)
    ensures
        r@ == first_forwarded_spec(header@),
{
    let v = chars_vec(header);
    let end = match find_char(v.as_slice(), 0, v.len(), ',') {
        Some(k) => k,
        None => v.len(),
    };
    proof {
        lemma_first_index_of(v@, ',');
        assert(v@.subrange(0, v@.len() as int) =~= v@);
        assert(v@.subrange(0, end as int) =~= (if first_index_of(v@, ',') < 0 {
            v@
        } else {
            v@.take(first_index_of(v@, ','))
        }));
    }
    let (a, b) = trim_bounds(v.as_slice(), 0, end);
    string_of(v.as_slice(), a, b)
}

/// Which address identifies the client. Headers are believed only from a
/// trusted proxy: then the first forwarded address if it is a valid IP
/// address, else `X-Real-IP` if valid; otherwise the peer address.
pub fn client_ip_source(from_trusted_proxy: bool, forwarded_valid: bool, real_ip_valid: bool) -> (r: ClientIpSource)
    ensures
        r == (if from_trusted_proxy && forwarded_valid {
            ClientIpSource::ForwardedFor
        } else if from_trusted_proxy && real_ip_valid {
            ClientIpSource::RealIp
        } else {
            ClientIpSource::Peer
        }),
{
    if from_trusted_proxy {
        if forwarded_valid {
            return ClientIpSource::ForwardedFor;
        }
        if real_ip_valid {
            return ClientIpSource::RealIp;
        }
    }
    ClientIpSource::Peer
}

/// Why a request was refused.
#[derive(Debug, Clone, PartialEq, Eq)]
pub struct RateLimitRejection {
    pub code: i32,
    pub message: String,
    pub data: Option<String>,
}

/// The rejection for a request over the limit, naming the client's IP when
/// the limit is per IP.
pub fn rejection(ip: Option<&str>) -> (r: RateLimitRejection)
    ensures
        r.code == RATE_LIMIT_ERROR_CODE,
        r.message@ == "Rate limit exceeded"@,
        r.data is Some,
        match ip {
            Some(a) => r.data->0@ == "Too many requests from IP "@ + a@ + ". Please try again later."@,
            None => r.data->0@ == "Too many requests. Please try again later."@,
        },
{
    let data = match ip {
        Some(a) => concat3("Too many requests from IP ", a, ". Please try again later."),
        None => owned("Too many requests. Please try again later."),
    };
    RateLimitRejection { code: RATE_LIMIT_ERROR_CODE, message: owned("Rate limit exceeded"), data: Some(data) }
}

/// The rejection given after waiting out the limiter's delay (with jitter):
/// it says how many milliseconds to wait before retrying.
pub fn retry_rejection(delay_millis: u128) -> (r: RateLimitRejection)
    ensures
        r.code == RATE_LIMIT_ERROR_CODE,
        r.message@ == "Rate limit exceeded"@,
        r.data matches Some(d) && d@ == "Too many requests. Retry after "@ + decimal(delay_millis as nat) + " ms"@,
{
    let ms = u128_to_decimal(delay_millis);
    let data = concat3("Too many requests. Retry after ", ms.as_str(), " ms");
    RateLimitRejection { code: RATE_LIMIT_ERROR_CODE, message: owned("Rate limit exceeded"), data: Some(data) }
}

/// Outcome of a check: disabled limiting admits without consulting the
/// limiter; otherwise the limiter's answer decides.
pub fn admission(config: &RateLimitConfig, limiter_allows: bool, ip: Option<&str>) -> (r: Result<(), RateLimitRejection>)
    ensures
        (r is Ok) <==> (!config.enabled || limiter_allows),
        r is Err ==> r->Err_0.code == RATE_LIMIT_ERROR_CODE,
        r is Err ==> r->Err_0.message@ == "Rate limit exceeded"@,
        r is Err ==> (r->Err_0.data matches Some(d) && match ip {
            Some(a) => d@ == "Too many requests from IP "@ + a@ + ". Please try again later."@,
            None => d@ == "Too many requests. Please try again later."@,
        }),
{
    if !config.enabled || limiter_allows {
        Ok(())
    } else {
        Err(rejection(ip))
    }
}

} // verus!
