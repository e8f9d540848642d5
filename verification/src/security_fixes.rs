//! Token revocation and replay protection, a sliding-window rate limiter and
//! length-checked `did:key` parsing.

use vstd::prelude::*;

use crate::string_set::StrSet;
use crate::strings::{concat2, decimal, owned, usize_to_decimal};

verus! {

// ---------------------------------------------------------------------------
// Token revocation and replay protection
// ---------------------------------------------------------------------------

#[verifier::external_type_specification]
#[verifier::external_body]
#[verifier::reject_recursive_types(K)]
#[verifier::reject_recursive_types(V)]
#[verifier::reject_recursive_types(S)]
pub struct ExLruCache<K, V, S>(lru::LruCache<K, V, S>);

#[verifier::external_type_specification]
#[verifier::external_body]
pub struct ExLruHasher(lru::DefaultHasher);

/// An LRU cache of revocation answers, by token id.
pub type RevocationCache = lru::LruCache<String, bool>;

/// What an LRU cache of revocation answers holds: token id to answer.
pub uninterp spec fn lru_entries(cache: RevocationCache) -> Map<Seq<char>, bool>;

/// `LruCache::new` with room for `capacity` entries; a new cache is empty.
#[verifier::external_body]
fn lru_new(capacity: usize) -> (c: RevocationCache)
    requires
        capacity > 0,
    ensures
        lru_entries(c).dom() == Set::<Seq<char>>::empty(),
{
    lru::LruCache::new(std::num::NonZeroUsize::new(capacity).expect("capacity is positive"))
}

/// `LruCache::get`: the cached answer for `key`, if any. Only the recency
/// order changes; the entries stay as they were.
#[verifier::external_body]
fn lru_get(cache: &mut RevocationCache, key: &str) -> (r: Option<bool>)
    ensures
        lru_entries(*final(cache)) == lru_entries(*old(cache)),
        match r {
            Some(v) => lru_entries(*old(cache)).contains_key(key@) && lru_entries(*old(cache))[key@] == v,
            None => !lru_entries(*old(cache)).contains_key(key@),
        },
{
    cache.get(key).copied()
}

/// `LruCache::put`: afterwards `key` maps to `value`; every other entry is
/// one the cache held before with the same answer (a full cache may drop its
/// least recently used entry).
#[verifier::external_body]
fn lru_put(cache: &mut RevocationCache, key: String, value: bool)
    ensures
        lru_entries(*final(cache)).contains_key(key@),
        lru_entries(*final(cache))[key@] == value,
        forall|k: Seq<char>|
            #[trigger] lru_entries(*final(cache)).contains_key(k) && k != key@ ==> lru_entries(*old(cache)).contains_key(k)
                && lru_entries(*old(cache))[k] == lru_entries(*final(cache))[k],
{
    cache.put(key, value);
}

/// Why a token is refused.
#[derive(Debug, Clone, Copy, PartialEq, Eq, Structural)]
pub enum TokenError {
    AlreadyUsed,
    Revoked,
    Invalid,
}

impl TokenError {
    pub fn to_string(&self) -> (s: String)
        ensures
            s@ == match *self {
                TokenError::AlreadyUsed => "Token has already been used (replay protection)"@,
                TokenError::Revoked => "Token has been revoked"@,
                TokenError::Invalid => "Invalid token"@,
            },
    {
        match self {
            TokenError::AlreadyUsed => owned("Token has already been used (replay protection)"),
            TokenError::Revoked => owned("Token has been revoked"),
            TokenError::Invalid => owned("Invalid token"),
        }
    }
}

/// Token store with a revocation list and replay protection, plus a cache
/// of revocation answers.
pub struct TokenStore {
    blacklist: StrSet,
    used_jtis: StrSet,
    cache: RevocationCache,
}

impl TokenStore {
    /// Revoked token ids.
    pub closed spec fn revoked(&self) -> Set<Seq<char>> {
        self.blacklist.set_view()
    }

    /// Token ids already presented.
    pub closed spec fn used(&self) -> Set<Seq<char>> {
        self.used_jtis.set_view()
    }

    /// The sets are ordered, and every cached answer agrees with the
    /// revocation list.
    pub closed spec fn wf(&self) -> bool {
        &&& self.blacklist.wf()
        &&& self.used_jtis.wf()
        &&& forall|k: Seq<char>|
            #[trigger] lru_entries(self.cache).contains_key(k) ==> lru_entries(self.cache)[k] == self.blacklist.set_view().contains(k)
    }

    /// A store that has revoked and seen nothing; the cache holds `capacity`
    /// answers (100 when `capacity` is zero).
    pub fn new(capacity: usize) -> (s: TokenStore)
        ensures
            s.wf(),
            s.revoked() == Set::<Seq<char>>::empty(),
            s.used() == Set::<Seq<char>>::empty(),
    {
        let cap = if capacity == 0 {
            100
        } else {
            capacity
        };
        let s = TokenStore { blacklist: StrSet::new(), used_jtis: StrSet::new(), cache: lru_new(cap) };
        assert(s.revoked() =~= Set::<Seq<char>>::empty());
        assert(s.used() =~= Set::<Seq<char>>::empty());
        s
    }

    /// Whether the token has been revoked. The answer comes from the cache
    /// when it holds one, and the cache never disagrees with the list.
    pub fn is_revoked(&mut self, jti: &str) -> (r: bool)
        requires
            old(self).wf(),
        ensures
            final(self).wf(),
            final(self).revoked() == old(self).revoked(),
            final(self).used() == old(self).used(),
            r == old(self).revoked().contains(jti@),
    {
        match lru_get(&mut self.cache, jti) {
            Some(cached) => {
                return cached;
            },
            None => {},
        }
        let revoked = self.blacklist.contains(jti);
        lru_put(&mut self.cache, owned(jti), revoked);
        revoked
    }

    /// Revoke a token.
    pub fn revoke(&mut self, jti: &str)
        requires
            old(self).wf(),
        ensures
            final(self).wf(),
            final(self).revoked() == old(self).revoked().insert(jti@),
            final(self).used() == old(self).used(),
    {
        self.blacklist.insert(owned(jti));
        lru_put(&mut self.cache, owned(jti), true);
    }

    /// Whether the token has been presented before.
    pub fn is_used(&self, jti: &str) -> (r: bool)
        ensures
            r == self.used().contains(jti@),
    {
        self.used_jtis.contains(jti)
    }

    /// Record a presentation; a second presentation of the same token is
    /// refused.
    pub fn mark_used(&mut self, jti: &str) -> (r: Result<(), TokenError>)
        requires
            old(self).wf(),
        ensures
            final(self).wf(),
            final(self).revoked() == old(self).revoked(),
            old(self).used().contains(jti@) ==> r == Err::<(), TokenError>(TokenError::AlreadyUsed)
                && final(self).used() == old(self).used(),
            !old(self).used().contains(jti@) ==> r is Ok && final(self).used() == old(self).used().insert(jti@),
    {
        if self.used_jtis.contains(jti) {
            return Err(TokenError::AlreadyUsed);
        }
        self.used_jtis.insert(owned(jti));
        Ok(())
    }

    /// Periodic cleanup. Entries carry no expiry: the revocation cache is
    /// bounded and drops its least recently used entries by itself, and
    /// presented tokens stay recorded so that a replay is always refused.
    /// Nothing is removed.
    pub fn cleanup(&self) {
    }
}

// ---------------------------------------------------------------------------
// Sliding-window rate limiting
// ---------------------------------------------------------------------------

#[verifier::external_type_specification]
#[verifier::external_body]
pub struct ExInstant(std::time::Instant);

/// `Instant::now`. Nothing is promised of the value: it is the clock.
#[verifier::external_body]
fn instant_now() -> (r: std::time::Instant) {
    std::time::Instant::now()
}

/// `Instant::elapsed` in nanoseconds. Nothing is promised of the value: it
/// is the clock.
#[verifier::external_body]
fn nanos_since(start: &std::time::Instant) -> (r: u128) {
    start.elapsed().as_nanos()
}

/// What `Duration::as_nanos` returns: the duration's whole length in
/// nanoseconds.
pub uninterp spec fn duration_as_nanos(d: std::time::Duration) -> u128;

/// `Duration::as_nanos`.
#[verifier::external_body]
fn duration_nanos(d: std::time::Duration) -> (r: u128)
    ensures
        r == duration_as_nanos(d),
{
    d.as_nanos()
}

/// Why a request was refused by the limiter.
#[derive(Debug, Clone, Copy, PartialEq, Eq, Structural)]
pub enum RateLimitError {
    LimitExceeded,
}

impl RateLimitError {
    pub fn to_string(&self) -> (s: String)
        ensures
            s@ == "Rate limit exceeded"@,
    {
        owned("Rate limit exceeded")
    }
}

/// Whether a request at time `t` still counts at time `now` in a window of
/// `window` nanoseconds: every request does while the limiter is younger
/// than the window; after that, those strictly inside it.
pub open spec fn in_window(t: u128, now: u128, window: u128) -> bool {
    now < window || t > now - window
}

/// The requests that still count, in order.
pub open spec fn window_filter(times: Seq<u128>, now: u128, window: u128) -> Seq<u128>
    decreases times.len(),
{
    if times.len() == 0 {
        Seq::empty()
    } else if in_window(times.last(), now, window) {
        window_filter(times.drop_last(), now, window).push(times.last())
    } else {
        window_filter(times.drop_last(), now, window)
    }
}

/// Sliding-window rate limiter: at most `max_requests` in any window.
pub struct RateLimiter {
    max_requests: u32,
    window_nanos: u128,
    started: std::time::Instant,
    /// Admitted requests, nanoseconds after `started`, oldest first.
    requests: Vec<u128>,
}

impl RateLimiter {
    pub closed spec fn limit(&self) -> u32 {
        self.max_requests
    }

    pub closed spec fn window(&self) -> u128 {
        self.window_nanos
    }

    /// Times of the admitted requests still on record, oldest first.
    pub closed spec fn admitted(&self) -> Seq<u128> {
        self.requests@
    }

    pub fn new(max_requests: u32, window: std::time::Duration) -> (r: RateLimiter)
        ensures
            r.limit() == max_requests,
            r.window() == duration_as_nanos(window),
            r.admitted() == Seq::<u128>::empty(),
    {
        RateLimiter { max_requests, window_nanos: duration_nanos(window), started: instant_now(), requests: Vec::new() }
    }

    /// Admit or refuse a request at `now` (nanoseconds after the limiter
    /// started). Requests that left the window are forgotten either way; a
    /// request is refused when the window already holds the limit.
    pub fn check_at(&mut self, now: u128) -> (r: Result<(), RateLimitError>)
        ensures
            final(self).limit() == old(self).limit(),
            final(self).window() == old(self).window(),
            ({
                let kept = window_filter(old(self).admitted(), now, old(self).window());
                if kept.len() >= old(self).limit() {
                    r == Err::<(), RateLimitError>(RateLimitError::LimitExceeded) && final(self).admitted() == kept
                } else {
                    r is Ok && final(self).admitted() == kept.push(now)
                }
            }),
    {
        let mut kept: Vec<u128> = Vec::new();
        let mut i: usize = 0;
        while i < self.requests.len()
            invariant
                i <= self.requests.len(),
                kept@ == window_filter(self.requests@.take(i as int), now, self.window_nanos),
            decreases self.requests.len() - i,
        {
            let t = self.requests[i];
            assert(self.requests@.take(i + 1).drop_last() =~= self.requests@.take(i as int));
            if now < self.window_nanos || t > now - self.window_nanos {
                kept.push(t);
            }
            i = i + 1;
        }
        assert(self.requests@.take(self.requests.len() as int) =~= self.requests@);
        self.requests = kept;
        if self.requests.len() >= self.max_requests as usize {
            return Err(RateLimitError::LimitExceeded);
        }
        self.requests.push(now);
        Ok(())
    }

    /// Admit or refuse a request now.
    pub fn check(&mut self) -> (r: Result<(), RateLimitError>)
        ensures
            final(self).limit() == old(self).limit(),
            final(self).window() == old(self).window(),
            exists|now: u128| {
                let kept = #[trigger] window_filter(old(self).admitted(), now, old(self).window());
                if kept.len() >= old(self).limit() {
                    r == Err::<(), RateLimitError>(RateLimitError::LimitExceeded) && final(self).admitted() == kept
                } else {
                    r is Ok && final(self).admitted() == kept.push(now)
                }
            },
    {
        let now = nanos_since(&self.started);
        self.check_at(now)
    }

    /// Requests on record that still count at `now`.
    pub fn count_at(&self, now: u128) -> (n: usize)
        ensures
            n == window_filter(self.admitted(), now, self.window()).len(),
    {
        let mut n: usize = 0;
        let mut i: usize = 0;
        while i < self.requests.len()
            invariant
                i <= self.requests.len(),
                n == window_filter(self.requests@.take(i as int), now, self.window_nanos).len(),
                n <= i,
            decreases self.requests.len() - i,
        {
            let t = self.requests[i];
            assert(self.requests@.take(i + 1).drop_last() =~= self.requests@.take(i as int));
            if now < self.window_nanos || t > now - self.window_nanos {
                n = n + 1;
            }
            i = i + 1;
        }
        assert(self.requests@.take(self.requests.len() as int) =~= self.requests@);
        n
    }

    /// Requests that count now.
    pub fn current_count(&self) -> (n: usize)
        ensures
            exists|now: u128| n == #[trigger] window_filter(self.admitted(), now, self.window()).len(),
    {
        let now = nanos_since(&self.started);
        self.count_at(now)
    }
}

/// Forgetting requests that left the window never adds any.
proof fn lemma_window_shrinks(times: Seq<u128>, now: u128, window: u128)
    ensures
        window_filter(times, now, window).len() <= times.len(),
    decreases times.len(),
{
    if times.len() > 0 {
        lemma_window_shrinks(times.drop_last(), now, window);
    }
}

/// A check never leaves more requests on record than the limit, provided
/// there were no more than the limit before it; so a limiter, which starts
/// empty, never records more than its limit.
pub proof fn lemma_check_respects_limit(before: Seq<u128>, now: u128, window: u128, limit: u32)
    requires
        before.len() <= limit,
    ensures
        window_filter(before, now, window).len() <= limit,
        window_filter(before, now, window).len() < limit ==> window_filter(before, now, window).push(now).len() <= limit,
{
    lemma_window_shrinks(before, now, window);
}

// ---------------------------------------------------------------------------
// did:key parsing with length validation
// ---------------------------------------------------------------------------

/// What `bs58::decode(text).into_vec()` yields: the bytes, or `None` when
/// the text is not base58.
pub uninterp spec fn base58_decoded(text: Seq<char>) -> Option<Seq<u8>>;

/// `bs58::decode(..).into_vec()` with the Bitcoin alphabet.
#[verifier::external_body]
fn base58_decode(text: &str) -> (r: Option<Vec<u8>>)
    ensures
        base58_decoded(text@) == match r {
            Some(v) => Some(v@),
            None => None,
        },
{
    bs58::decode(text).into_vec().ok()
}

/// Why a `did:key` was refused.
#[derive(Debug, Clone, PartialEq, Eq)]
pub enum DidKeyError {
    InvalidPrefix,
    InvalidEncoding,
    InvalidLength { expected: usize, actual: usize },
    InvalidMulticodec,
}

impl DidKeyError {
    pub fn to_string(&self) -> (s: String)
        ensures
            s@ == match *self {
                DidKeyError::InvalidPrefix => "Invalid DID:key prefix"@,
                DidKeyError::InvalidEncoding => "Invalid base58 encoding"@,
                DidKeyError::InvalidLength { expected, actual } => "Invalid length: expected "@ + decimal(
                    expected as nat,
                ) + ", got "@ + decimal(actual as nat),
                DidKeyError::InvalidMulticodec => "Invalid Ed25519 multicodec prefix"@,
            },
    {
        match self {
            DidKeyError::InvalidPrefix => owned("Invalid DID:key prefix"),
            DidKeyError::InvalidEncoding => owned("Invalid base58 encoding"),
            DidKeyError::InvalidLength { expected, actual } => {
                let e = usize_to_decimal(*expected);
                let a = usize_to_decimal(*actual);
                let s = concat2("Invalid length: expected ", e.as_str());
                let s = s.concat(", got ");
                s.concat(a.as_str())
            },
            DidKeyError::InvalidMulticodec => owned("Invalid Ed25519 multicodec prefix"),
        }
    }
}

/// Prefix of an Ed25519 `did:key` with its multibase marker.
pub open spec fn did_key_prefix() -> Seq<char> {
    "did:key:z"@
}

/// Decoded length of an Ed25519 key: two multicodec bytes and 32 key bytes.
pub const DID_KEY_DECODED_LEN: usize = 34;

/// The outcome of parsing a `did:key`, given what base58 decoding yields.
pub open spec fn did_key_result(did: Seq<char>) -> Result<Seq<u8>, DidKeyError> {
    if !(did.len() >= did_key_prefix().len() && did.subrange(0, did_key_prefix().len() as int) == did_key_prefix()) {
        Err(DidKeyError::InvalidPrefix)
    } else {
        match base58_decoded(did.subrange(did_key_prefix().len() as int, did.len() as int)) {
            None => Err(DidKeyError::InvalidEncoding),
            Some(bytes) => if bytes.len() != 34 {
                Err(DidKeyError::InvalidLength { expected: 34, actual: bytes.len() as usize })
            } else if bytes[0] != 0xed || bytes[1] != 0x01 {
                Err(DidKeyError::InvalidMulticodec)
            } else {
                Ok(bytes.subrange(2, 34))
            },
        }
    }
}

/// Parse a `did:key` into its 32-byte Ed25519 public key, checking the
/// prefix, the encoding, the decoded length and the multicodec marker.
pub fn parse_did_key_fixed(did: &str) -> (r: Result<Vec<u8>, DidKeyError>)
    ensures
        match (r, did_key_result(did@)) {
            (Ok(v), Ok(w)) => v@ == w,
            (Err(e), Err(f)) => e == f,
            _ => false,
        },
{
    proof {
        reveal_strlit("did:key:z");
    }
    let chars = crate::strings::chars_vec(did);
    let prefix = crate::strings::chars_vec("did:key:z");
    let n = prefix.len();
    let mut prefix_ok = chars.len() >= n;
    let mut i: usize = 0;
    while prefix_ok && i < n
        invariant
            i <= n,
            n == prefix@.len(),
            prefix@ == did_key_prefix(),
            chars@ == did@,
            prefix_ok ==> chars@.len() >= n && chars@.subrange(0, i as int) == prefix@.subrange(0, i as int),
            !prefix_ok ==> !(chars@.len() >= n && chars@.subrange(0, n as int) == prefix@),
        decreases (n - i + if prefix_ok {
            1int
        } else {
            0int
        }),
    {
        if chars[i] != prefix[i] {
            prefix_ok = false;
            assert(chars@.subrange(0, n as int)[i as int] != prefix@[i as int]);
        } else {
            assert(chars@.subrange(0, i + 1) =~= chars@.subrange(0, i as int).push(chars@[i as int]));
            assert(prefix@.subrange(0, i + 1) =~= prefix@.subrange(0, i as int).push(prefix@[i as int]));
            i = i + 1;
        }
    }
    if !prefix_ok {
        return Err(DidKeyError::InvalidPrefix);
    }
    assert(prefix@.subrange(0, n as int) =~= prefix@);
    let encoded = crate::strings::string_of(chars.as_slice(), n, chars.len());
    let decoded = match base58_decode(encoded.as_str()) {
        Some(d) => d,
        None => {
            return Err(DidKeyError::InvalidEncoding);
        },
    };
    if decoded.len() != DID_KEY_DECODED_LEN {
        return Err(DidKeyError::InvalidLength { expected: DID_KEY_DECODED_LEN, actual: decoded.len() });
    }
    if decoded[0] != 0xed || decoded[1] != 0x01 {
        return Err(DidKeyError::InvalidMulticodec);
    }
    let mut key: Vec<u8> = Vec::new();
    let mut j: usize = 2;
    while j < decoded.len()
        invariant
            2 <= j <= decoded.len(),
            decoded@.len() == 34,
            key@ == decoded@.subrange(2, j as int),
        decreases decoded.len() - j,
    {
        key.push(decoded[j]);
        assert(decoded@.subrange(2, j + 1) =~= decoded@.subrange(2, j as int).push(decoded@[j as int]));
        j = j + 1;
    }
    Ok(key)
}

} // verus!
