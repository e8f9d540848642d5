//! Device registration by challenge and signature: a device asks for a
//! challenge, signs it, and is registered once the signature verifies.
//! Challenges expire after five minutes and are consumed on success.

use vstd::prelude::*;

use crate::error::A2aError;
use crate::keyed::{Keyed, Table};
use crate::sequence_graph::{hex_encode, hex_lower, sha256_digest, sha256_spec};
use crate::strings::{concat2, decimal, owned, str_eq, usize_to_decimal};

verus! {

/// Seconds a challenge stays answerable.
pub const CHALLENGE_TTL_SECONDS: u64 = 300;

/// The character of a six-bit value in the standard base64 alphabet.
pub open spec fn base64_char(v: int) -> char {
    "ABCDEFGHIJKLMNOPQRSTUVWXYZabcdefghijklmnopqrstuvwxyz0123456789+/"@[v]
}

/// Standard base64 with padding (RFC 4648): each group of three bytes
/// becomes four characters; a final group of one or two bytes is padded
/// with `=` to four.
pub open spec fn base64_standard(data: Seq<u8>) -> Seq<char>
    decreases data.len(),
{
    if data.len() == 0 {
        Seq::empty()
    } else if data.len() == 1 {
        seq![base64_char((data[0] as int) / 4), base64_char(((data[0] as int) % 4) * 16), '=', '=']
    } else if data.len() == 2 {
        seq![
            base64_char((data[0] as int) / 4),
            base64_char(((data[0] as int) % 4) * 16 + (data[1] as int) / 16),
            base64_char(((data[1] as int) % 16) * 4),
            '=',
        ]
    } else {
        seq![
            base64_char((data[0] as int) / 4),
            base64_char(((data[0] as int) % 4) * 16 + (data[1] as int) / 16),
            base64_char(((data[1] as int) % 16) * 4 + (data[2] as int) / 64),
            base64_char((data[2] as int) % 64),
        ] + base64_standard(data.skip(3))
    }
}

/// `base64::engine::general_purpose::STANDARD.encode`: standard base64 with
/// padding.
#[verifier::external_body]
fn base64_encode(data: &[u8]) -> (r: String)
    ensures
        r@ == base64_standard(data@),
{
    base64::Engine::encode(&base64::engine::general_purpose::STANDARD, data)
}

/// What `STANDARD.decode` yields for a text: the bytes, or the text of the
/// decoding error.
pub uninterp spec fn base64_decode_result(text: Seq<char>) -> Result<Seq<u8>, Seq<char>>;

/// `base64::engine::general_purpose::STANDARD.decode`, with the error as text.
#[verifier::external_body]
fn base64_decode(text: &str) -> (r: Result<Vec<u8>, String>)
    ensures
        base64_decode_result(text@) == match r {
            Ok(v) => Ok::<Seq<u8>, Seq<char>>(v@),
            Err(e) => Err::<Seq<u8>, Seq<char>>(e@),
        },
{
    base64::Engine::decode(&base64::engine::general_purpose::STANDARD, text).map_err(|e| e.to_string())
}

/// 32 bytes from the operating system's random source (`OsRng`). Only the
/// length is promised: the bytes are random. Panics if the source fails.
#[verifier::external_body]
fn random_challenge_bytes() -> (r: Vec<u8>)
    ensures
        r@.len() == 32,
{
    let mut bytes = [0u8; 32];
    rand::RngCore::fill_bytes(&mut rand::rngs::OsRng, &mut bytes);
    bytes.to_vec()
}

/// `SystemTime::now()` as seconds since the Unix epoch. Nothing is promised
/// of the value: it is the clock. Panics if the clock reads before 1970.
#[verifier::external_body]
fn unix_seconds() -> (r: u64) {
    std::time::SystemTime::now().duration_since(std::time::UNIX_EPOCH).expect("system clock before the Unix epoch").as_secs()
}

/// A challenge issued to a device.
#[derive(Debug, Clone)]
pub struct Challenge {
    pub data: Vec<u8>,
    pub timestamp: u64,
    pub device_id: String,
}

/// A registered device.
#[derive(Debug, Clone)]
pub struct Registration {
    pub device_id: String,
    pub public_key: Vec<u8>,
    pub verified: bool,
    pub timestamp: u64,
}

impl Keyed for Registration {
    open spec fn key_view(&self) -> Seq<char> {
        self.device_id@
    }

    fn key(&self) -> (k: &str) {
        self.device_id.as_str()
    }
}

/// A challenge under its id.
#[derive(Debug)]
pub struct ChallengeEntry {
    pub id: String,
    pub challenge: Challenge,
}

impl Keyed for ChallengeEntry {
    open spec fn key_view(&self) -> Seq<char> {
        self.id@
    }

    fn key(&self) -> (k: &str) {
        self.id.as_str()
    }
}

#[derive(Debug, Clone)]
pub struct ChallengeRequest {
    pub device_id: String,
}

#[derive(Debug, Clone)]
pub struct ChallengeResponse {
    pub challenge_id: String,
    pub challenge: String,
    pub timestamp: u64,
}

#[derive(Debug, Clone)]
pub struct VerifyRequest {
    pub challenge_id: String,
    pub device_id: String,
    pub public_key: String,
    pub signature: String,
    /// Delegation token of a delegated agent, when there is one.
    pub delegation_jwt: Option<String>,
}

#[derive(Debug, Clone)]
pub struct VerifyResponse {
    pub success: bool,
    pub device_id: String,
    pub message: String,
}

#[derive(Debug, Clone, PartialEq, Eq)]
pub struct RegistrationStatus {
    pub device_id: String,
    pub verified: bool,
    pub registered_at: u64,
}

/// Signature scheme, chosen by the length of the public key.
#[derive(Debug, Clone, Copy, PartialEq, Eq, Structural)]
pub enum SignatureScheme {
    /// 32-byte keys (agent to agent).
    Ed25519,
    /// 33- or 65-byte SEC1 keys (device secure enclaves).
    P256,
}

/// A signature to check before a device is registered.
#[derive(Debug, Clone)]
pub struct SignatureCheck {
    pub scheme: SignatureScheme,
    pub public_key: Vec<u8>,
    pub signature: Vec<u8>,
    /// The challenge bytes the signature must cover.
    pub message: Vec<u8>,
}

/// What checking a signature found.
#[derive(Debug, Clone, PartialEq, Eq)]
pub enum SignatureOutcome {
    Valid,
    /// The key did not parse; the text says why.
    InvalidKey(String),
    /// The signature does not verify under the key.
    Rejected,
}

/// Seconds since `ts` at `now`, as unsigned arithmetic wraps them.
pub open spec fn age(now: u64, ts: u64) -> u64 {
    now.wrapping_sub(ts)
}

/// The challenges still kept at `now`.
pub open spec fn live(m: Map<Seq<char>, Challenge>, now: u64) -> Map<Seq<char>, Challenge> {
    Map::new(|k: Seq<char>| m.contains_key(k) && age(now, m[k].timestamp) <= CHALLENGE_TTL_SECONDS, |k: Seq<char>| m[k])
}

/// Why a verification request is refused before any signature is checked,
/// or `None` when its signature is to be checked.
pub open spec fn verify_error(challenges: Map<Seq<char>, Challenge>, request: VerifyRequest, now: u64) -> Option<Seq<char>> {
    if !challenges.contains_key(request.challenge_id@) {
        Some("Challenge not found"@)
    } else {
        let c = challenges[request.challenge_id@];
        if age(now, c.timestamp) >= CHALLENGE_TTL_SECONDS {
            Some("Challenge expired"@)
        } else if c.device_id@ != request.device_id@ {
            Some("Device ID mismatch"@)
        } else {
            match base64_decode_result(request.public_key@) {
                Err(e) => Some("Invalid public key: "@ + e),
                Ok(key) => match base64_decode_result(request.signature@) {
                    Err(e) => Some("Invalid signature: "@ + e),
                    Ok(_) => if key.len() == 32 || key.len() == 33 || key.len() == 65 {
                        None
                    } else {
                        Some(
                            "Unsupported public key length: "@ + decimal(key.len()) + " bytes. Expected 32 (Ed25519) or 33/65 (P-256)"@,
                        )
                    },
                },
            }
        }
    }
}

pub open spec fn invalid_request<T>(r: Result<T, A2aError>, text: Seq<char>) -> bool {
    r matches Err(A2aError::InvalidRequest(m)) && m@ == text
}

pub open spec fn scheme_name(s: SignatureScheme) -> Seq<char> {
    match s {
        SignatureScheme::Ed25519 => "Ed25519"@,
        SignatureScheme::P256 => "P-256"@,
    }
}

/// Device registrations and the challenges outstanding for them.
pub struct RegistrationService {
    challenges: Table<ChallengeEntry>,
    registrations: Table<Registration>,
}

impl RegistrationService {
    /// Outstanding challenges, by id.
    pub closed spec fn challenge_map(&self) -> Map<Seq<char>, Challenge> {
        Map::new(
            |k: Seq<char>| self.challenges.map_view().contains_key(k),
            |k: Seq<char>| self.challenges.map_view()[k].challenge,
        )
    }

    /// Registered devices, by device id.
    pub closed spec fn registration_map(&self) -> Map<Seq<char>, Registration> {
        self.registrations.map_view()
    }

    pub closed spec fn wf(&self) -> bool {
        self.challenges.wf() && self.registrations.wf()
    }

    pub fn new() -> (s: RegistrationService)
        ensures
            s.wf(),
            s.challenge_map() == Map::<Seq<char>, Challenge>::empty(),
            s.registration_map() == Map::<Seq<char>, Registration>::empty(),
    {
        let s = RegistrationService { challenges: Table::new(), registrations: Table::new() };
        assert(s.challenge_map() =~= Map::<Seq<char>, Challenge>::empty());
        s
    }

    /// Keep only the challenges that are still answerable at `now`.
    fn cleanup_expired_challenges(&mut self, now: u64)
        requires
            old(self).wf(),
        ensures
            final(self).wf(),
            final(self).challenge_map() == live(old(self).challenge_map(), now),
            final(self).registration_map() == old(self).registration_map(),
    {
        let mut old_table: Table<ChallengeEntry> = Table::new();
        std::mem::swap(&mut old_table, &mut self.challenges);
        let ghost old_map = old_table.map_view();
        let ghost old_items = old_table.item_seq();
        proof {
            assert forall|i: int| 0 <= i < old_items.len() implies old_map.contains_key(#[trigger] old_items[i].key_view())
                && old_map[old_items[i].key_view()] == old_items[i] by {
                old_table.lemma_items_in_map(i);
            }
        }
        let mut items = old_table.into_items();
        let mut kept: Table<ChallengeEntry> = Table::new();
        while items.len() > 0
            invariant
                items@ == old_items.take(items@.len() as int),
                items@.len() <= old_items.len(),
                kept.wf(),
                forall|j: int| 0 <= j < old_items.len() ==> old_map.contains_key(#[trigger] old_items[j].key_view())
                    && old_map[old_items[j].key_view()] == old_items[j],
                forall|k: Seq<char>| #[trigger] kept.map_view().contains_key(k) ==> old_map.contains_key(k)
                    && kept.map_view()[k] == old_map[k] && age(now, old_map[k].challenge.timestamp) <= CHALLENGE_TTL_SECONDS,
                forall|j: int| items@.len() <= j < old_items.len() && age(now, old_items[j].challenge.timestamp) <= CHALLENGE_TTL_SECONDS ==> kept.map_view().contains_key(
                    #[trigger] old_items[j].key_view(),
                ),
            decreases items.len(),
        {
            let ghost n = items@.len() as int;
            let entry = items.pop().unwrap();
            assert(entry == old_items[n - 1]);
            assert(items@ =~= old_items.take(n - 1));
            if now.wrapping_sub(entry.challenge.timestamp) <= CHALLENGE_TTL_SECONDS {
                kept.insert(entry);
            }
        }
        self.challenges = kept;
        proof {
            assert(self.challenge_map() =~= live(old(self).challenge_map(), now)) by {
                assert forall|k: Seq<char>| #[trigger] self.challenge_map().contains_key(k) == live(old(self).challenge_map(), now).contains_key(k) by {
                    if live(old(self).challenge_map(), now).contains_key(k) {
                        old_table.lemma_map_in_items(k);
                        let j = choose|j: int| 0 <= j < old_items.len() && (#[trigger] old_items[j]).key_view() == k && old_map[k] == old_items[j];
                    }
                }
            }
        }
    }
}


impl RegistrationService {
    /// Record a challenge of `data` for a device at `now`, dropping the ones
    /// that have expired. Its id is the hex SHA-256 of the data.
    pub fn record_challenge(&mut self, device_id: &str, data: Vec<u8>, now: u64) -> (r: ChallengeResponse)
        requires
            old(self).wf(),
        ensures
            final(self).wf(),
            r.challenge_id@ == hex_lower(sha256_spec(data@)),
            r.challenge@ == base64_standard(data@),
            r.timestamp == now,
            final(self).challenge_map() == live(
                old(self).challenge_map().insert(
                    hex_lower(sha256_spec(data@)),
                    Challenge { data: data, timestamp: now, device_id: final(self).challenge_map()[r.challenge_id@].device_id },
                ),
                now,
            ),
            final(self).challenge_map()[r.challenge_id@].device_id@ == device_id@,
            final(self).registration_map() == old(self).registration_map(),
    {
        let digest = sha256_digest(data.as_slice());
        let challenge_id = hex_encode(digest.as_slice());
        let encoded = base64_encode(data.as_slice());
        let entry = ChallengeEntry {
            id: challenge_id.clone(),
            challenge: Challenge { data, timestamp: now, device_id: owned(device_id) },
        };
        let ghost c = entry.challenge;
        self.challenges.insert(entry);
        proof {
            assert(self.challenge_map() =~= old(self).challenge_map().insert(challenge_id@, c));
        }
        self.cleanup_expired_challenges(now);
        ChallengeResponse { challenge_id, challenge: encoded, timestamp: now }
    }

    /// Issue a challenge to a device; the device id must not be empty.
    /// Reads the system clock and draws from the operating system's random source; these panic only
    /// if the clock reads before 1970 or the random source fails.
    pub fn create_challenge(&mut self, request: ChallengeRequest) -> (r: Result<ChallengeResponse, A2aError>)
        requires
            old(self).wf(),
        ensures
            final(self).wf(),
            request.device_id@.len() == 0 ==> invalid_request(r, "Device ID cannot be empty"@) && final(self).challenge_map()
                == old(self).challenge_map(),
            request.device_id@.len() > 0 ==> (r matches Ok(resp) && final(self).challenge_map().contains_key(resp.challenge_id@)
                && final(self).challenge_map()[resp.challenge_id@].device_id@ == request.device_id@
                && final(self).challenge_map()[resp.challenge_id@].timestamp == resp.timestamp),
            final(self).registration_map() == old(self).registration_map(),
    {
        if request.device_id.as_str().unicode_len() == 0 {
            return Err(A2aError::InvalidRequest(owned("Device ID cannot be empty")));
        }
        let data = random_challenge_bytes();
        let now = unix_seconds();
        let resp = self.record_challenge(request.device_id.as_str(), data, now);
        proof {
            assert(age(now, now) == 0) by (bit_vector);
        }
        Ok(resp)
    }

    /// Check a verification request at `now` up to its signature: the
    /// challenge must exist, be fresh and belong to the device, and the key
    /// and signature must decode; the key's length picks the scheme.
    pub fn begin_verification(&self, request: &VerifyRequest, now: u64) -> (r: Result<SignatureCheck, A2aError>)
        requires
            self.wf(),
        ensures
            match verify_error(self.challenge_map(), *request, now) {
                Some(m) => invalid_request(r, m),
                None => r matches Ok(check) && {
                    &&& base64_decode_result(request.public_key@) == Ok::<Seq<u8>, Seq<char>>(check.public_key@)
                    &&& base64_decode_result(request.signature@) == Ok::<Seq<u8>, Seq<char>>(check.signature@)
                    &&& check.message@ == self.challenge_map()[request.challenge_id@].data@
                    &&& check.scheme == if check.public_key@.len() == 32 {
                        SignatureScheme::Ed25519
                    } else {
                        SignatureScheme::P256
                    }
                },
            },
    {
        let entry = match self.challenges.get(request.challenge_id.as_str()) {
            Some(e) => e,
            None => {
                return Err(A2aError::InvalidRequest(owned("Challenge not found")));
            },
        };
        let challenge = &entry.challenge;
        if now.wrapping_sub(challenge.timestamp) >= CHALLENGE_TTL_SECONDS {
            return Err(A2aError::InvalidRequest(owned("Challenge expired")));
        }
        if !str_eq(challenge.device_id.as_str(), request.device_id.as_str()) {
            return Err(A2aError::InvalidRequest(owned("Device ID mismatch")));
        }
        let public_key = match base64_decode(request.public_key.as_str()) {
            Ok(k) => k,
            Err(e) => {
                return Err(A2aError::InvalidRequest(concat2("Invalid public key: ", e.as_str())));
            },
        };
        let signature = match base64_decode(request.signature.as_str()) {
            Ok(s) => s,
            Err(e) => {
                return Err(A2aError::InvalidRequest(concat2("Invalid signature: ", e.as_str())));
            },
        };
        let len = public_key.len();
        let scheme = if len == 32 {
            SignatureScheme::Ed25519
        } else if len == 33 || len == 65 {
            SignatureScheme::P256
        } else {
            let n = usize_to_decimal(len);
            let m = concat2("Unsupported public key length: ", n.as_str());
            let m = m.concat(" bytes. Expected 32 (Ed25519) or 33/65 (P-256)");
            return Err(A2aError::InvalidRequest(m));
        };
        Ok(SignatureCheck { scheme, public_key, signature, message: challenge.data.clone() })
    }

    /// Finish a verification once the signature has been checked: a valid
    /// signature consumes the challenge and registers the device with its key.
    pub fn complete_verification(&mut self, request: &VerifyRequest, check: SignatureCheck, outcome: SignatureOutcome, now: u64) -> (r:
        Result<VerifyResponse, A2aError>)
        requires
            old(self).wf(),
        ensures
            final(self).wf(),
            match outcome {
                SignatureOutcome::InvalidKey(m) => invalid_request(r, "Invalid "@ + scheme_name(check.scheme) + " public key: "@ + m@)
                    && final(self).challenge_map() == old(self).challenge_map() && final(self).registration_map() == old(
                    self,
                ).registration_map(),
                SignatureOutcome::Rejected => (r matches Err(A2aError::AuthenticationFailed(m)) && m@ == scheme_name(check.scheme)
                    + " signature verification failed"@) && final(self).challenge_map() == old(self).challenge_map()
                    && final(self).registration_map() == old(self).registration_map(),
                SignatureOutcome::Valid => {
                    &&& r matches Ok(resp) && resp.success && resp.device_id@ == request.device_id@
                        && resp.message@ == "Registration verified successfully"@
                    &&& final(self).challenge_map() == old(self).challenge_map().remove(request.challenge_id@)
                    &&& final(self).registration_map().contains_key(request.device_id@)
                    &&& final(self).registration_map().remove(request.device_id@) == old(self).registration_map().remove(
                        request.device_id@,
                    )
                    &&& final(self).registration_map()[request.device_id@].verified
                    &&& final(self).registration_map()[request.device_id@].public_key@ == check.public_key@
                    &&& final(self).registration_map()[request.device_id@].timestamp == now
                },
            },
    {
        let name = match check.scheme {
            SignatureScheme::Ed25519 => "Ed25519",
            SignatureScheme::P256 => "P-256",
        };
        proof {
            reveal_strlit("Ed25519");
            reveal_strlit("P-256");
        }
        match outcome {
            SignatureOutcome::InvalidKey(m) => {
                let t = concat2("Invalid ", name);
                let t = t.concat(" public key: ");
                let t = t.concat(m.as_str());
                return Err(A2aError::InvalidRequest(t));
            },
            SignatureOutcome::Rejected => {
                let t = concat2(name, " signature verification failed");
                return Err(A2aError::AuthenticationFailed(t));
            },
            SignatureOutcome::Valid => {},
        }
        let ghost before = self.challenges.map_view();
        let _ = self.challenges.remove(request.challenge_id.as_str());
        proof {
            assert(self.challenge_map() =~= old(self).challenge_map().remove(request.challenge_id@));
        }
        let registration = Registration {
            device_id: request.device_id.clone(),
            public_key: check.public_key,
            verified: true,
            timestamp: now,
        };
        self.registrations.insert(registration);
        proof {
            assert(self.registration_map().remove(request.device_id@) =~= old(self).registration_map().remove(request.device_id@));
        }
        Ok(VerifyResponse { success: true, device_id: request.device_id.clone(), message: owned("Registration verified successfully") })
    }

    /// Whether a device is registered, and since when (0 when it is not).
    pub fn get_registration_status(&self, device_id: &str) -> (r: Result<RegistrationStatus, A2aError>)
        requires
            self.wf(),
        ensures
            r matches Ok(s) && s.device_id@ == device_id@ && if self.registration_map().contains_key(device_id@) {
                s.verified == self.registration_map()[device_id@].verified && s.registered_at
                    == self.registration_map()[device_id@].timestamp
            } else {
                !s.verified && s.registered_at == 0
            },
    {
        match self.registrations.get(device_id) {
            Some(reg) => Ok(RegistrationStatus { device_id: owned(device_id), verified: reg.verified, registered_at: reg.timestamp }),
            None => Ok(RegistrationStatus { device_id: owned(device_id), verified: false, registered_at: 0 }),
        }
    }
}

} // verus!
