//! OAuth2 authorization-code and refresh-token grants with HS256 access
//! tokens: which codes and tokens are outstanding, when they expire, and what
//! a grant request is answered.

use vstd::prelude::*;
use vstd::utf8::encode_utf8;

use crate::error::A2aError;
use crate::keyed::{Keyed, Table};
use crate::string_set::string_views;
use crate::strings::{concat2, owned, str_eq};
use serde_json::Value as JsonValue;

verus! {

/// Seconds an authorization code stays redeemable.
pub const AUTHORIZATION_CODE_TTL: i64 = 600;

/// Seconds an access token stays valid.
pub const ACCESS_TOKEN_TTL: i64 = 3600;

/// Seconds a refresh token stays valid.
pub const REFRESH_TOKEN_TTL: i64 = 2_592_000;

/// Unix timestamps that a `chrono` date can have (its years lie within
/// about ±262143, so every timestamp is below 2^43 in magnitude).
pub open spec fn timestamp_in_range(t: i64) -> bool {
    -8_796_093_022_208 <= t <= 8_796_093_022_208
}

/// `Utc::now().timestamp()`: the current Unix time. Only its range is
/// promised: it is the clock. Panics if the clock reads before 1970.
#[verifier::external_body]
pub(crate) fn unix_now() -> (r: i64)
    ensures
        timestamp_in_range(r),
{
    chrono::Utc::now().timestamp()
}

/// `Uuid::new_v4().to_string()`: a fresh random identifier. Nothing is
/// promised of the value: it is random. Panics if the operating system's
/// random source fails.
#[verifier::external_body]
pub(crate) fn new_token_id() -> (r: String) {
    uuid::Uuid::new_v4().to_string()
}

/// Bytes that URL encoding leaves as they are: `A-Z a-z 0-9 - . _ ~`.
pub open spec fn url_safe_byte(b: u8) -> bool {
    (48 <= b <= 57) || (65 <= b <= 90) || (97 <= b <= 122) || b == 45 || b == 46 || b == 95 || b == 126
}

/// An uppercase hexadecimal digit.
pub open spec fn upper_hex_digit(d: int) -> char {
    "0123456789ABCDEF"@[d]
}

/// Percent-encoding of bytes: a safe byte stands for itself, any other
/// becomes `%` and its two uppercase hexadecimal digits.
pub open spec fn percent_encoded(bytes: Seq<u8>) -> Seq<char>
    decreases bytes.len(),
{
    if bytes.len() == 0 {
        Seq::empty()
    } else {
        let b = bytes[0];
        (if url_safe_byte(b) {
            seq![b as char]
        } else {
            seq!['%', upper_hex_digit(b as int / 16), upper_hex_digit(b as int % 16)]
        }) + percent_encoded(bytes.drop_first())
    }
}

/// URL encoding of a text: the percent-encoding of its UTF-8 bytes.
pub open spec fn url_encoded(s: Seq<char>) -> Seq<char> {
    percent_encoded(encode_utf8(s))
}

/// `urlencoding::encode`: percent-encodes every byte of the text's UTF-8
/// encoding except alphanumerics and `-`, `.`, `_`, `~`.
#[verifier::external_body]
fn url_encode(s: &str) -> (r: String)
    ensures
        r@ == url_encoded(s@),
{
    urlencoding::encode(s).into_owned()
}

/// What `jsonwebtoken::encode` gives for an HS256 header, the secret's bytes
/// as key and, as claims, the JSON object with `sub`, `client_id`, `scopes`,
/// `iss`, `aud` (null when absent), `exp`, `iat` and `jti`: the token text,
/// or the error's text.
pub uninterp spec fn hs256_jwt(
    sub: Seq<char>,
    client_id: Seq<char>,
    scopes: Seq<Seq<char>>,
    iss: Seq<char>,
    aud: Option<Seq<char>>,
    exp: i64,
    iat: i64,
    jti: Seq<char>,
    secret: Seq<char>,
) -> Result<Seq<char>, Seq<char>>;

/// An optional string, as an optional text.
pub open spec fn opt_text(s: Option<String>) -> Option<Seq<char>> {
    match s {
        Some(t) => Some(t@),
        None => None,
    }
}

/// A result, its texts taken as sequences.
pub open spec fn text_result(r: Result<String, String>) -> Result<Seq<char>, Seq<char>> {
    match r {
        Ok(t) => Ok(t@),
        Err(e) => Err(e@),
    }
}

/// `jsonwebtoken::encode` of the access-token claims with an HS256 header
/// and the secret's bytes as key: the token, or the error's text.
#[verifier::external_body]
fn jwt_encode_hs256(
    sub: &str,
    client_id: &str,
    scopes: &Vec<String>,
    iss: &str,
    aud: &Option<String>,
    exp: i64,
    iat: i64,
    jti: &str,
    secret: &str,
) -> (r: Result<String, String>)
    ensures
        text_result(r) == hs256_jwt(sub@, client_id@, string_views(scopes@), iss@, opt_text(*aud), exp, iat, jti@, secret@),
{
    let fields = [("sub", JsonValue::from(sub)), ("client_id", JsonValue::from(client_id)),
        ("scopes", JsonValue::from(scopes.clone())), ("iss", JsonValue::from(iss)), ("aud", JsonValue::from(aud.clone())),
        ("exp", JsonValue::from(exp)), ("iat", JsonValue::from(iat)), ("jti", JsonValue::from(jti))];
    let claims: serde_json::Map<String, JsonValue> = fields.into_iter().map(|(k, v)| (k.to_string(), v)).collect();
    let key = jsonwebtoken::EncodingKey::from_secret(secret.as_bytes());
    jsonwebtoken::encode(&jsonwebtoken::Header::new(jsonwebtoken::Algorithm::HS256), &claims, &key).map_err(|e| e.to_string())
}

/// What signing an access token answers, for a given clock reading and
/// token id: the token, or an authorization error naming the failure.
pub open spec fn signed_token(
    sub: Seq<char>,
    client_id: Seq<char>,
    scopes: Seq<Seq<char>>,
    iss: Seq<char>,
    aud: Option<Seq<char>>,
    expires_in: i64,
    now: i64,
    jti: Seq<char>,
    secret: Seq<char>,
) -> Result<Seq<char>, Seq<char>> {
    match hs256_jwt(sub, client_id, scopes, iss, aud, (now + expires_in) as i64, now, jti, secret) {
        Ok(t) => Ok(t),
        Err(e) => Err("Failed to generate JWT: "@ + e),
    }
}

/// Provider configuration.
#[derive(Debug, Clone)]
pub struct OAuth2Config {
    pub client_id: String,
    pub client_secret: String,
    pub authorization_endpoint: String,
    pub token_endpoint: String,
    pub redirect_uri: String,
    pub scopes: Vec<String>,
    pub issuer: String,
    pub audience: Option<String>,
}

/// Grant of a token request.
#[derive(Debug, Clone, Copy, PartialEq, Eq, Structural)]
pub enum GrantType {
    AuthorizationCode,
    RefreshToken,
    ClientCredentials,
}

/// A token request.
#[derive(Debug, Clone)]
pub struct TokenRequest {
    pub grant_type: GrantType,
    pub code: Option<String>,
    pub refresh_token: Option<String>,
    pub client_id: String,
    pub client_secret: Option<String>,
    pub redirect_uri: Option<String>,
    pub scope: Option<String>,
}

/// The answer to a successful token request.
#[derive(Debug, Clone)]
pub struct TokenResponse {
    pub access_token: String,
    pub token_type: String,
    pub expires_in: i64,
    pub refresh_token: Option<String>,
    pub scope: Option<String>,
    pub id_token: Option<String>,
}

/// An outstanding authorization code.
#[derive(Debug, Clone)]
pub struct AuthorizationCode {
    pub code: String,
    pub client_id: String,
    pub redirect_uri: String,
    pub expires_at: i64,
    pub scopes: Vec<String>,
    pub user_id: String,
}

/// An outstanding refresh token.
#[derive(Debug, Clone)]
pub struct RefreshToken {
    pub token: String,
    pub client_id: String,
    pub user_id: String,
    pub scopes: Vec<String>,
    pub expires_at: Option<i64>,
}

/// An issued access token.
#[derive(Debug, Clone)]
pub struct AccessToken {
    pub token: String,
    pub client_id: String,
    pub user_id: String,
    pub scopes: Vec<String>,
    pub expires_at: i64,
}

impl Keyed for AuthorizationCode {
    open spec fn key_view(&self) -> Seq<char> {
        self.code@
    }

    fn key(&self) -> (k: &str) {
        self.code.as_str()
    }
}

impl Keyed for RefreshToken {
    open spec fn key_view(&self) -> Seq<char> {
        self.token@
    }

    fn key(&self) -> (k: &str) {
        self.token.as_str()
    }
}

impl Keyed for AccessToken {
    open spec fn key_view(&self) -> Seq<char> {
        self.token@
    }

    fn key(&self) -> (k: &str) {
        self.token.as_str()
    }
}

/// An access token as plain values: token, client, user, scopes, expiry.
pub type AccessView = (Seq<char>, Seq<char>, Seq<char>, Seq<Seq<char>>, i64);

impl View for AccessToken {
    type V = AccessView;

    open spec fn view(&self) -> AccessView {
        (self.token@, self.client_id@, self.user_id@, string_views(self.scopes@), self.expires_at)
    }
}

fn copy_strings(v: &Vec<String>) -> (r: Vec<String>)
    ensures
        string_views(r@) == string_views(v@),
{
    let mut r: Vec<String> = Vec::new();
    let mut i: usize = 0;
    while i < v.len()
        invariant
            i <= v.len(),
            string_views(r@) == string_views(v@.take(i as int)),
        decreases v.len() - i,
    {
        let ghost before = r@;
        r.push(v[i].clone());
        assert(string_views(r@) =~= string_views(before).push(v@[i as int]@));
        assert(v@.take(i + 1) =~= v@.take(i as int).push(v@[i as int]));
        assert(string_views(v@.take(i + 1)) =~= string_views(v@.take(i as int)).push(v@[i as int]@));
        i = i + 1;
    }
    assert(v@.take(v.len() as int) =~= v@);
    r
}

impl AccessToken {
    /// A copy of this token record.
    pub fn copied(&self) -> (r: AccessToken)
        ensures
            r@ == self@,
    {
        AccessToken {
            token: self.token.clone(),
            client_id: self.client_id.clone(),
            user_id: self.user_id.clone(),
            scopes: copy_strings(&self.scopes),
            expires_at: self.expires_at,
        }
    }
}

/// `strs` joined by `sep` (`[String]::join`).
pub open spec fn joined(strs: Seq<Seq<char>>, sep: Seq<char>) -> Seq<char>
    decreases strs.len(),
{
    if strs.len() == 0 {
        Seq::empty()
    } else if strs.len() == 1 {
        strs[0]
    } else {
        joined(strs.drop_last(), sep) + sep + strs.last()
    }
}

/// The strings joined by `sep`.
pub fn join_strings(v: &Vec<String>, sep: &str) -> (r: String)
    ensures
        r@ == joined(string_views(v@), sep@),
{
    let mut r = String::new();
    let mut i: usize = 0;
    while i < v.len()
        invariant
            i <= v.len(),
            r@ == joined(string_views(v@.take(i as int)), sep@),
        decreases v.len() - i,
    {
        let ghost prev = string_views(v@.take(i as int));
        let ghost next = string_views(v@.take(i + 1));
        assert(v@.take(i + 1) =~= v@.take(i as int).push(v@[i as int]));
        assert(next =~= prev.push(v@[i as int]@));
        assert(next.drop_last() =~= prev);
        if i == 0 {
            r = v[i].clone();
        } else {
            r = r.concat(sep);
            r = r.concat(v[i].as_str());
        }
        i = i + 1;
    }
    assert(v@.take(v.len() as int) =~= v@);
    r
}

/// Why a code cannot be redeemed, or `None` when it can.
pub open spec fn redeem_error(codes: Map<Seq<char>, AuthorizationCode>, request: TokenRequest, now: i64) -> Option<Seq<char>> {
    match request.code {
        None => Some("Missing authorization code"@),
        Some(c) => if !codes.contains_key(c@) {
            Some("Invalid authorization code"@)
        } else {
            let a = codes[c@];
            if a.expires_at < now {
                Some("Authorization code expired"@)
            } else if a.client_id@ != request.client_id@ {
                Some("Client ID mismatch"@)
            } else if request.redirect_uri is Some && a.redirect_uri@ != request.redirect_uri->0@ {
                Some("Redirect URI mismatch"@)
            } else {
                None
            }
        },
    }
}

/// Why a refresh token cannot be used, or `None` when it can.
pub open spec fn refresh_error(tokens: Map<Seq<char>, RefreshToken>, request: TokenRequest, now: i64) -> Option<Seq<char>> {
    match request.refresh_token {
        None => Some("Missing refresh token"@),
        Some(t) => if !tokens.contains_key(t@) {
            Some("Invalid refresh token"@)
        } else {
            let r = tokens[t@];
            if r.expires_at is Some && r.expires_at->0 < now {
                Some("Refresh token expired"@)
            } else if r.client_id@ != request.client_id@ {
                Some("Client ID mismatch"@)
            } else {
                None
            }
        },
    }
}

/// A refresh is granted only to the client the refresh token was issued to:
/// whenever the request's client differs, refreshing fails at every time,
/// with "Client ID mismatch" while the token is valid and unexpired; and a
/// refresh that goes through names a known, unexpired token of that client.
pub proof fn lemma_refresh_only_for_issuing_client(
    tokens: Map<Seq<char>, RefreshToken>,
    request: TokenRequest,
    now: i64,
)
    ensures
        (request.refresh_token matches Some(t) && tokens.contains_key(t@) && tokens[t@].client_id@
            != request.client_id@) ==> refresh_error(tokens, request, now) is Some,
        (request.refresh_token matches Some(t) && tokens.contains_key(t@) && tokens[t@].client_id@
            != request.client_id@ && !(tokens[t@].expires_at is Some && tokens[t@].expires_at->0 < now))
            ==> refresh_error(tokens, request, now) == Some("Client ID mismatch"@),
        refresh_error(tokens, request, now) is None ==> (request.refresh_token matches Some(t) && tokens.contains_key(
            t@,
        ) && tokens[t@].client_id@ == request.client_id@ && !(tokens[t@].expires_at is Some
            && tokens[t@].expires_at->0 < now)),
{
}

/// An authorization code is exchanged only by the client it was issued to:
/// whenever the request's client differs, the exchange fails, with "Client
/// ID mismatch" while the code is unexpired; and an exchange that goes
/// through names a known, unexpired code of that client.
pub proof fn lemma_exchange_only_for_issuing_client(
    codes: Map<Seq<char>, AuthorizationCode>,
    request: TokenRequest,
    now: i64,
)
    ensures
        (request.code matches Some(c) && codes.contains_key(c@) && codes[c@].client_id@ != request.client_id@)
            ==> redeem_error(codes, request, now) is Some,
        (request.code matches Some(c) && codes.contains_key(c@) && codes[c@].client_id@ != request.client_id@
            && codes[c@].expires_at >= now) ==> redeem_error(codes, request, now) == Some("Client ID mismatch"@),
        redeem_error(codes, request, now) is None ==> (request.code matches Some(c) && codes.contains_key(c@)
            && codes[c@].client_id@ == request.client_id@ && codes[c@].expires_at >= now),
{
}

/// Whether a result is the `Auth` error with the given text.
pub open spec fn auth_error<T>(r: Result<T, A2aError>, text: Seq<char>) -> bool {
    r matches Err(A2aError::Auth(m)) && m@ == text
}

/// An OAuth2 provider: the codes and tokens it has issued.
pub struct OAuth2Provider {
    config: OAuth2Config,
    jwt_secret: String,
    authorization_codes: Table<AuthorizationCode>,
    refresh_tokens: Table<RefreshToken>,
    access_tokens: Table<AccessToken>,
}

/// What issuing a token pair records and answers, with the pair stored at
/// `now`: the refresh token and the access token are stored for the grant
/// (nothing else changes), and the response carries them.
pub open spec fn stores_issue(
    before_acc: Map<Seq<char>, AccessToken>,
    after_acc: Map<Seq<char>, AccessToken>,
    before_ref: Map<Seq<char>, RefreshToken>,
    after_ref: Map<Seq<char>, RefreshToken>,
    t: TokenResponse,
    user: Seq<char>,
    client: Seq<char>,
    scopes: Seq<Seq<char>>,
    now: i64,
) -> bool {
    &&& t.refresh_token is Some
    &&& after_ref.contains_key(t.refresh_token->0@)
    &&& after_ref.remove(t.refresh_token->0@) == before_ref.remove(t.refresh_token->0@)
    &&& after_ref[t.refresh_token->0@].client_id@ == client
    &&& after_ref[t.refresh_token->0@].user_id@ == user
    &&& string_views(after_ref[t.refresh_token->0@].scopes@) == scopes
    &&& after_ref[t.refresh_token->0@].expires_at == Some((now + REFRESH_TOKEN_TTL) as i64)
    &&& after_acc.contains_key(t.access_token@)
    &&& after_acc.remove(t.access_token@) == before_acc.remove(t.access_token@)
    &&& after_acc[t.access_token@]@ == (t.access_token@, client, user, scopes, (now + ACCESS_TOKEN_TTL) as i64)
    &&& t.token_type@ == "Bearer"@
    &&& t.expires_in == ACCESS_TOKEN_TTL
    &&& (t.scope matches Some(sc) && sc@ == joined(scopes, " "@))
    &&& t.id_token is None
}

impl OAuth2Provider {
    pub closed spec fn config_spec(&self) -> OAuth2Config {
        self.config
    }

    /// The key access tokens are signed with.
    pub closed spec fn secret(&self) -> Seq<char> {
        self.jwt_secret@
    }

    /// What signing an access token for a grant answers, for a clock
    /// reading and token id.
    pub open spec fn signing(
        &self,
        user: Seq<char>,
        client: Seq<char>,
        scopes: Seq<Seq<char>>,
        now: i64,
        jti: Seq<char>,
    ) -> Result<Seq<char>, Seq<char>> {
        signed_token(
            user,
            client,
            scopes,
            self.config_spec().issuer@,
            opt_text(self.config_spec().audience),
            ACCESS_TOKEN_TTL,
            now,
            jti,
            self.secret(),
        )
    }

    /// `after` holds a token pair issued from this provider for a grant and
    /// answered with `t`: the access token is the signed JWT of the grant.
    pub open spec fn issued(&self, after: OAuth2Provider, t: TokenResponse, user: Seq<char>, client: Seq<char>, scopes: Seq<Seq<char>>) -> bool {
        &&& exists|now: i64|
            timestamp_in_range(now) && #[trigger] stores_issue(
                self.accesses(),
                after.accesses(),
                self.refreshes(),
                after.refreshes(),
                t,
                user,
                client,
                scopes,
                now,
            )
        &&& exists|now: i64, jti: Seq<char>|
            timestamp_in_range(now) && #[trigger] self.signing(user, client, scopes, now, jti) == Ok::<Seq<char>, Seq<char>>(t.access_token@)
    }

    /// Signing the grant's access token failed with message `m`.
    pub open spec fn signing_failed(&self, m: Seq<char>, user: Seq<char>, client: Seq<char>, scopes: Seq<Seq<char>>) -> bool {
        exists|now: i64, jti: Seq<char>|
            timestamp_in_range(now) && #[trigger] self.signing(user, client, scopes, now, jti) == Err::<Seq<char>, Seq<char>>(m)
    }

    /// Outstanding authorization codes, by code.
    pub closed spec fn codes(&self) -> Map<Seq<char>, AuthorizationCode> {
        self.authorization_codes.map_view()
    }

    /// Outstanding refresh tokens, by token.
    pub closed spec fn refreshes(&self) -> Map<Seq<char>, RefreshToken> {
        self.refresh_tokens.map_view()
    }

    /// Issued access tokens, by token.
    pub closed spec fn accesses(&self) -> Map<Seq<char>, AccessToken> {
        self.access_tokens.map_view()
    }

    pub closed spec fn wf(&self) -> bool {
        &&& self.authorization_codes.wf()
        &&& self.refresh_tokens.wf()
        &&& self.access_tokens.wf()
    }

    pub fn new(config: OAuth2Config, jwt_secret: String) -> (p: OAuth2Provider)
        ensures
            p.wf(),
            p.config_spec() == config,
            p.codes() == Map::<Seq<char>, AuthorizationCode>::empty(),
            p.refreshes() == Map::<Seq<char>, RefreshToken>::empty(),
            p.accesses() == Map::<Seq<char>, AccessToken>::empty(),
    {
        OAuth2Provider {
            config,
            jwt_secret,
            authorization_codes: Table::new(),
            refresh_tokens: Table::new(),
            access_tokens: Table::new(),
        }
    }

    /// Record a new authorization code issued at `now`; it expires ten
    /// minutes later.
    pub fn issue_authorization_code(
        &mut self,
        code: String,
        now: i64,
        client_id: String,
        redirect_uri: String,
        scopes: Vec<String>,
        user_id: String,
    ) -> (r: String)
        requires
            old(self).wf(),
            timestamp_in_range(now),
        ensures
            final(self).wf(),
            r@ == code@,
            final(self).codes().contains_key(code@),
            ({
                let c = final(self).codes()[code@];
                &&& c.code@ == code@
                &&& c.client_id@ == client_id@
                &&& c.redirect_uri@ == redirect_uri@
                &&& c.expires_at == now + AUTHORIZATION_CODE_TTL
                &&& string_views(c.scopes@) == string_views(scopes@)
                &&& c.user_id@ == user_id@
            }),
            final(self).codes().remove(code@) == old(self).codes().remove(code@),
            final(self).refreshes() == old(self).refreshes(),
            final(self).accesses() == old(self).accesses(),
            final(self).config_spec() == old(self).config_spec(),
            final(self).secret() == old(self).secret(),
    {
        let record = AuthorizationCode {
            code: code.clone(),
            client_id,
            redirect_uri,
            expires_at: now + AUTHORIZATION_CODE_TTL,
            scopes,
            user_id,
        };
        self.authorization_codes.insert(record);
        proof {
            assert(self.codes().remove(code@) =~= old(self).codes().remove(code@));
        }
        code
    }

    /// Issue an authorization code for a user and client, valid for ten minutes.
    /// Reads the system clock and draws from the operating system's random source; these panic only
    /// if the clock reads before 1970 or the random source fails.
    pub fn generate_authorization_code(
        &mut self,
        client_id: String,
        redirect_uri: String,
        scopes: Vec<String>,
        user_id: String,
    ) -> (r: Result<String, A2aError>)
        requires
            old(self).wf(),
        ensures
            final(self).wf(),
            r is Ok,
            (r matches Ok(code) && final(self).codes().contains_key(code@) && final(self).codes().remove(code@)
                == old(self).codes().remove(code@) && exists|now: i64|
                timestamp_in_range(now) && #[trigger] (now + AUTHORIZATION_CODE_TTL) == final(self).codes()[code@].expires_at && {
                    let c = final(self).codes()[code@];
                    &&& c.code@ == code@
                    &&& c.client_id@ == client_id@
                    &&& c.redirect_uri@ == redirect_uri@
                    &&& string_views(c.scopes@) == string_views(scopes@)
                    &&& c.user_id@ == user_id@
                }),
            final(self).refreshes() == old(self).refreshes(),
            final(self).accesses() == old(self).accesses(),
            final(self).config_spec() == old(self).config_spec(),
            final(self).secret() == old(self).secret(),
    {
        let code = new_token_id();
        let now = unix_now();
        Ok(self.issue_authorization_code(code, now, client_id, redirect_uri, scopes, user_id))
    }

    /// Take a code out for redemption at `now`: a known code is consumed
    /// whatever the outcome, so it can never be tried twice.
    pub fn redeem_code(&mut self, request: &TokenRequest, now: i64) -> (r: Result<AuthorizationCode, A2aError>)
        requires
            old(self).wf(),
        ensures
            final(self).wf(),
            final(self).refreshes() == old(self).refreshes(),
            final(self).accesses() == old(self).accesses(),
            final(self).config_spec() == old(self).config_spec(),
            final(self).secret() == old(self).secret(),
            match request.code {
                Some(c) => final(self).codes() == old(self).codes().remove(c@),
                None => final(self).codes() == old(self).codes(),
            },
            match redeem_error(old(self).codes(), *request, now) {
                Some(m) => auth_error(r, m),
                None => (r matches Ok(a) && a == old(self).codes()[request.code->0@]),
            },
    {
        let code = match &request.code {
            Some(c) => c,
            None => {
                return Err(A2aError::Auth(owned("Missing authorization code")));
            },
        };
        let auth_code = match self.authorization_codes.remove(code.as_str()) {
            Some(a) => a,
            None => {
                proof {
                    assert(self.codes() =~= old(self).codes().remove(code@));
                }
                return Err(A2aError::Auth(owned("Invalid authorization code")));
            },
        };
        if auth_code.expires_at < now {
            return Err(A2aError::Auth(owned("Authorization code expired")));
        }
        if !str_eq(auth_code.client_id.as_str(), request.client_id.as_str()) {
            return Err(A2aError::Auth(owned("Client ID mismatch")));
        }
        match &request.redirect_uri {
            Some(redirect_uri) => {
                if !str_eq(auth_code.redirect_uri.as_str(), redirect_uri.as_str()) {
                    return Err(A2aError::Auth(owned("Redirect URI mismatch")));
                }
            },
            None => {},
        }
        Ok(auth_code)
    }

    /// The grant a refresh token carries at `now`: its user, client and scopes.
    pub fn refresh_grant(&self, request: &TokenRequest, now: i64) -> (r: Result<(String, String, Vec<String>), A2aError>)
        requires
            self.wf(),
        ensures
            match refresh_error(self.refreshes(), *request, now) {
                Some(m) => auth_error(r, m),
                None => r matches Ok(g) && {
                    let t = self.refreshes()[request.refresh_token->0@];
                    &&& g.0@ == t.user_id@
                    &&& g.1@ == t.client_id@
                    &&& string_views(g.2@) == string_views(t.scopes@)
                },
            },
    {
        let token = match &request.refresh_token {
            Some(t) => t,
            None => {
                return Err(A2aError::Auth(owned("Missing refresh token")));
            },
        };
        let data = match self.refresh_tokens.get(token.as_str()) {
            Some(d) => d,
            None => {
                return Err(A2aError::Auth(owned("Invalid refresh token")));
            },
        };
        match data.expires_at {
            Some(expires_at) => {
                if expires_at < now {
                    return Err(A2aError::Auth(owned("Refresh token expired")));
                }
            },
            None => {},
        }
        if !str_eq(data.client_id.as_str(), request.client_id.as_str()) {
            return Err(A2aError::Auth(owned("Client ID mismatch")));
        }
        Ok((data.user_id.clone(), data.client_id.clone(), copy_strings(&data.scopes)))
    }

    /// Record a freshly signed access token and a new refresh token issued
    /// at `now`, and answer with them.
    pub fn store_tokens(
        &mut self,
        access_token: String,
        refresh_token: String,
        now: i64,
        user_id: String,
        client_id: String,
        scopes: Vec<String>,
    ) -> (r: TokenResponse)
        requires
            old(self).wf(),
            timestamp_in_range(now),
        ensures
            final(self).wf(),
            final(self).codes() == old(self).codes(),
            final(self).config_spec() == old(self).config_spec(),
            final(self).secret() == old(self).secret(),
            final(self).refreshes().contains_key(refresh_token@),
            final(self).refreshes().remove(refresh_token@) == old(self).refreshes().remove(refresh_token@),
            ({
                let t = final(self).refreshes()[refresh_token@];
                &&& t.client_id@ == client_id@
                &&& t.user_id@ == user_id@
                &&& string_views(t.scopes@) == string_views(scopes@)
                &&& t.expires_at == Some((now + REFRESH_TOKEN_TTL) as i64)
            }),
            final(self).accesses().contains_key(access_token@),
            final(self).accesses().remove(access_token@) == old(self).accesses().remove(access_token@),
            final(self).accesses()[access_token@]@ == (
                access_token@,
                client_id@,
                user_id@,
                string_views(scopes@),
                (now + ACCESS_TOKEN_TTL) as i64,
            ),
            r.access_token@ == access_token@,
            r.token_type@ == "Bearer"@,
            r.expires_in == ACCESS_TOKEN_TTL,
            (r.refresh_token matches Some(t) && t@ == refresh_token@),
            (r.scope matches Some(s) && s@ == joined(string_views(scopes@), " "@)),
            r.id_token is None,
    {
        let scope = join_strings(&scopes, " ");
        let refresh_record = RefreshToken {
            token: refresh_token.clone(),
            client_id: client_id.clone(),
            user_id: user_id.clone(),
            scopes: copy_strings(&scopes),
            expires_at: Some(now + REFRESH_TOKEN_TTL),
        };
        let access_record = AccessToken {
            token: access_token.clone(),
            client_id,
            user_id,
            scopes,
            expires_at: now + ACCESS_TOKEN_TTL,
        };
        self.refresh_tokens.insert(refresh_record);
        self.access_tokens.insert(access_record);
        proof {
            assert(self.refreshes().remove(refresh_token@) =~= old(self).refreshes().remove(refresh_token@));
            assert(self.accesses().remove(access_token@) =~= old(self).accesses().remove(access_token@));
        }
        TokenResponse {
            access_token,
            token_type: owned("Bearer"),
            expires_in: ACCESS_TOKEN_TTL,
            refresh_token: Some(refresh_token),
            scope: Some(scope),
            id_token: None,
        }
    }

    /// An HS256 JWT for a user and client that expires `expires_in` seconds
    /// from now, with a fresh token id; a signing failure is an
    /// authorization error.
    /// Reads the system clock and draws from the operating system's random source; these panic only
    /// if the clock reads before 1970 or the random source fails.
    fn generate_jwt_token(&self, user_id: &str, client_id: &str, scopes: &Vec<String>, expires_in: i64) -> (r: Result<
        String,
        A2aError,
    >)
        requires
            0 <= expires_in <= ACCESS_TOKEN_TTL,
        ensures
            (r matches Err(e) ==> e is Auth),
            exists|now: i64, jti: Seq<char>|
                timestamp_in_range(now) && #[trigger] signed_token(
                    user_id@,
                    client_id@,
                    string_views(scopes@),
                    self.config.issuer@,
                    opt_text(self.config.audience),
                    expires_in,
                    now,
                    jti,
                    self.jwt_secret@,
                ) == match r {
                    Ok(t) => Ok(t@),
                    Err(A2aError::Auth(m)) => Err(m@),
                    Err(_) => Err(Seq::<char>::empty()),
                },
    {
        let now = unix_now();
        let jti = new_token_id();
        let signed = jwt_encode_hs256(
            user_id,
            client_id,
            scopes,
            self.config.issuer.as_str(),
            &self.config.audience,
            now + expires_in,
            now,
            jti.as_str(),
            self.jwt_secret.as_str(),
        );
        let r = match signed {
            Ok(token) => Ok(token),
            Err(e) => Err(A2aError::Auth(concat2("Failed to generate JWT: ", e.as_str()))),
        };
        proof {
            assert(signed_token(
                user_id@,
                client_id@,
                string_views(scopes@),
                self.config.issuer@,
                opt_text(self.config.audience),
                expires_in,
                now,
                jti@,
                self.jwt_secret@,
            ) == match r {
                Ok(t) => Ok(t@),
                Err(A2aError::Auth(m)) => Err(m@),
                Err(_) => Err(Seq::<char>::empty()),
            });
        }
        r
    }

    /// Sign an access token and issue a refresh token for a grant.
    /// Reads the system clock and draws from the operating system's random source; these panic only
    /// if the clock reads before 1970 or the random source fails.
    fn generate_tokens(&mut self, user_id: String, client_id: String, scopes: Vec<String>) -> (r: Result<
        TokenResponse,
        A2aError,
    >)
        requires
            old(self).wf(),
        ensures
            final(self).wf(),
            final(self).codes() == old(self).codes(),
            final(self).config_spec() == old(self).config_spec(),
            final(self).secret() == old(self).secret(),
            (r matches Ok(t) ==> old(self).issued(*final(self), t, user_id@, client_id@, string_views(scopes@))),
            r is Err ==> final(self).accesses() == old(self).accesses() && final(self).refreshes() == old(self).refreshes(),
            (r matches Err(e) ==> e is Auth),
            (r matches Err(A2aError::Auth(m)) ==> old(self).signing_failed(m@, user_id@, client_id@, string_views(scopes@))),
    {
        let jr = self.generate_jwt_token(user_id.as_str(), client_id.as_str(), &scopes, ACCESS_TOKEN_TTL);
        proof {
            let (n, j) = choose|n: i64, j: Seq<char>|
                timestamp_in_range(n) && #[trigger] signed_token(
                    user_id@,
                    client_id@,
                    string_views(scopes@),
                    self.config.issuer@,
                    opt_text(self.config.audience),
                    ACCESS_TOKEN_TTL,
                    n,
                    j,
                    self.jwt_secret@,
                ) == match jr {
                    Ok(t) => Ok(t@),
                    Err(A2aError::Auth(m)) => Err(m@),
                    Err(_) => Err(Seq::<char>::empty()),
                };
            assert(old(self).signing(user_id@, client_id@, string_views(scopes@), n, j) == match jr {
                Ok(t) => Ok(t@),
                Err(A2aError::Auth(m)) => Err(m@),
                Err(_) => Err(Seq::<char>::empty()),
            });
        }
        let access_token = match jr {
            Ok(t) => t,
            Err(e) => {
                return Err(e);
            },
        };
        let refresh_token = new_token_id();
        let now = unix_now();
        let ghost user = user_id@;
        let ghost client = client_id@;
        let ghost sc = string_views(scopes@);
        let t = self.store_tokens(access_token, refresh_token, now, user_id, client_id, scopes);
        proof {
            assert(stores_issue(
                old(self).accesses(),
                self.accesses(),
                old(self).refreshes(),
                self.refreshes(),
                t,
                user,
                client,
                sc,
                now,
            ));
        }
        Ok(t)
    }

    /// Exchange an authorization code for tokens.
    /// Reads the system clock and draws from the operating system's random source; these panic only
    /// if the clock reads before 1970 or the random source fails.
    pub fn exchange_authorization_code(&mut self, request: TokenRequest) -> (r: Result<TokenResponse, A2aError>)
        requires
            old(self).wf(),
        ensures
            final(self).wf(),
            match request.code {
                Some(c) => final(self).codes() == old(self).codes().remove(c@),
                None => final(self).codes() == old(self).codes(),
            },
            final(self).config_spec() == old(self).config_spec(),
            final(self).secret() == old(self).secret(),
            exists|now: i64| {
                &&& timestamp_in_range(now)
                &&& match #[trigger] redeem_error(old(self).codes(), request, now) {
                    Some(m) => auth_error(r, m) && final(self).accesses() == old(self).accesses()
                        && final(self).refreshes() == old(self).refreshes(),
                    None => {
                        let g = old(self).codes()[request.code->0@];
                        match r {
                            Ok(t) => old(self).issued(*final(self), t, g.user_id@, g.client_id@, string_views(g.scopes@)),
                            Err(A2aError::Auth(m)) => old(self).signing_failed(
                                m@,
                                g.user_id@,
                                g.client_id@,
                                string_views(g.scopes@),
                            ) && final(self).accesses() == old(self).accesses() && final(self).refreshes() == old(
                                self,
                            ).refreshes(),
                            Err(_) => false,
                        }
                    },
                }
            },
    {
        let now = unix_now();
        let r = match self.redeem_code(&request, now) {
            Err(e) => Err(e),
            Ok(grant) => {
                let ghost mid = *self;
                let ghost g = grant;
                let t = self.generate_tokens(grant.user_id, grant.client_id, grant.scopes);
                proof {
                    assert(mid.accesses() == old(self).accesses());
                    assert(mid.refreshes() == old(self).refreshes());
                    if t is Ok {
                        let x = t->Ok_0;
                        let (u, c, sc) = (g.user_id@, g.client_id@, string_views(g.scopes@));
                        assert(mid.issued(*self, x, u, c, sc));
                        let n1 = choose|n: i64|
                            timestamp_in_range(n) && #[trigger] stores_issue(
                                mid.accesses(),
                                self.accesses(),
                                mid.refreshes(),
                                self.refreshes(),
                                x,
                                u,
                                c,
                                sc,
                                n,
                            );
                        assert(stores_issue(old(self).accesses(), self.accesses(), old(self).refreshes(), self.refreshes(), x, u, c, sc, n1));
                        let (n2, j2) = choose|n: i64, j: Seq<char>|
                            timestamp_in_range(n) && #[trigger] mid.signing(u, c, sc, n, j) == Ok::<Seq<char>, Seq<char>>(x.access_token@);
                        assert(old(self).signing(u, c, sc, n2, j2) == Ok::<Seq<char>, Seq<char>>(x.access_token@));
                        assert(old(self).issued(*self, x, u, c, sc));
                    }
                    if t is Err && t->Err_0 is Auth {
                        let m = t->Err_0->Auth_0;
                        let (u, c, sc) = (g.user_id@, g.client_id@, string_views(g.scopes@));
                        assert(mid.signing_failed(m@, u, c, sc));
                        let (n2, j2) = choose|n: i64, j: Seq<char>|
                            timestamp_in_range(n) && #[trigger] mid.signing(u, c, sc, n, j) == Err::<Seq<char>, Seq<char>>(m@);
                        assert(old(self).signing(u, c, sc, n2, j2) == Err::<Seq<char>, Seq<char>>(m@));
                        assert(old(self).signing_failed(m@, u, c, sc));
                    }
                }
                t
            },
        };
        assert(match redeem_error(old(self).codes(), request, now) {
            Some(m) => auth_error(r, m) && self.accesses() == old(self).accesses() && self.refreshes() == old(self).refreshes(),
            None => {
                let g = old(self).codes()[request.code->0@];
                match r {
                    Ok(t) => old(self).issued(*self, t, g.user_id@, g.client_id@, string_views(g.scopes@)),
                    Err(A2aError::Auth(m)) => old(self).signing_failed(m@, g.user_id@, g.client_id@, string_views(g.scopes@))
                        && self.accesses() == old(self).accesses() && self.refreshes() == old(self).refreshes(),
                    Err(_) => false,
                }
            },
        });
        r
    }

    /// Use a refresh token for a new pair of tokens. The refresh token
    /// stays valid.
    /// Reads the system clock and draws from the operating system's random source; these panic only
    /// if the clock reads before 1970 or the random source fails.
    pub fn refresh_access_token(&mut self, request: TokenRequest) -> (r: Result<TokenResponse, A2aError>)
        requires
            old(self).wf(),
        ensures
            final(self).wf(),
            final(self).codes() == old(self).codes(),
            final(self).config_spec() == old(self).config_spec(),
            final(self).secret() == old(self).secret(),
            exists|now: i64| {
                &&& timestamp_in_range(now)
                &&& match #[trigger] refresh_error(old(self).refreshes(), request, now) {
                    Some(m) => auth_error(r, m) && final(self).accesses() == old(self).accesses()
                        && final(self).refreshes() == old(self).refreshes(),
                    None => {
                        let g = old(self).refreshes()[request.refresh_token->0@];
                        match r {
                            Ok(t) => old(self).issued(*final(self), t, g.user_id@, g.client_id@, string_views(g.scopes@)),
                            Err(A2aError::Auth(m)) => old(self).signing_failed(
                                m@,
                                g.user_id@,
                                g.client_id@,
                                string_views(g.scopes@),
                            ) && final(self).accesses() == old(self).accesses() && final(self).refreshes() == old(
                                self,
                            ).refreshes(),
                            Err(_) => false,
                        }
                    },
                }
            },
    {
        let now = unix_now();
        let r = match self.refresh_grant(&request, now) {
            Err(e) => Err(e),
            Ok((user_id, client_id, scopes)) => self.generate_tokens(user_id, client_id, scopes),
        };
        assert(match refresh_error(old(self).refreshes(), request, now) {
            Some(m) => auth_error(r, m) && self.accesses() == old(self).accesses() && self.refreshes() == old(self).refreshes(),
            None => {
                let g = old(self).refreshes()[request.refresh_token->0@];
                match r {
                    Ok(t) => old(self).issued(*self, t, g.user_id@, g.client_id@, string_views(g.scopes@)),
                    Err(A2aError::Auth(m)) => old(self).signing_failed(m@, g.user_id@, g.client_id@, string_views(g.scopes@))
                        && self.accesses() == old(self).accesses() && self.refreshes() == old(self).refreshes(),
                    Err(_) => false,
                }
            },
        });
        r
    }

    /// Revoke an access token, or else a refresh token, by its text.
    pub fn revoke_token(&mut self, token: &str) -> (r: Result<(), A2aError>)
        requires
            old(self).wf(),
        ensures
            final(self).wf(),
            final(self).codes() == old(self).codes(),
            old(self).accesses().contains_key(token@) ==> r is Ok && final(self).accesses() == old(self).accesses().remove(
                token@,
            ) && final(self).refreshes() == old(self).refreshes(),
            !old(self).accesses().contains_key(token@) && old(self).refreshes().contains_key(token@) ==> r is Ok
                && final(self).accesses() == old(self).accesses() && final(self).refreshes() == old(
                self,
            ).refreshes().remove(token@),
            !old(self).accesses().contains_key(token@) && !old(self).refreshes().contains_key(token@) ==> auth_error(
                r,
                "Token not found"@,
            ) && final(self).accesses() == old(self).accesses() && final(self).refreshes() == old(self).refreshes(),
    {
        if self.access_tokens.remove(token).is_some() {
            return Ok(());
        }
        if self.refresh_tokens.remove(token).is_some() {
            return Ok(());
        }
        Err(A2aError::Auth(owned("Token not found")))
    }

    /// The access token record at `now`, if the token is known and not expired.
    pub fn access_token_at(&self, token: &str, now: i64) -> (r: Result<AccessToken, A2aError>)
        requires
            self.wf(),
        ensures
            !self.accesses().contains_key(token@) ==> auth_error(r, "Invalid access token"@),
            self.accesses().contains_key(token@) && self.accesses()[token@].expires_at < now ==> auth_error(
                r,
                "Access token expired"@,
            ),
            self.accesses().contains_key(token@) && self.accesses()[token@].expires_at >= now ==> (r matches Ok(t)
                && t@ == self.accesses()[token@]@),
    {
        match self.access_tokens.get(token) {
            None => Err(A2aError::Auth(owned("Invalid access token"))),
            Some(data) => {
                if data.expires_at < now {
                    Err(A2aError::Auth(owned("Access token expired")))
                } else {
                    Ok(data.copied())
                }
            },
        }
    }

    /// Validate an access token now.
    /// Reads the system clock, which panics only if it reads before 1970.
    pub fn validate_access_token(&self, token: &str) -> (r: Result<AccessToken, A2aError>)
        requires
            self.wf(),
        ensures
            !self.accesses().contains_key(token@) ==> auth_error(r, "Invalid access token"@),
            (r matches Ok(t) ==> self.accesses().contains_key(token@) && t@ == self.accesses()[token@]@),
    {
        let now = unix_now();
        self.access_token_at(token, now)
    }

    /// The authorization URL for `state`, given the URL-encoded redirect URI
    /// and scope list.
    pub fn compose_authorization_url(&self, encoded_redirect: &str, encoded_scope: &str, state: &str) -> (r: String)
        ensures
            r@ == self.config_spec().authorization_endpoint@ + "?response_type=code&client_id="@
                + self.config_spec().client_id@ + "&redirect_uri="@ + encoded_redirect@ + "&scope="@ + encoded_scope@
                + "&state="@ + state@,
    {
        let r = concat2(self.config.authorization_endpoint.as_str(), "?response_type=code&client_id=");
        let r = r.concat(self.config.client_id.as_str());
        let r = r.concat("&redirect_uri=");
        let r = r.concat(encoded_redirect);
        let r = r.concat("&scope=");
        let r = r.concat(encoded_scope);
        let r = r.concat("&state=");
        r.concat(state)
    }

    /// The authorization URL a client is sent to.
    pub fn get_authorization_url(&self, state: &str) -> (r: String)
        ensures
            r@ == self.config_spec().authorization_endpoint@ + "?response_type=code&client_id="@
                + self.config_spec().client_id@ + "&redirect_uri="@ + url_encoded(self.config_spec().redirect_uri@)
                + "&scope="@ + url_encoded(joined(string_views(self.config_spec().scopes@), " "@)) + "&state="@ + state@,
    {
        let redirect = url_encode(self.config.redirect_uri.as_str());
        let scopes = join_strings(&self.config.scopes, " ");
        let scope = url_encode(scopes.as_str());
        self.compose_authorization_url(redirect.as_str(), scope.as_str(), state)
    }
}

} // verus!
