//! Transport security settings: TLS, authentication and rate limits, with a
//! builder that refuses an incomplete client-certificate configuration.

use vstd::prelude::*;

use crate::error::A2aError;
use crate::strings::{concat2, owned};

verus! {

/// Whether a file exists at `path` (`std::path::Path::exists`). The answer
/// depends on the file system, so nothing is stated of it; callers state
/// which paths they asked about.
#[verifier::external_body]
fn path_exists(path: &String) -> (r: bool) {
    std::path::Path::new(path.as_str()).exists()
}

/// Whether `answer` is what the file system was asked for `path`: a possible
/// result of [`path_exists`] on that path.
pub closed spec fn answered_for(path: String, answer: bool) -> bool {
    call_ensures(path_exists, (&path,), answer)
}

#[derive(Debug, Clone, Copy, PartialEq, Eq, Structural)]
pub enum TlsVersion {
    Tls10,
    Tls11,
    Tls12,
    Tls13,
}

pub open spec fn tls_version_name(v: TlsVersion) -> Seq<char> {
    match v {
        TlsVersion::Tls10 => "TLS 1.0"@,
        TlsVersion::Tls11 => "TLS 1.1"@,
        TlsVersion::Tls12 => "TLS 1.2"@,
        TlsVersion::Tls13 => "TLS 1.3"@,
    }
}

impl TlsVersion {
    pub fn as_str(&self) -> (s: &'static str)
        ensures
            s@ == tls_version_name(*self),
    {
        match self {
            TlsVersion::Tls10 => "TLS 1.0",
            TlsVersion::Tls11 => "TLS 1.1",
            TlsVersion::Tls12 => "TLS 1.2",
            TlsVersion::Tls13 => "TLS 1.3",
        }
    }
}

#[derive(Debug, Clone)]
pub struct TlsSettings {
    pub enabled: bool,
    pub verify_certificates: bool,
    pub minimum_tls_version: TlsVersion,
    pub client_cert_path: Option<String>,
    pub client_key_path: Option<String>,
    pub ca_cert_path: Option<String>,
}

impl Default for TlsSettings {
    fn default() -> (s: Self)
        ensures
            s.enabled,
            s.verify_certificates,
            s.minimum_tls_version == TlsVersion::Tls12,
            s.client_cert_path.is_none(),
            s.client_key_path.is_none(),
            s.ca_cert_path.is_none(),
    {
        TlsSettings {
            enabled: true,
            verify_certificates: true,
            minimum_tls_version: TlsVersion::Tls12,
            client_cert_path: None,
            client_key_path: None,
            ca_cert_path: None,
        }
    }
}

#[derive(Debug, Clone, Copy, PartialEq, Eq, Structural)]
pub enum AuthMethod {
    NoAuth,
    Bearer,
    ApiKey,
    MutualTls,
}

#[derive(Debug, Clone)]
pub struct AuthSettings {
    pub method: AuthMethod,
    pub token: Option<String>,
    pub api_key: Option<String>,
}

impl Default for AuthSettings {
    fn default() -> (s: Self)
        ensures
            s.method == AuthMethod::NoAuth,
            s.token.is_none(),
            s.api_key.is_none(),
    {
        AuthSettings { method: AuthMethod::NoAuth, token: None, api_key: None }
    }
}

#[derive(Debug, Clone)]
pub struct RateLimitSettings {
    pub enabled: bool,
    pub requests_per_second: u32,
    pub burst_size: u32,
}

impl Default for RateLimitSettings {
    fn default() -> (s: Self)
        ensures
            s.enabled,
            s.requests_per_second == 100,
            s.burst_size == 200,
    {
        RateLimitSettings { enabled: true, requests_per_second: 100, burst_size: 200 }
    }
}

#[derive(Debug, Clone)]
pub struct SecurityConfig {
    pub tls: TlsSettings,
    pub authentication: AuthSettings,
    pub rate_limiting: RateLimitSettings,
}

impl Default for SecurityConfig {
    fn default() -> (s: Self)
        ensures
            s.tls.enabled,
            s.tls.verify_certificates,
            s.tls.minimum_tls_version == TlsVersion::Tls12,
            s.tls.client_cert_path.is_none(),
            s.tls.client_key_path.is_none(),
            s.tls.ca_cert_path.is_none(),
            s.authentication.method == AuthMethod::NoAuth,
            s.authentication.token.is_none(),
            s.authentication.api_key.is_none(),
            s.rate_limiting.enabled,
            s.rate_limiting.requests_per_second == 100,
            s.rate_limiting.burst_size == 200,
    {
        SecurityConfig {
            tls: TlsSettings::default(),
            authentication: AuthSettings::default(),
            rate_limiting: RateLimitSettings::default(),
        }
    }
}

/// The PEM texts read from the configured certificate files.
#[derive(Debug, Clone, PartialEq, Eq)]
pub struct CertificateData {
    pub client_cert: Option<String>,
    pub client_key: Option<String>,
    pub ca_cert: Option<String>,
}

impl Default for CertificateData {
    fn default() -> (d: Self)
        ensures
            d.client_cert is None,
            d.client_key is None,
            d.ca_cert is None,
    {
        CertificateData { client_cert: None, client_key: None, ca_cert: None }
    }
}

/// The client certificate is configured without its key while TLS is on.
pub open spec fn missing_client_key(c: SecurityConfig) -> bool {
    c.tls.enabled && c.tls.client_cert_path.is_some() && c.tls.client_key_path.is_none()
}

/// The validation failure of a configuration, given whether its client
/// certificate and key files exist; `None` when it is valid.
pub open spec fn validation_error(c: SecurityConfig, cert_exists: bool, key_exists: bool) -> Option<Seq<char>> {
    if missing_client_key(c) {
        Some("Client certificate provided but client key is missing"@)
    } else if c.tls.client_cert_path.is_some() && !cert_exists {
        Some("Client certificate file not found: "@ + c.tls.client_cert_path.unwrap()@)
    } else if c.tls.client_key_path.is_some() && !key_exists {
        Some("Client key file not found: "@ + c.tls.client_key_path.unwrap()@)
    } else {
        None
    }
}

/// Whether a validation result reports exactly the given failure.
pub open spec fn reports(r: Result<(), A2aError>, failure: Option<Seq<char>>) -> bool {
    match failure {
        None => r is Ok,
        Some(m) => r matches Err(A2aError::Tls(e)) && e@ == m,
    }
}

impl SecurityConfig {
    pub fn builder() -> (b: SecurityConfigBuilder)
        ensures
            b.current().tls.enabled,
            b.current().tls.verify_certificates,
            b.current().tls.minimum_tls_version == TlsVersion::Tls12,
            b.current().tls.client_cert_path.is_none(),
            b.current().tls.client_key_path.is_none(),
            b.current().tls.ca_cert_path.is_none(),
            b.current().authentication.method == AuthMethod::NoAuth,
            b.current().authentication.token.is_none(),
            b.current().authentication.api_key.is_none(),
            b.current().rate_limiting.enabled,
            b.current().rate_limiting.requests_per_second == 100,
            b.current().rate_limiting.burst_size == 200,
    {
        SecurityConfigBuilder { config: SecurityConfig::default() }
    }

    /// Validation against known answers to whether the files exist.
    pub fn validate_with(&self, cert_exists: bool, key_exists: bool) -> (r: Result<(), A2aError>)
        ensures
            reports(r, validation_error(*self, cert_exists, key_exists)),
    {
        if self.tls.enabled && self.tls.client_cert_path.is_some() && self.tls.client_key_path.is_none() {
            return Err(A2aError::Tls(owned("Client certificate provided but client key is missing")));
        }
        if let Some(cert_path) = &self.tls.client_cert_path {
            if !cert_exists {
                return Err(A2aError::Tls(concat2("Client certificate file not found: ", cert_path.as_str())));
            }
        }
        if let Some(key_path) = &self.tls.client_key_path {
            if !key_exists {
                return Err(A2aError::Tls(concat2("Client key file not found: ", key_path.as_str())));
            }
        }
        Ok(())
    }

    /// A client certificate needs its key, and both files must exist. The
    /// file system is asked only for the paths that are configured: the
    /// certificate's unless the key is missing, then the key's unless the
    /// certificate file is missing. The result reports the answers given
    /// for exactly those paths.
    pub fn validate(&self) -> (r: Result<(), A2aError>)
        ensures
            exists|cert_exists: bool, key_exists: bool|
                {
                    &&& reports(r, #[trigger] validation_error(*self, cert_exists, key_exists))
                    &&& (!missing_client_key(*self) && self.tls.client_cert_path is Some) ==> answered_for(self.tls.client_cert_path->0, cert_exists)
                    &&& (!missing_client_key(*self) && (self.tls.client_cert_path is None || cert_exists)
                        && self.tls.client_key_path is Some) ==> answered_for(self.tls.client_key_path->0, key_exists)
                },
    {
        if self.tls.enabled && self.tls.client_cert_path.is_some() && self.tls.client_key_path.is_none() {
            let r = self.validate_with(true, true);
            assert(reports(r, validation_error(*self, true, true)));
            return r;
        }
        let cert_exists = match &self.tls.client_cert_path {
            Some(p) => path_exists(p),
            None => true,
        };
        if !cert_exists {
            let r = self.validate_with(false, true);
            assert(reports(r, validation_error(*self, false, true)));
            return r;
        }
        let key_exists = match &self.tls.client_key_path {
            Some(p) => path_exists(p),
            None => true,
        };
        let r = self.validate_with(true, key_exists);
        assert(reports(r, validation_error(*self, true, key_exists)));
        r
    }
}

#[derive(Debug, Clone)]
pub struct SecurityConfigBuilder {
    config: SecurityConfig,
}

impl SecurityConfigBuilder {
    /// The configuration built so far.
    pub closed spec fn current(&self) -> SecurityConfig {
        self.config
    }

    pub fn tls_enabled(self, enabled: bool) -> (b: Self)
        ensures
            b.current() == (SecurityConfig {
                tls: TlsSettings { enabled, ..self.current().tls },
                ..self.current()
            }),
    {
        let mut b = self;
        b.config.tls.enabled = enabled;
        b
    }

    pub fn verify_certificates(self, verify: bool) -> (b: Self)
        ensures
            b.current() == (SecurityConfig {
                tls: TlsSettings { verify_certificates: verify, ..self.current().tls },
                ..self.current()
            }),
    {
        let mut b = self;
        b.config.tls.verify_certificates = verify;
        b
    }

    pub fn minimum_tls_version(self, version: TlsVersion) -> (b: Self)
        ensures
            b.current() == (SecurityConfig {
                tls: TlsSettings { minimum_tls_version: version, ..self.current().tls },
                ..self.current()
            }),
    {
        let mut b = self;
        b.config.tls.minimum_tls_version = version;
        b
    }

    pub fn client_certificates(self, cert_path: String, key_path: String) -> (b: Self)
        ensures
            b.current() == (SecurityConfig {
                tls: TlsSettings {
                    client_cert_path: Some(cert_path),
                    client_key_path: Some(key_path),
                    ..self.current().tls
                },
                ..self.current()
            }),
    {
        let mut b = self;
        b.config.tls.client_cert_path = Some(cert_path);
        b.config.tls.client_key_path = Some(key_path);
        b
    }

    pub fn ca_certificate(self, ca_path: String) -> (b: Self)
        ensures
            b.current() == (SecurityConfig {
                tls: TlsSettings { ca_cert_path: Some(ca_path), ..self.current().tls },
                ..self.current()
            }),
    {
        let mut b = self;
        b.config.tls.ca_cert_path = Some(ca_path);
        b
    }

    pub fn auth_method(self, method: AuthMethod) -> (b: Self)
        ensures
            b.current() == (SecurityConfig {
                authentication: AuthSettings { method, ..self.current().authentication },
                ..self.current()
            }),
    {
        let mut b = self;
        b.config.authentication.method = method;
        b
    }

    /// Bearer authentication with the given token.
    pub fn bearer_token(self, token: String) -> (b: Self)
        ensures
            b.current() == (SecurityConfig {
                authentication: AuthSettings {
                    method: AuthMethod::Bearer,
                    token: Some(token),
                    ..self.current().authentication
                },
                ..self.current()
            }),
    {
        let mut b = self;
        b.config.authentication.method = AuthMethod::Bearer;
        b.config.authentication.token = Some(token);
        b
    }

    /// API-key authentication with the given key.
    pub fn api_key(self, key: String) -> (b: Self)
        ensures
            b.current() == (SecurityConfig {
                authentication: AuthSettings {
                    method: AuthMethod::ApiKey,
                    api_key: Some(key),
                    ..self.current().authentication
                },
                ..self.current()
            }),
    {
        let mut b = self;
        b.config.authentication.method = AuthMethod::ApiKey;
        b.config.authentication.api_key = Some(key);
        b
    }

    pub fn rate_limiting(self, enabled: bool, rps: u32, burst: u32) -> (b: Self)
        ensures
            b.current() == (SecurityConfig {
                rate_limiting: RateLimitSettings { enabled, requests_per_second: rps, burst_size: burst },
                ..self.current()
            }),
    {
        let mut b = self;
        b.config.rate_limiting = RateLimitSettings { enabled, requests_per_second: rps, burst_size: burst };
        b
    }

    /// The configuration, once it validates; the file system is asked as in
    /// [`SecurityConfig::validate`].
    pub fn build(self) -> (r: Result<SecurityConfig, A2aError>)
        ensures
            exists|cert_exists: bool, key_exists: bool|
                #![trigger validation_error(self.current(), cert_exists, key_exists)]
                {
                    let c = self.current();
                    &&& match validation_error(c, cert_exists, key_exists) {
                        None => r == Ok::<SecurityConfig, A2aError>(c),
                        Some(m) => r matches Err(A2aError::Tls(e)) && e@ == m,
                    }
                    &&& (!missing_client_key(c) && c.tls.client_cert_path is Some) ==> answered_for(
                        c.tls.client_cert_path->0,
                        cert_exists,
                    )
                    &&& (!missing_client_key(c) && (c.tls.client_cert_path is None || cert_exists)
                        && c.tls.client_key_path is Some) ==> answered_for(c.tls.client_key_path->0, key_exists)
                },
    {
        match self.config.validate() {
            Ok(()) => Ok(self.config),
            Err(e) => Err(e),
        }
    }
}

} // verus!
