//! Server configuration: the adapter that turns service results into
//! responses, the TLS-capable server builder and the HTTP/3 server.
use vstd::prelude::*;
use crate::http::cors::CorsConfig;

verus! {

/// Wraps a request service; answers carry the CORS headers of
/// `cors_config` when one is set.
#[derive(Debug)]
pub struct BodyAdapter<S> {
    inner: S,
    cors_config: Option<CorsConfig>,
}

impl<S> BodyAdapter<S> {
    pub closed spec fn service(&self) -> S {
        self.inner
    }

    pub closed spec fn cors(&self) -> Option<CorsConfig> {
        self.cors_config
    }

    /// An adapter around `service`, without CORS.
    pub fn new(service: S) -> (r: Self)
        ensures
            r.service() == service,
            r.cors() is None,
    {
        BodyAdapter { inner: service, cors_config: None }
    }

    /// The same adapter with `cors_config` in place of its CORS settings.
    pub fn with_cors(self, cors_config: Option<CorsConfig>) -> (r: Self)
        ensures
            r.service() == self.service(),
            r.cors() == cors_config,
    {
        BodyAdapter { inner: self.inner, cors_config }
    }

    /// The wrapped service.
    pub fn inner(&self) -> (r: &S)
        ensures
            *r == self.service(),
    {
        &self.inner
    }

    /// The CORS settings applied to every answer.
    pub fn cors_config(&self) -> (r: &Option<CorsConfig>)
        ensures
            *r == self.cors(),
    {
        &self.cors_config
    }
}

/// Where the certificate chain and the private key of a TLS server are.
#[derive(Debug)]
pub struct TlsConfig {
    pub cert_path: String,
    pub key_path: String,
}

impl TlsConfig {
    pub fn new(cert_path: &str, key_path: &str) -> (r: TlsConfig)
        ensures
            r.cert_path@ == cert_path@,
            r.key_path@ == key_path@,
    {
        TlsConfig {
            cert_path: crate::text::owned(cert_path),
            key_path: crate::text::owned(key_path),
        }
    }
}

/// The HTTP protocol that a TLS connection is served with.
#[derive(Debug, Clone, Copy, PartialEq, Eq, Structural)]
pub enum HttpVersion {
    Http1,
    Http2,
    /// HTTP/1.1 unless the client upgrades.
    Auto,
}

impl HttpVersion {
    /// Whether a TLS connection is served with the HTTP/2 protocol; `Auto`
    /// starts with HTTP/1.1.
    pub fn serves_http2(self) -> (r: bool)
        ensures
            r == (self == HttpVersion::Http2),
    {
        match self {
            HttpVersion::Http2 => true,
            _ => false,
        }
    }
}

/// A server that listens over TLS once TLS is configured, plain HTTP
/// otherwise.
#[derive(Debug)]
pub struct SecureServer<S> {
    service: S,
    tls_config: Option<TlsConfig>,
    http_version: HttpVersion,
}

impl<S> SecureServer<S> {
    pub closed spec fn spec_service(&self) -> S {
        self.service
    }

    pub closed spec fn tls(&self) -> Option<TlsConfig> {
        self.tls_config
    }

    pub closed spec fn version(&self) -> HttpVersion {
        self.http_version
    }

    /// A plain HTTP server around `service` that negotiates the protocol.
    pub fn new(service: S) -> (r: Self)
        ensures
            r.spec_service() == service,
            r.tls() is None,
            r.version() == HttpVersion::Auto,
    {
        SecureServer { service, tls_config: None, http_version: HttpVersion::Auto }
    }

    /// The same server, listening over TLS with `tls_config`.
    pub fn with_tls(self, tls_config: TlsConfig) -> (r: Self)
        ensures
            r.spec_service() == self.spec_service(),
            r.tls() == Some(tls_config),
            r.version() == self.version(),
    {
        SecureServer { service: self.service, tls_config: Some(tls_config), http_version: self.http_version }
    }

    /// The same server with `version` as its protocol.
    pub fn with_http_version(self, version: HttpVersion) -> (r: Self)
        ensures
            r.spec_service() == self.spec_service(),
            r.tls() == self.tls(),
            r.version() == version,
    {
        SecureServer { service: self.service, tls_config: self.tls_config, http_version: version }
    }

    /// Whether the server listens over TLS.
    pub fn is_https(&self) -> (r: bool)
        ensures
            r == self.tls() is Some,
    {
        self.tls_config.is_some()
    }

    /// The configured protocol.
    pub fn http_version(&self) -> (r: HttpVersion)
        ensures
            r == self.version(),
    {
        self.http_version
    }

    /// The TLS settings, when TLS is on.
    pub fn tls_config(&self) -> (r: &Option<TlsConfig>)
        ensures
            *r == self.tls(),
    {
        &self.tls_config
    }

    /// The served service.
    pub fn service(&self) -> (r: &S)
        ensures
            *r == self.spec_service(),
    {
        &self.service
    }

    /// Takes the server apart into its service, TLS settings and protocol.
    pub fn into_parts(self) -> (r: (S, Option<TlsConfig>, HttpVersion))
        ensures
            r == (self.spec_service(), self.tls(), self.version()),
    {
        (self.service, self.tls_config, self.http_version)
    }
}

/// An HTTP/3 (QUIC) server around a request service.
#[derive(Debug)]
pub struct Http3Server<S> {
    service: S,
}

impl<S> Http3Server<S> {
    pub closed spec fn spec_service(&self) -> S {
        self.service
    }

    pub fn new(service: S) -> (r: Self)
        ensures
            r.spec_service() == service,
    {
        Http3Server { service }
    }

    /// The served service.
    pub fn service(&self) -> (r: &S)
        ensures
            *r == self.spec_service(),
    {
        &self.service
    }
}

} // verus!
