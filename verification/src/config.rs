use vstd::prelude::*;

verus! {

/// The process-wide configuration the core consumes, constructed once at
/// startup from the environment and handed by reference into every component.
pub struct Config {
    /// OAuth2 client id registered with the identity provider.
    pub client_id: u64,
    /// OAuth2 client secret.
    pub client_secret: String,
    /// Secret the session credentials are signed with.
    pub signing_secret: String,
    /// Shared secret a trusted backend service presents in its headers.
    pub service_secret: String,
    /// Host the session cookie is scoped to.
    pub base_domain: String,
    /// Whether the base origin is served over HTTPS.
    pub https: bool,
    /// The registered OAuth2 redirect URI (base origin plus callback path).
    pub redirect_uri: String,
}

impl Config {
    /// Malformed configuration is fatal at startup, never per-request: the
    /// redirect URI must be plain ASCII so it can stand inside a query string.
    pub open spec fn wf(&self) -> bool {
        vstd::utf8::is_ascii_chars(self.redirect_uri@)
    }
}

} // verus!
