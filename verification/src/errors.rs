use vstd::prelude::*;

verus! {

/// The error taxonomy of the authentication core. Every failure a component
/// can surface is one of these kinds; upstream-specific detail never enters
/// the core.
#[derive(Clone, Copy, Debug, PartialEq, Eq, Structural)]
pub enum AuthError {
    /// The identity provider granted a scope set that misses a required scope.
    InvalidScope,
    /// The identity provider or the network failed.
    UpstreamError,
    /// The shared cache could not be reached.
    CacheError,
    /// The session credential's signature or encoding is invalid.
    SignatureInvalid,
    /// The session credential has passed its lifetime, or the provider no
    /// longer accepts the embedded token.
    CredentialExpired,
    /// The resolved account id is on the ban list.
    Banned,
    /// Neither a session cookie nor a service header was presented.
    MissingCredential,
    /// A service-header request presented a wrong shared secret or a
    /// malformed identity.
    ServiceSecretMismatch,
    /// A service-header request named an account with no cached access token.
    NoCachedCredential,
}

/// The HTTP status class a surfaced error maps to at the route layer.
#[derive(Clone, Copy, Debug, PartialEq, Eq, Structural)]
pub enum HttpClass {
    BadRequest,
    Unauthorized,
    Forbidden,
    InternalError,
}

/// Maps each error kind to the status class the route layer must answer with.
pub fn http_class(e: &AuthError) -> (r: HttpClass)
    ensures
        r == HttpClass::BadRequest <==> (e == AuthError::InvalidScope
            || e == AuthError::NoCachedCredential),
        r == HttpClass::Unauthorized <==> (e == AuthError::SignatureInvalid
            || e == AuthError::CredentialExpired || e == AuthError::MissingCredential
            || e == AuthError::ServiceSecretMismatch),
        r == HttpClass::Forbidden <==> e == AuthError::Banned,
        r == HttpClass::InternalError <==> (e == AuthError::UpstreamError
            || e == AuthError::CacheError),
{
    match e {
        AuthError::InvalidScope => HttpClass::BadRequest,
        AuthError::NoCachedCredential => HttpClass::BadRequest,
        AuthError::SignatureInvalid => HttpClass::Unauthorized,
        AuthError::CredentialExpired => HttpClass::Unauthorized,
        AuthError::MissingCredential => HttpClass::Unauthorized,
        AuthError::ServiceSecretMismatch => HttpClass::Unauthorized,
        AuthError::Banned => HttpClass::Forbidden,
        AuthError::UpstreamError => HttpClass::InternalError,
        AuthError::CacheError => HttpClass::InternalError,
    }
}

} // verus!
