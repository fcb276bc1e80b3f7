use crate::account::account_parsed;
use crate::account::account_repr;
use crate::account::decode_account;
use crate::account::encode_account;
use crate::account::Account;
use crate::account::User;
use crate::config::Config;
use crate::credential::remaining_lifetime;
use crate::credential::verify_credential;
use crate::credential::verify_outcome;
use crate::errors::AuthError;
use crate::keys::token_key;
use crate::keys::token_key_spec;
use crate::keys::user_token_key;
use crate::keys::user_token_key_spec;
use crate::keys::TOKEN_KEY_TTL;
use crate::text::dec_parsed;
use crate::text::parse_u64;
use vstd::prelude::*;

verus! {

/// The identity attributes a trusted backend caller asserts in its headers,
/// together with the shared secret it presents.
pub struct ServiceHeaders {
    pub secret: String,
    pub id: String,
    pub username: String,
    pub discriminator: String,
    pub avatar: String,
}

/// What the route layer hands the authenticator: the session cookie's value
/// if one came with the request, and the service headers if they did.
pub struct RequestInput {
    pub cookie: Option<String>,
    pub service: Option<ServiceHeaders>,
}

/// The outside work the caller must perform next on the machine's behalf.
pub enum AuthAction {
    /// Read this cache key.
    CacheGet(String),
    /// Write this cache key with this blob and time-to-live.
    CacheSet(String, String, u64),
    /// Ask the identity provider for the user of this bearer token.
    FetchUser(String),
    /// Ask the ban list whether this account id is a member.
    CheckBan(u64),
    /// The machine is done; no outside work is left.
    Finish,
}

/// What the outside work came back with.
pub enum AuthEvent {
    /// The cache read found this value, or nothing.
    Value(Option<String>),
    /// The cache write went through.
    Stored,
    /// The cache could not be reached.
    CacheFailed,
    /// The identity provider returned the token's user.
    ProviderUser(Account),
    /// The identity provider rejected the token as unauthorized.
    ProviderDenied,
    /// The identity provider or the network failed.
    ProviderFailed,
    /// Whether the account id is banned.
    BanStatus(bool),
}

/// A terminal answer: an authenticated identity, or a typed rejection that
/// may tell the caller to clear the session cookie.
pub enum AuthOutcome {
    Resolved(User),
    Rejected { error: AuthError, clear_cookie: bool },
}

/// Where the authenticator stands between two pieces of outside work.
pub enum AuthState {
    /// Cookie branch: waiting for the cached profile of the token.
    AwaitProfileCache { token: String, token_ttl: u64 },
    /// Cookie branch: cache miss; waiting for the provider's answer.
    AwaitProviderUser { token: String, token_ttl: u64 },
    /// Cookie branch: waiting for the profile write to be acknowledged.
    AwaitProfileStore { token: String, token_ttl: u64, account: Account },
    /// Cookie branch: waiting for the token-mapping write.
    AwaitTokenStore { token: String, account: Account },
    /// Cookie branch: waiting for the ban list's answer.
    AwaitBan { token: String, account: Account },
    /// Service branch: waiting for the cached token of the asserted id.
    AwaitServiceToken { account: Account },
    /// Terminal.
    Done(AuthOutcome),
}

pub open spec fn account_fields(a: Account, id: u64, disc: u32, un: Seq<char>, av: Seq<char>) -> bool {
    a.id == id && a.discriminator == disc && a.username@ == un && a.avatar@ == av
}

pub open spec fn account_like(a: Account, b: Account) -> bool {
    account_fields(a, b.id, b.discriminator, b.username@, b.avatar@)
}

/// Which events may answer which states: the caller performs exactly the
/// action the machine asked for and feeds its result back.
pub open spec fn step_expects(state: AuthState, event: AuthEvent) -> bool {
    match state {
        AuthState::AwaitProfileCache { .. } => event matches AuthEvent::Value(_) || event
            matches AuthEvent::CacheFailed,
        AuthState::AwaitProviderUser { .. } => event matches AuthEvent::ProviderUser(_) || event
            matches AuthEvent::ProviderDenied || event matches AuthEvent::ProviderFailed,
        AuthState::AwaitProfileStore { .. } => event matches AuthEvent::Stored || event
            matches AuthEvent::CacheFailed,
        AuthState::AwaitTokenStore { .. } => event matches AuthEvent::Stored || event
            matches AuthEvent::CacheFailed,
        AuthState::AwaitBan { .. } => event matches AuthEvent::BanStatus(_) || event
            matches AuthEvent::CacheFailed,
        AuthState::AwaitServiceToken { .. } => event matches AuthEvent::Value(_) || event
            matches AuthEvent::CacheFailed,
        AuthState::Done(_) => false,
    }
}

/// The transition relation of the authenticator: how one answered state moves
/// to the next state and the next piece of outside work.
pub open spec fn step_rel(
    pre: AuthState,
    event: AuthEvent,
    post: AuthState,
    action: AuthAction,
) -> bool {
    match (pre, event) {
        (AuthState::AwaitProfileCache { token, token_ttl }, AuthEvent::Value(found)) => match found {
            Some(blob) => match account_parsed(blob@) {
                // A cached profile resolves without touching the provider,
                // but the ban gate still runs on every request.
                Some((id, disc, un, av)) => {
                    &&& post matches AuthState::AwaitBan { token: t2, account }
                    &&& t2@ == token@
                    &&& account_fields(account, id, disc, un, av)
                    &&& action matches AuthAction::CheckBan(b)
                    &&& b == id
                },
                // A corrupt cache entry reads as a miss: the provider is
                // always authoritative.
                None => {
                    &&& post matches AuthState::AwaitProviderUser { token: t2, token_ttl: l2 }
                    &&& t2@ == token@
                    &&& l2 == token_ttl
                    &&& action matches AuthAction::FetchUser(b)
                    &&& b@ == token@
                },
            },
            None => {
                &&& post matches AuthState::AwaitProviderUser { token: t2, token_ttl: l2 }
                &&& t2@ == token@
                &&& l2 == token_ttl
                &&& action matches AuthAction::FetchUser(b)
                &&& b@ == token@
            },
        },
        (AuthState::AwaitProviderUser { token, token_ttl }, AuthEvent::ProviderUser(acc)) => {
            &&& post matches AuthState::AwaitProfileStore { token: t2, token_ttl: l2, account }
            &&& t2@ == token@
            &&& l2 == token_ttl
            &&& account_like(account, acc)
            &&& action matches AuthAction::CacheSet(k, v, ttl)
            &&& k@ == token_key_spec(token@)
            &&& v@ == account_repr(acc.id, acc.discriminator, acc.username@, acc.avatar@)
            &&& ttl == TOKEN_KEY_TTL
        },
        // The provider rejecting an apparently well-formed credential means
        // the token was revoked or expired upstream: the session is over and
        // the cookie must go.
        (AuthState::AwaitProviderUser { .. }, AuthEvent::ProviderDenied) => post
            == AuthState::Done(
            AuthOutcome::Rejected { error: AuthError::CredentialExpired, clear_cookie: true },
        ) && action is Finish,
        (AuthState::AwaitProviderUser { .. }, AuthEvent::ProviderFailed) => post
            == AuthState::Done(
            AuthOutcome::Rejected { error: AuthError::UpstreamError, clear_cookie: false },
        ) && action is Finish,
        (AuthState::AwaitProfileStore { token, token_ttl, account }, AuthEvent::Stored) => {
            &&& post matches AuthState::AwaitTokenStore { token: t2, account: a2 }
            &&& t2@ == token@
            &&& account_like(a2, account)
            &&& action matches AuthAction::CacheSet(k, v, ttl)
            &&& k@ == user_token_key_spec(account.id as nat)
            &&& v@ == token@
            &&& ttl == token_ttl
        },
        (AuthState::AwaitTokenStore { token, account }, AuthEvent::Stored) => {
            &&& post matches AuthState::AwaitBan { token: t2, account: a2 }
            &&& t2@ == token@
            &&& account_like(a2, account)
            &&& action matches AuthAction::CheckBan(b)
            &&& b == account.id
        },
        // The ban gate is the last stop of the cookie branch: a banned id is
        // rejected on every request, however valid its session.
        (AuthState::AwaitBan { token, account }, AuthEvent::BanStatus(banned)) => if banned {
            post == AuthState::Done(
                AuthOutcome::Rejected { error: AuthError::Banned, clear_cookie: false },
            ) && action is Finish
        } else {
            &&& post matches AuthState::Done(AuthOutcome::Resolved(user))
            &&& user.token@ == token@
            &&& account_like(user.user, account)
            &&& action is Finish
        },
        // The service branch resolves only from the cache: it can never mint
        // a new upstream token.
        (AuthState::AwaitServiceToken { account }, AuthEvent::Value(found)) => match found {
            Some(tok) => {
                &&& post matches AuthState::Done(AuthOutcome::Resolved(user))
                &&& user.token@ == tok@
                &&& account_like(user.user, account)
                &&& action is Finish
            },
            None => post == AuthState::Done(
                AuthOutcome::Rejected {
                    error: AuthError::NoCachedCredential,
                    clear_cookie: false,
                },
            ) && action is Finish,
        },
        (_, AuthEvent::CacheFailed) => post == AuthState::Done(
            AuthOutcome::Rejected { error: AuthError::CacheError, clear_cookie: false },
        ) && action is Finish,
        _ => false,
    }
}

/// Compares the presented shared secret with the configured one without
/// leaving early, so the comparison takes the same path whatever matches.
pub fn secret_matches(presented: &str, expected: &str) -> (r: bool)
    ensures
        r == (presented@ == expected@),
{
    let plen = presented.unicode_len();
    let elen = expected.unicode_len();
    let n = if plen < elen {
        plen
    } else {
        elen
    };
    let mut diff: bool = plen != elen;
    let mut i: usize = 0;
    while i < n
        invariant
            0 <= i <= n,
            n <= presented@.len(),
            n <= expected@.len(),
            plen == presented@.len(),
            elen == expected@.len(),
            n == if plen < elen {
                plen
            } else {
                elen
            },
            diff == (plen != elen || exists|m: int|
                0 <= m < i && presented@[m] != expected@[m]),
        decreases n - i,
    {
        let a = presented.get_char(i);
        let b = expected.get_char(i);
        if a != b {
            diff = true;
            assert(presented@[i as int] != expected@[i as int]);
        }
        i = i + 1;
    }
    if diff {
        proof {
            if plen == elen {
                let m = choose|m: int| 0 <= m < n && presented@[m] != expected@[m];
                assert(presented@[m] != expected@[m]);
            }
        }
        false
    } else {
        proof {
            assert(presented@ =~= expected@);
        }
        true
    }
}

/// Classifies an inbound request and starts the authenticator. The cookie
/// branch and the service branch are mutually exclusive; a present cookie
/// wins. No credential at all is rejected at once.
pub fn start_request(input: RequestInput, cfg: &Config, now: u64) -> (r: (AuthState, AuthAction))
    ensures
        match input.cookie {
            Some(v) => match verify_outcome(v@, cfg.signing_secret@, now) {
                Ok((issued_at, expires_at, token)) => {
                    &&& r.0 matches AuthState::AwaitProfileCache { token: t2, token_ttl }
                    &&& t2@ == token
                    &&& token_ttl == expires_at - now
                    &&& r.1 matches AuthAction::CacheGet(k)
                    &&& k@ == token_key_spec(token)
                },
                Err(e) => r.0 == AuthState::Done(
                    AuthOutcome::Rejected { error: e, clear_cookie: true },
                ) && r.1 is Finish,
            },
            None => match input.service {
                Some(h) => if h.secret@ != cfg.service_secret@ {
                    r.0 == AuthState::Done(
                        AuthOutcome::Rejected {
                            error: AuthError::ServiceSecretMismatch,
                            clear_cookie: false,
                        },
                    ) && r.1 is Finish
                } else {
                    match (dec_parsed(h.id@), dec_parsed(h.discriminator@)) {
                        (Some(id), Some(disc)) => if disc <= u32::MAX {
                            &&& r.0 matches AuthState::AwaitServiceToken { account }
                            &&& account_fields(account, id, disc as u32, h.username@, h.avatar@)
                            &&& r.1 matches AuthAction::CacheGet(k)
                            &&& k@ == user_token_key_spec(id as nat)
                        } else {
                            r.0 == AuthState::Done(
                                AuthOutcome::Rejected {
                                    error: AuthError::ServiceSecretMismatch,
                                    clear_cookie: false,
                                },
                            ) && r.1 is Finish
                        },
                        _ => r.0 == AuthState::Done(
                            AuthOutcome::Rejected {
                                error: AuthError::ServiceSecretMismatch,
                                clear_cookie: false,
                            },
                        ) && r.1 is Finish,
                    }
                },
                None => r.0 == AuthState::Done(
                    AuthOutcome::Rejected {
                        error: AuthError::MissingCredential,
                        clear_cookie: false,
                    },
                ) && r.1 is Finish,
            },
        },
{
    match input.cookie {
        Some(v) => {
            match verify_credential(v.as_str(), cfg.signing_secret.as_str(), now) {
                Ok(cred) => {
                    proof {
                        crate::credential::lemma_verify_exact(v@, cfg.signing_secret@, now);
                    }
                    let ttl = remaining_lifetime(&cred, now);
                    let key = token_key(cred.access_token.as_str());
                    (
                        AuthState::AwaitProfileCache { token: cred.access_token, token_ttl: ttl },
                        AuthAction::CacheGet(key),
                    )
                },
                Err(e) => (
                    AuthState::Done(AuthOutcome::Rejected { error: e, clear_cookie: true }),
                    AuthAction::Finish,
                ),
            }
        },
        None => {
            match input.service {
                Some(h) => {
                    if !secret_matches(h.secret.as_str(), cfg.service_secret.as_str()) {
                        return (
                            AuthState::Done(
                                AuthOutcome::Rejected {
                                    error: AuthError::ServiceSecretMismatch,
                                    clear_cookie: false,
                                },
                            ),
                            AuthAction::Finish,
                        );
                    }
                    let id = match parse_u64(h.id.as_str()) {
                        Some(v) => v,
                        None => {
                            return (
                                AuthState::Done(
                                    AuthOutcome::Rejected {
                                        error: AuthError::ServiceSecretMismatch,
                                        clear_cookie: false,
                                    },
                                ),
                                AuthAction::Finish,
                            );
                        },
                    };
                    let disc64 = match parse_u64(h.discriminator.as_str()) {
                        Some(v) => v,
                        None => {
                            return (
                                AuthState::Done(
                                    AuthOutcome::Rejected {
                                        error: AuthError::ServiceSecretMismatch,
                                        clear_cookie: false,
                                    },
                                ),
                                AuthAction::Finish,
                            );
                        },
                    };
                    if disc64 > u32::MAX as u64 {
                        return (
                            AuthState::Done(
                                AuthOutcome::Rejected {
                                    error: AuthError::ServiceSecretMismatch,
                                    clear_cookie: false,
                                },
                            ),
                            AuthAction::Finish,
                        );
                    }
                    let key = user_token_key(id);
                    (
                        AuthState::AwaitServiceToken {
                            account: Account {
                                id,
                                username: h.username,
                                discriminator: disc64 as u32,
                                avatar: h.avatar,
                            },
                        },
                        AuthAction::CacheGet(key),
                    )
                },
                None => (
                    AuthState::Done(
                        AuthOutcome::Rejected {
                            error: AuthError::MissingCredential,
                            clear_cookie: false,
                        },
                    ),
                    AuthAction::Finish,
                ),
            }
        },
    }
}

/// Advances the authenticator by one answered piece of outside work.
pub fn step_request(state: AuthState, event: AuthEvent) -> (r: (AuthState, AuthAction))
    requires
        step_expects(state, event),
    ensures
        step_rel(state, event, r.0, r.1),
{
    match (state, event) {
        (AuthState::AwaitProfileCache { token, token_ttl }, AuthEvent::Value(found)) => {
            match found {
                Some(blob) => {
                    match decode_account(blob.as_str()) {
                        Some(account) => {
                            let id = account.id;
                            (
                                AuthState::AwaitBan { token, account },
                                AuthAction::CheckBan(id),
                            )
                        },
                        None => {
                            let bearer = String::from_str(token.as_str());
                            (
                                AuthState::AwaitProviderUser { token, token_ttl },
                                AuthAction::FetchUser(bearer),
                            )
                        },
                    }
                },
                None => {
                    let bearer = String::from_str(token.as_str());
                    (
                        AuthState::AwaitProviderUser { token, token_ttl },
                        AuthAction::FetchUser(bearer),
                    )
                },
            }
        },
        (AuthState::AwaitProviderUser { token, token_ttl }, AuthEvent::ProviderUser(acc)) => {
            let key = token_key(token.as_str());
            let blob = encode_account(&acc);
            (
                AuthState::AwaitProfileStore { token, token_ttl, account: acc },
                AuthAction::CacheSet(key, blob, TOKEN_KEY_TTL),
            )
        },
        (AuthState::AwaitProviderUser { .. }, AuthEvent::ProviderDenied) => (
            AuthState::Done(
                AuthOutcome::Rejected { error: AuthError::CredentialExpired, clear_cookie: true },
            ),
            AuthAction::Finish,
        ),
        (AuthState::AwaitProviderUser { .. }, AuthEvent::ProviderFailed) => (
            AuthState::Done(
                AuthOutcome::Rejected { error: AuthError::UpstreamError, clear_cookie: false },
            ),
            AuthAction::Finish,
        ),
        (AuthState::AwaitProfileStore { token, token_ttl, account }, AuthEvent::Stored) => {
            let key = user_token_key(account.id);
            let value = String::from_str(token.as_str());
            (
                AuthState::AwaitTokenStore { token, account },
                AuthAction::CacheSet(key, value, token_ttl),
            )
        },
        (AuthState::AwaitTokenStore { token, account }, AuthEvent::Stored) => {
            let id = account.id;
            (AuthState::AwaitBan { token, account }, AuthAction::CheckBan(id))
        },
        (AuthState::AwaitBan { token, account }, AuthEvent::BanStatus(banned)) => {
            if banned {
                (
                    AuthState::Done(
                        AuthOutcome::Rejected { error: AuthError::Banned, clear_cookie: false },
                    ),
                    AuthAction::Finish,
                )
            } else {
                (
                    AuthState::Done(AuthOutcome::Resolved(User { token, user: account })),
                    AuthAction::Finish,
                )
            }
        },
        (AuthState::AwaitServiceToken { account }, AuthEvent::Value(found)) => {
            match found {
                Some(tok) => (
                    AuthState::Done(AuthOutcome::Resolved(User { token: tok, user: account })),
                    AuthAction::Finish,
                ),
                None => (
                    AuthState::Done(
                        AuthOutcome::Rejected {
                            error: AuthError::NoCachedCredential,
                            clear_cookie: false,
                        },
                    ),
                    AuthAction::Finish,
                ),
            }
        },
        (_, AuthEvent::CacheFailed) => (
            AuthState::Done(
                AuthOutcome::Rejected { error: AuthError::CacheError, clear_cookie: false },
            ),
            AuthAction::Finish,
        ),
        _ => {
            proof {
                assert(false);
            }
            (
                AuthState::Done(
                    AuthOutcome::Rejected { error: AuthError::CacheError, clear_cookie: false },
                ),
                AuthAction::Finish,
            )
        },
    }
}

/// The cookie branch can only resolve through a ban check answered "not
/// banned" in this very request, and the service branch only through a cached
/// token: no transition reaches a resolved identity any other way.
pub proof fn lemma_resolution_gates(
    pre: AuthState,
    event: AuthEvent,
    post: AuthState,
    action: AuthAction,
)
    requires
        step_rel(pre, event, post, action),
        post matches AuthState::Done(AuthOutcome::Resolved(_)),
    ensures
        (pre matches AuthState::AwaitBan { .. } && event == AuthEvent::BanStatus(false)) || (pre
            matches AuthState::AwaitServiceToken { .. } && event matches AuthEvent::Value(v)
            && v is Some),
{
}

/// Membership on the ban list is fatal for the request: no fallback and no
/// retry.
pub proof fn lemma_ban_is_final(pre: AuthState, event: AuthEvent, post: AuthState, action: AuthAction)
    requires
        step_rel(pre, event, post, action),
        pre matches AuthState::AwaitBan { .. },
        event == AuthEvent::BanStatus(true),
    ensures
        post == AuthState::Done(
            AuthOutcome::Rejected { error: AuthError::Banned, clear_cookie: false },
        ),
{
}

/// A service-header request whose asserted account has no cached token is
/// answered with exactly the missing-credential rejection, never resolved.
pub proof fn lemma_service_needs_cached_token(
    pre: AuthState,
    event: AuthEvent,
    post: AuthState,
    action: AuthAction,
)
    requires
        step_rel(pre, event, post, action),
        pre matches AuthState::AwaitServiceToken { .. },
        event == AuthEvent::Value(None::<String>),
    ensures
        post == AuthState::Done(
            AuthOutcome::Rejected { error: AuthError::NoCachedCredential, clear_cookie: false },
        ),
{
}

} // verus!
