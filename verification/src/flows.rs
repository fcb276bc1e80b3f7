use crate::account::account_parsed;
use crate::account::account_repr;
use crate::account::decode_guilds;
use crate::account::encode_guilds;
use crate::account::guild_ids;
use crate::account::guilds_parsed;
use crate::account::guilds_repr;
use crate::account::Account;
use crate::account::Guild;
use crate::account::User;
use crate::authenticator::account_fields;
use crate::authenticator::account_like;
use crate::authenticator::start_request;
use crate::authenticator::step_request;
use crate::authenticator::AuthAction;
use crate::authenticator::AuthEvent;
use crate::authenticator::AuthOutcome;
use crate::authenticator::AuthState;
use crate::authenticator::RequestInput;
use crate::authenticator::ServiceHeaders;
use crate::cache_model::live_value;
use crate::cache_model::sat_add;
use crate::cache_model::MemoryCache;
use crate::config::Config;
use crate::cookie::issue_session_cookie;
use crate::cookie::SessionCookie;
use crate::credential::envelope_of;
use crate::credential::verify_outcome;
use crate::errors::AuthError;
use crate::keys::csrf_token_key;
use crate::keys::csrf_token_key_spec;
use crate::keys::token_key_spec;
use crate::keys::user_guilds_key;
use crate::keys::user_guilds_key_spec;
use crate::keys::user_token_key_spec;
use crate::keys::TOKEN_KEY_TTL;
use crate::keys::USER_GUILDS_KEY_TTL;
use crate::oauth::evaluate_exchange;
use crate::oauth::scopes_ok;
use crate::oauth::Authorization;
use crate::oauth::ExchangeReply;
use crate::oauth::Redirect;
use crate::text::dec_parsed;
use vstd::pervasive::unreached;
use vstd::prelude::*;

verus! {

/// How the identity provider would answer this request's fetches: the one
/// answer is fixed before the request runs, standing for whatever the
/// provider does at that moment.
pub enum ProviderScript {
    Grants(Account),
    Denies,
    Fails,
}

fn clone_account(a: &Account) -> (r: Account)
    ensures
        account_like(r, *a),
{
    Account {
        id: a.id,
        username: a.username.clone(),
        discriminator: a.discriminator,
        avatar: a.avatar.clone(),
    }
}

/// What the cookie branch yields against a given cache and provider: the
/// complete behaviour of a cookie request, with the number of provider
/// fetches it cost. Resolution always passes the ban gate as it stands now.
pub open spec fn cookie_request_post(
    pre: MemoryCache,
    post: MemoryCache,
    cfg: Config,
    cookie: Seq<char>,
    provider: ProviderScript,
    now: u64,
    outcome: AuthOutcome,
    fetches: u32,
) -> bool {
    match verify_outcome(cookie, cfg.signing_secret@, now) {
        Err(e) => {
            &&& outcome == (AuthOutcome::Rejected { error: e, clear_cookie: true })
            &&& fetches == 0
            &&& post.contents() == pre.contents()
        },
        Ok((issued_at, expires_at, token)) => {
            let key = token_key_spec(token);
            match live_value(pre.contents(), key, now) {
                Some(blob) => match account_parsed(blob) {
                    // Served from the cache: no provider fetch at all.
                    Some((id, disc, un, av)) => {
                        &&& fetches == 0
                        &&& post.contents() == pre.contents()
                        &&& if pre.banned_ids().contains(id) {
                            outcome == (AuthOutcome::Rejected {
                                error: AuthError::Banned,
                                clear_cookie: false,
                            })
                        } else {
                            &&& outcome matches AuthOutcome::Resolved(u)
                            &&& u.token@ == token
                            &&& account_fields(u.user, id, disc, un, av)
                        }
                    },
                    None => cookie_request_fetch_post(
                        pre,
                        post,
                        provider,
                        now,
                        outcome,
                        fetches,
                        token,
                        expires_at,
                    ),
                },
                None => cookie_request_fetch_post(
                    pre,
                    post,
                    provider,
                    now,
                    outcome,
                    fetches,
                    token,
                    expires_at,
                ),
            }
        },
    }
}

/// The miss half of the cookie branch: exactly one provider fetch, and on a
/// grant the profile and the token mapping are both written back.
pub open spec fn cookie_request_fetch_post(
    pre: MemoryCache,
    post: MemoryCache,
    provider: ProviderScript,
    now: u64,
    outcome: AuthOutcome,
    fetches: u32,
    token: Seq<char>,
    expires_at: u64,
) -> bool {
    &&& fetches == 1
    &&& match provider {
        ProviderScript::Grants(acc) => {
            &&& post.contents() == pre.contents().insert(
                token_key_spec(token),
                (
                    account_repr(acc.id, acc.discriminator, acc.username@, acc.avatar@),
                    Some(sat_add(now, TOKEN_KEY_TTL)),
                ),
            ).insert(
                user_token_key_spec(acc.id as nat),
                (token, Some(sat_add(now, (expires_at - now) as u64))),
            )
            &&& if pre.banned_ids().contains(acc.id) {
                outcome == (AuthOutcome::Rejected {
                    error: AuthError::Banned,
                    clear_cookie: false,
                })
            } else {
                &&& outcome matches AuthOutcome::Resolved(u)
                &&& u.token@ == token
                &&& account_like(u.user, acc)
            }
        },
        ProviderScript::Denies => {
            &&& outcome == (AuthOutcome::Rejected {
                error: AuthError::CredentialExpired,
                clear_cookie: true,
            })
            &&& post.contents() == pre.contents()
        },
        ProviderScript::Fails => {
            &&& outcome == (AuthOutcome::Rejected {
                error: AuthError::UpstreamError,
                clear_cookie: false,
            })
            &&& post.contents() == pre.contents()
        },
    }
}

/// Runs one cookie request against the model cache, the provider answering
/// as scripted. The whole behaviour of the request is pinned by
/// `cookie_request_post`.
pub fn run_cookie_request(
    cache: &mut MemoryCache,
    cfg: &Config,
    cookie: &str,
    provider: &ProviderScript,
    now: u64,
) -> (r: (AuthOutcome, u32))
    requires
        old(cache).wf(),
    ensures
        final(cache).wf(),
        final(cache).banned_ids() == old(cache).banned_ids(),
        cookie_request_post(*old(cache), *final(cache), *cfg, cookie@, *provider, now, r.0, r.1),
{
    let input = RequestInput { cookie: Some(String::from_str(cookie)), service: None };
    let (s1, a1) = start_request(input, cfg, now);
    let (token_state, get_key) = match (s1, a1) {
        (AuthState::Done(outcome), _) => {
            return (outcome, 0);
        },
        (AuthState::AwaitProfileCache { token, token_ttl }, AuthAction::CacheGet(k)) => (
            AuthState::AwaitProfileCache { token, token_ttl },
            k,
        ),
        _ => unreached(),
    };
    let got = cache.get(get_key.as_str(), now);
    let (s2, a2) = step_request(token_state, AuthEvent::Value(got));
    let (fetch_state, bearer) = match (s2, a2) {
        (AuthState::AwaitBan { token, account }, AuthAction::CheckBan(id)) => {
            let banned = cache.is_banned(id);
            let (s3, _a3) = step_request(
                AuthState::AwaitBan { token, account },
                AuthEvent::BanStatus(banned),
            );
            match s3 {
                AuthState::Done(outcome) => {
                    return (outcome, 0);
                },
                _ => {
                    return unreached();
                },
            }
        },
        (AuthState::AwaitProviderUser { token, token_ttl }, AuthAction::FetchUser(b)) => (
            AuthState::AwaitProviderUser { token, token_ttl },
            b,
        ),
        _ => unreached(),
    };
    let _ = bearer;
    let event = match provider {
        ProviderScript::Grants(acc) => AuthEvent::ProviderUser(clone_account(acc)),
        ProviderScript::Denies => AuthEvent::ProviderDenied,
        ProviderScript::Fails => AuthEvent::ProviderFailed,
    };
    let (s3, a3) = step_request(fetch_state, event);
    let (store_state, k1, v1, ttl1) = match (s3, a3) {
        (AuthState::Done(outcome), _) => {
            return (outcome, 1);
        },
        (
            AuthState::AwaitProfileStore { token, token_ttl, account },
            AuthAction::CacheSet(k, v, ttl),
        ) => (AuthState::AwaitProfileStore { token, token_ttl, account }, k, v, ttl),
        _ => unreached(),
    };
    cache.set(k1.as_str(), v1.as_str(), ttl1, now);
    let (s4, a4) = step_request(store_state, AuthEvent::Stored);
    let (map_state, k2, v2, ttl2) = match (s4, a4) {
        (AuthState::AwaitTokenStore { token, account }, AuthAction::CacheSet(k, v, ttl)) => (
            AuthState::AwaitTokenStore { token, account },
            k,
            v,
            ttl,
        ),
        _ => unreached(),
    };
    cache.set(k2.as_str(), v2.as_str(), ttl2, now);
    let (s5, a5) = step_request(map_state, AuthEvent::Stored);
    let (ban_state, ban_id) = match (s5, a5) {
        (AuthState::AwaitBan { token, account }, AuthAction::CheckBan(id)) => (
            AuthState::AwaitBan { token, account },
            id,
        ),
        _ => unreached(),
    };
    let banned = cache.is_banned(ban_id);
    let (s6, _a6) = step_request(ban_state, AuthEvent::BanStatus(banned));
    match s6 {
        AuthState::Done(outcome) => (outcome, 1),
        _ => unreached(),
    }
}

/// What the service branch yields: the shared secret alone is validated, the
/// token must already be cached, and the identity provider is never called.
pub open spec fn service_request_post(
    pre: MemoryCache,
    cfg: Config,
    h: ServiceHeaders,
    now: u64,
    outcome: AuthOutcome,
) -> bool {
    if h.secret@ != cfg.service_secret@ {
        outcome == (AuthOutcome::Rejected {
            error: AuthError::ServiceSecretMismatch,
            clear_cookie: false,
        })
    } else {
        match (dec_parsed(h.id@), dec_parsed(h.discriminator@)) {
            (Some(id), Some(disc)) => if disc <= u32::MAX {
                match live_value(pre.contents(), user_token_key_spec(id as nat), now) {
                    Some(tok) => {
                        &&& outcome matches AuthOutcome::Resolved(u)
                        &&& u.token@ == tok
                        &&& account_fields(u.user, id, disc as u32, h.username@, h.avatar@)
                    },
                    None => outcome == (AuthOutcome::Rejected {
                        error: AuthError::NoCachedCredential,
                        clear_cookie: false,
                    }),
                }
            } else {
                outcome == (AuthOutcome::Rejected {
                    error: AuthError::ServiceSecretMismatch,
                    clear_cookie: false,
                })
            },
            _ => outcome == (AuthOutcome::Rejected {
                error: AuthError::ServiceSecretMismatch,
                clear_cookie: false,
            }),
        }
    }
}

/// Runs one service-header request against the model cache. The branch makes
/// no provider fetch and writes nothing: the cache is read alone.
pub fn run_service_request(
    cache: &MemoryCache,
    cfg: &Config,
    headers: ServiceHeaders,
    now: u64,
) -> (outcome: AuthOutcome)
    requires
        cache.wf(),
    ensures
        service_request_post(*cache, *cfg, headers, now, outcome),
{
    let ghost h = headers;
    let input = RequestInput { cookie: None, service: Some(headers) };
    let (s1, a1) = start_request(input, cfg, now);
    let (wait_state, get_key) = match (s1, a1) {
        (AuthState::Done(outcome), _) => {
            return outcome;
        },
        (AuthState::AwaitServiceToken { account }, AuthAction::CacheGet(k)) => (
            AuthState::AwaitServiceToken { account },
            k,
        ),
        _ => unreached(),
    };
    let got = cache.get(get_key.as_str(), now);
    let (s2, _a2) = step_request(wait_state, AuthEvent::Value(got));
    match s2 {
        AuthState::Done(outcome) => outcome,
        _ => unreached(),
    }
}

/// A cache miss on the profile triggers exactly one provider fetch (the miss
/// half of `cookie_request_post`) and populates the cache so that a lookup
/// following within the profile's freshness window is served from the cache
/// alone: after the write-back, the profile key holds a blob that decodes to
/// the fetched account, so the cached branch of `cookie_request_post` — with
/// zero fetches — applies to the next request.
pub proof fn lemma_fetch_populates_profile(
    m: Map<Seq<char>, (Seq<char>, Option<u64>)>,
    token: Seq<char>,
    acc: Account,
    now: u64,
    expires_at: u64,
    now2: u64,
)
    requires
        acc.username@.len() <= u64::MAX,
        acc.avatar@.len() <= u64::MAX,
        now2 < sat_add(now, TOKEN_KEY_TTL),
    ensures
        ({
            let blob = account_repr(acc.id, acc.discriminator, acc.username@, acc.avatar@);
            let m2 = m.insert(token_key_spec(token), (blob, Some(sat_add(now, TOKEN_KEY_TTL)))).insert(
                user_token_key_spec(acc.id as nat),
                (token, Some(sat_add(now, (expires_at - now) as u64))),
            );
            live_value(m2, token_key_spec(token), now2) == Some(blob) && account_parsed(blob)
                == Some((acc.id, acc.discriminator, acc.username@, acc.avatar@))
        }),
{
    crate::keys::lemma_token_keys_distinct(token, acc.id as nat);
    crate::account::lemma_account_roundtrip(acc.id, acc.discriminator, acc.username@, acc.avatar@);
}

/// What finishing a callback yields: a failed or short-scoped exchange is a
/// typed error; a good one yields the session cookie for the granted token
/// and the redirect target stored for the callback's state token — none when
/// the state is unknown or expired, and the caller falls back to a default.
pub open spec fn callback_post(
    pre: MemoryCache,
    cfg: Config,
    auth: Authorization,
    reply: ExchangeReply,
    now: u64,
    r: Result<(Redirect, SessionCookie), AuthError>,
) -> bool {
    match reply {
        ExchangeReply::Granted { access_token, expires_in, scopes } => if scopes_ok(scopes) {
            &&& r matches Ok((redirect, cookie))
            &&& cookie.value@ == envelope_of(
                access_token@,
                now,
                sat_add(now, expires_in),
                cfg.signing_secret@,
            )
            &&& cookie.max_age == sat_add(now, expires_in) - now
            &&& match auth.state {
                Some(s) => match live_value(pre.contents(), csrf_token_key_spec(s@), now) {
                    Some(target) => redirect.uri matches Some(u) && u@ == target,
                    None => redirect.uri is None,
                },
                None => redirect.uri is None,
            }
        } else {
            r == Err::<(Redirect, SessionCookie), _>(AuthError::InvalidScope)
        },
        _ => r == Err::<(Redirect, SessionCookie), _>(AuthError::UpstreamError),
    }
}

/// Finishes a login callback: judges the code exchange, resolves the stored
/// redirect target for the state token, and issues the session cookie. The
/// cache is only read.
pub fn run_callback(
    cache: &MemoryCache,
    cfg: &Config,
    auth: Authorization,
    reply: ExchangeReply,
    now: u64,
) -> (r: Result<(Redirect, SessionCookie), AuthError>)
    requires
        cache.wf(),
    ensures
        callback_post(*cache, *cfg, auth, reply, now, r),
{
    let record = match evaluate_exchange(reply, now) {
        Ok(rec) => rec,
        Err(e) => {
            return Err(e);
        },
    };
    let uri = match &auth.state {
        Some(s) => {
            let key = csrf_token_key(s.as_str());
            cache.get(key.as_str(), now)
        },
        None => None,
    };
    let cookie = issue_session_cookie(record, cfg, now);
    Ok((Redirect { uri }, cookie))
}

/// How the guild provider would answer this request's fetch.
pub enum GuildScript {
    Grants(Vec<Guild>),
    Fails,
}

/// The guild list of an identity, cache-aside: a fresh cached list is served
/// as it stands, anything else costs exactly one provider fetch whose answer
/// is written back with the short guild time-to-live.
pub open spec fn guilds_lookup_post(
    pre: MemoryCache,
    post: MemoryCache,
    id: u64,
    provider: GuildScript,
    now: u64,
    outcome: Result<Vec<Guild>, AuthError>,
    fetches: u32,
) -> bool {
    let key = user_guilds_key_spec(id as nat);
    match live_value(pre.contents(), key, now) {
        Some(blob) => match guilds_parsed(blob) {
            Some(ids) => {
                &&& fetches == 0
                &&& post.contents() == pre.contents()
                &&& outcome matches Ok(gs)
                &&& guild_ids(gs@) == ids
            },
            None => guilds_fetch_post(pre, post, id, provider, now, outcome, fetches),
        },
        None => guilds_fetch_post(pre, post, id, provider, now, outcome, fetches),
    }
}

pub open spec fn guilds_fetch_post(
    pre: MemoryCache,
    post: MemoryCache,
    id: u64,
    provider: GuildScript,
    now: u64,
    outcome: Result<Vec<Guild>, AuthError>,
    fetches: u32,
) -> bool {
    &&& fetches == 1
    &&& match provider {
        GuildScript::Grants(gs) => {
            &&& post.contents() == pre.contents().insert(
                user_guilds_key_spec(id as nat),
                (guilds_repr(guild_ids(gs@)), Some(sat_add(now, USER_GUILDS_KEY_TTL))),
            )
            &&& outcome matches Ok(r)
            &&& guild_ids(r@) == guild_ids(gs@)
        },
        GuildScript::Fails => {
            &&& outcome == Err::<Vec<Guild>, _>(AuthError::UpstreamError)
            &&& post.contents() == pre.contents()
        },
    }
}

fn clone_guilds(gs: &Vec<Guild>) -> (r: Vec<Guild>)
    ensures
        r@ == gs@,
{
    let mut out: Vec<Guild> = Vec::new();
    let mut i: usize = 0;
    while i < gs.len()
        invariant
            0 <= i <= gs.len(),
            out@ == gs@.take(i as int),
        decreases gs.len() - i,
    {
        out.push(Guild { id: gs[i].id });
        proof {
            assert(gs@[i as int] == (Guild { id: gs@[i as int].id }));
            assert(out@ =~= gs@.take(i + 1));
        }
        i = i + 1;
    }
    proof {
        assert(gs@.take(gs@.len() as int) =~= gs@);
    }
    out
}

/// Looks up an identity's guild list through the cache, fetching from the
/// provider only on a miss.
pub fn run_guilds_lookup(
    cache: &mut MemoryCache,
    user: &User,
    provider: &GuildScript,
    now: u64,
) -> (r: (Result<Vec<Guild>, AuthError>, u32))
    requires
        old(cache).wf(),
    ensures
        final(cache).wf(),
        final(cache).banned_ids() == old(cache).banned_ids(),
        guilds_lookup_post(*old(cache), *final(cache), user.user.id, *provider, now, r.0, r.1),
{
    let key = user_guilds_key(user.user.id);
    match cache.get(key.as_str(), now) {
        Some(blob) => {
            match decode_guilds(blob.as_str()) {
                Some(gs) => {
                    return (Ok(gs), 0);
                },
                None => {},
            }
        },
        None => {},
    }
    match provider {
        GuildScript::Grants(gs) => {
            let out = clone_guilds(gs);
            let blob = encode_guilds(&out);
            cache.set(key.as_str(), blob.as_str(), USER_GUILDS_KEY_TTL, now);
            (Ok(out), 1)
        },
        GuildScript::Fails => (Err(AuthError::UpstreamError), 1),
    }
}

} // verus!
