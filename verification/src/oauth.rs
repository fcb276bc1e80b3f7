use crate::cache_model::sat_add;
use crate::config::Config;
use crate::errors::AuthError;
use crate::keys::csrf_token_key;
use crate::keys::csrf_token_key_spec;
use crate::keys::CSRF_TOKEN_KEY_TTL;
use crate::percent::pct_encode;
use crate::percent::pct_encode_seq;
use crate::text::dec_digits;
use crate::text::str_eq;
use crate::text::u64_to_string;
use vstd::prelude::*;

verus! {

/// The url-safe base64 alphabet the identity provider's client library draws
/// state tokens from.
pub open spec fn is_base64url_char(c: char) -> bool {
    let u = c as u32;
    (65 <= u && u <= 90) || (97 <= u && u <= 122) || (48 <= u && u <= 57) || u == 45 || u == 95
}

proof fn lemma_b64url_is_ascii(c: char)
    requires
        is_base64url_char(c),
    ensures
        '\u{0}' <= c <= '\u{7f}',
{
}

/// Relies on `oauth2::CsrfToken::new_random`: 16 random bytes, base64url
/// encoded without padding, so 22 characters of the url-safe alphabet, drawn
/// fresh on every call.
#[verifier::external_body]
fn random_state_token() -> (r: String)
    ensures
        r@.len() == 22,
        forall|k: int| 0 <= k < r@.len() ==> is_base64url_char(#[trigger] r@[k]),
{
    oauth2::CsrfToken::new_random().secret().clone()
}

/// The provider's authorization URL for this deployment: response type,
/// client identity, the two required scopes, and the callback, with the CSRF
/// state appended when one is handed out.
pub open spec fn authorize_uri_spec(
    client_id: u64,
    redirect_uri: Seq<char>,
    state: Option<Seq<char>>,
) -> Seq<char> {
    "https://discord.com/api/oauth2/authorize?response_type=code&client_id="@ + dec_digits(
        client_id as nat,
    ) + "&scope=identify+guilds&prompt=none&redirect_uri="@ + pct_encode_seq(redirect_uri) + (
    match state {
        None => Seq::<char>::empty(),
        Some(s) => "&state="@ + pct_encode_seq(s),
    })
}

/// Builds the authorization URL.
pub fn build_authorize_uri(client_id: u64, redirect_uri: &str, state: Option<&str>) -> (r: String)
    requires
        vstd::utf8::is_ascii_chars(redirect_uri@),
        state matches Some(s) ==> vstd::utf8::is_ascii_chars(s@),
    ensures
        r@ == authorize_uri_spec(
            client_id,
            redirect_uri@,
            match state {
                None => None,
                Some(s) => Some(s@),
            },
        ),
{
    let mut out = String::from_str(
        "https://discord.com/api/oauth2/authorize?response_type=code&client_id=",
    );
    let id = u64_to_string(client_id);
    out.append(id.as_str());
    out.append("&scope=identify+guilds&prompt=none&redirect_uri=");
    let enc = pct_encode(redirect_uri);
    out.append(enc.as_str());
    match state {
        Some(s) => {
            out.append("&state=");
            let encs = pct_encode(s);
            out.append(encs.as_str());
            proof {
                assert(out@ =~= authorize_uri_spec(client_id, redirect_uri@, Some(s@)));
            }
        },
        None => {
            proof {
                assert(out@ + Seq::<char>::empty() =~= out@);
            }
        },
    }
    out
}

/// One pending cache write.
pub struct CachePut {
    pub key: String,
    pub value: String,
    pub ttl: u64,
}

/// What initiating a login yields: the URL to send the browser to, and — when
/// the caller asked to come back somewhere — the state token embedded in it
/// together with the write that records the redirect target under that token.
pub struct LoginPlan {
    pub uri: String,
    pub state: Option<String>,
    pub store: Option<CachePut>,
}

/// Plans a login. Without a requested redirect no state is handed out and
/// nothing is stored; with one, a fresh state token is embedded in the URL
/// and maps to the redirect target for the CSRF window.
pub fn login_plan(cfg: &Config, requested_redirect: Option<String>) -> (r: LoginPlan)
    requires
        cfg.wf(),
    ensures
        match requested_redirect {
            None => {
                &&& r.state is None
                &&& r.store is None
                &&& r.uri@ == authorize_uri_spec(cfg.client_id, cfg.redirect_uri@, None)
            },
            Some(target) => {
                &&& r.state matches Some(s)
                &&& s@.len() > 0
                &&& r.uri@ == authorize_uri_spec(cfg.client_id, cfg.redirect_uri@, Some(s@))
                &&& r.store matches Some(p)
                &&& p.key@ == csrf_token_key_spec(s@)
                &&& p.value@ == target@
                &&& p.ttl == CSRF_TOKEN_KEY_TTL
            },
        },
{
    match requested_redirect {
        None => {
            let uri = build_authorize_uri(cfg.client_id, cfg.redirect_uri.as_str(), None);
            LoginPlan { uri, state: None, store: None }
        },
        Some(target) => {
            let state = random_state_token();
            proof {
                assert forall|k: int| 0 <= k < state@.len() implies '\u{0}' <= #[trigger] state@[k]
                    <= '\u{7f}' by {
                    lemma_b64url_is_ascii(state@[k]);
                }
            }
            let uri = build_authorize_uri(
                cfg.client_id,
                cfg.redirect_uri.as_str(),
                Some(state.as_str()),
            );
            let key = csrf_token_key(state.as_str());
            LoginPlan {
                uri,
                state: Some(state),
                store: Some(CachePut { key, value: target, ttl: CSRF_TOKEN_KEY_TTL }),
            }
        },
    }
}

/// Accepts a requested post-login redirect only when it points back into this
/// site: it must start with '/'.
pub fn sanitize_redirect(raw: Option<String>) -> (r: Option<String>)
    ensures
        match raw {
            None => r is None,
            Some(t) => if t@.len() > 0 && t@[0] == '/' {
                r matches Some(v) && v@ == t@
            } else {
                r is None
            },
        },
{
    match raw {
        None => None,
        Some(t) => {
            if t.as_str().unicode_len() > 0 && t.as_str().get_char(0) == '/' {
                Some(t)
            } else {
                None
            }
        },
    }
}

/// How the identity provider answered a code-for-token exchange.
pub enum ExchangeReply {
    /// The provider granted a token, with its lifetime in seconds and the
    /// scope set it granted, where it named one.
    Granted { access_token: String, expires_in: u64, scopes: Option<Vec<String>> },
    /// The provider rejected the exchange.
    Denied,
    /// The provider or the network failed.
    TransportFailed,
}

/// A granted access token with its absolute expiry.
#[derive(Debug, PartialEq, Eq)]
pub struct AccessTokenRecord {
    pub access_token: String,
    pub expires_at: u64,
}

pub open spec fn has_scope(ss: Seq<String>, name: Seq<char>) -> bool {
    exists|k: int| 0 <= k < ss.len() && ss[k]@ == name
}

/// A granted scope set is acceptable when it covers both required scopes; a
/// reply that names no scopes granted exactly what was requested.
pub open spec fn scopes_ok(scopes: Option<Vec<String>>) -> bool {
    match scopes {
        None => true,
        Some(v) => has_scope(v@, "identify"@) && has_scope(v@, "guilds"@),
    }
}

fn contains_scope(v: &Vec<String>, name: &str) -> (r: bool)
    ensures
        r == has_scope(v@, name@),
{
    let mut i: usize = 0;
    while i < v.len()
        invariant
            0 <= i <= v.len(),
            forall|m: int| 0 <= m < i ==> v@[m]@ != name@,
        decreases v.len() - i,
    {
        if str_eq(v[i].as_str(), name) {
            assert(v@[i as int]@ == name@);
            return true;
        }
        i = i + 1;
    }
    false
}

/// Judges the provider's answer to the code exchange: a grant must cover the
/// required scope set, short grants are a client error, and provider or
/// network failures surface as upstream errors, never retried here.
pub fn evaluate_exchange(reply: ExchangeReply, now: u64) -> (r: Result<AccessTokenRecord, AuthError>)
    ensures
        match reply {
            ExchangeReply::Granted { access_token, expires_in, scopes } => if scopes_ok(scopes) {
                &&& r matches Ok(rec)
                &&& rec.access_token@ == access_token@
                &&& rec.expires_at == sat_add(now, expires_in)
            } else {
                r == Err::<AccessTokenRecord, _>(AuthError::InvalidScope)
            },
            ExchangeReply::Denied => r == Err::<AccessTokenRecord, _>(AuthError::UpstreamError),
            ExchangeReply::TransportFailed => r == Err::<AccessTokenRecord, _>(
                AuthError::UpstreamError,
            ),
        },
{
    match reply {
        ExchangeReply::Granted { access_token, expires_in, scopes } => {
            let ok = match &scopes {
                None => true,
                Some(v) => contains_scope(v, "identify") && contains_scope(v, "guilds"),
            };
            if !ok {
                return Err(AuthError::InvalidScope);
            }
            let expires_at = if expires_in > u64::MAX - now {
                u64::MAX
            } else {
                now + expires_in
            };
            Ok(AccessTokenRecord { access_token, expires_at })
        },
        ExchangeReply::Denied => Err(AuthError::UpstreamError),
        ExchangeReply::TransportFailed => Err(AuthError::UpstreamError),
    }
}

/// What the provider's callback hands this system: the authorization code,
/// and the CSRF state token when the login embedded one.
pub struct Authorization {
    pub code: String,
    pub state: Option<String>,
}

/// Where the browser is sent after the callback: the redirect target stored
/// at login time, or nothing, in which case the caller falls back to its
/// default.
pub struct Redirect {
    pub uri: Option<String>,
}

/// The form fields of the code-for-token request posted to the provider's
/// token endpoint.
pub fn exchange_params(cfg: &Config, code: &str) -> (r: Vec<(String, String)>)
    ensures
        r@.len() == 5,
        r@[0].0@ == "grant_type"@ && r@[0].1@ == "authorization_code"@,
        r@[1].0@ == "code"@ && r@[1].1@ == code@,
        r@[2].0@ == "redirect_uri"@ && r@[2].1@ == cfg.redirect_uri@,
        r@[3].0@ == "client_id"@ && r@[3].1@ == dec_digits(cfg.client_id as nat),
        r@[4].0@ == "client_secret"@ && r@[4].1@ == cfg.client_secret@,
{
    let mut out: Vec<(String, String)> = Vec::new();
    out.push((String::from_str("grant_type"), String::from_str("authorization_code")));
    out.push((String::from_str("code"), String::from_str(code)));
    out.push((String::from_str("redirect_uri"), String::from_str(cfg.redirect_uri.as_str())));
    out.push((String::from_str("client_id"), u64_to_string(cfg.client_id)));
    out.push((String::from_str("client_secret"), String::from_str(cfg.client_secret.as_str())));
    out
}

} // verus!
