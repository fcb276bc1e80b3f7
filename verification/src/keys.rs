use crate::text::dec_digits;
use crate::text::u64_to_string;
use vstd::prelude::*;

verus! {

/// Name of the session cookie handed to the browser.
pub const COOKIE_NAME: &'static str = "session";

/// Path of the OAuth2 callback below the base origin.
pub const CALLBACK_PATH: &'static str = "/callback";

/// Seconds a stored CSRF state token stays valid.
pub const CSRF_TOKEN_KEY_TTL: u64 = 300;

/// Seconds a cached profile stays fresh.
pub const TOKEN_KEY_TTL: u64 = 60;

/// Seconds a cached guild list stays fresh; guild membership changes more
/// often than the profile, so its window is shorter.
pub const USER_GUILDS_KEY_TTL: u64 = 10;

pub open spec fn csrf_token_key_spec(id: Seq<char>) -> Seq<char> {
    "csrf_token:"@ + id
}

pub open spec fn token_key_spec(token: Seq<char>) -> Seq<char> {
    "token:"@ + token
}

pub open spec fn user_token_key_spec(id: nat) -> Seq<char> {
    "user_token:"@ + dec_digits(id)
}

pub open spec fn user_guilds_key_spec(id: nat) -> Seq<char> {
    "user_guilds:"@ + dec_digits(id)
}

pub open spec fn blacklist_key_spec() -> Seq<char> {
    "banned_users"@
}

/// Cache key of the redirect target stored for one CSRF state token.
pub fn csrf_token_key(id: &str) -> (r: String)
    ensures
        r@ == csrf_token_key_spec(id@),
{
    let mut s = String::from_str("csrf_token:");
    s.append(id);
    s
}

/// Cache key of the profile cached for one access token.
pub fn token_key(token: &str) -> (r: String)
    ensures
        r@ == token_key_spec(token@),
{
    let mut s = String::from_str("token:");
    s.append(token);
    s
}

/// Cache key of the access token cached for one account id.
pub fn user_token_key(id: u64) -> (r: String)
    ensures
        r@ == user_token_key_spec(id as nat),
{
    let mut s = String::from_str("user_token:");
    let n = u64_to_string(id);
    s.append(n.as_str());
    s
}

/// Cache key of the guild list cached for one account id.
pub fn user_guilds_key(id: u64) -> (r: String)
    ensures
        r@ == user_guilds_key_spec(id as nat),
{
    let mut s = String::from_str("user_guilds:");
    let n = u64_to_string(id);
    s.append(n.as_str());
    s
}

/// The key namespaces never collide: a profile key and a token-mapping key
/// differ whatever they are keyed by.
pub proof fn lemma_token_keys_distinct(token: Seq<char>, id: nat)
    ensures
        token_key_spec(token) != user_token_key_spec(id),
{
    reveal_strlit("token:");
    reveal_strlit("user_token:");
    assert(token_key_spec(token)[0] == 't');
    assert(user_token_key_spec(id)[0] == 'u');
}

/// Cache key of the set of banned account ids.
pub fn blacklist_key() -> (r: &'static str)
    ensures
        r@ == blacklist_key_spec(),
{
    "banned_users"
}

} // verus!
