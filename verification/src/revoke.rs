use crate::account::User;
use crate::cache_model::MemoryCache;
use crate::config::Config;
use crate::keys::token_key;
use crate::keys::token_key_spec;
use crate::keys::user_guilds_key;
use crate::keys::user_guilds_key_spec;
use crate::keys::user_token_key;
use crate::keys::user_token_key_spec;
use crate::text::dec_digits;
use crate::text::u64_to_string;
use vstd::prelude::*;

verus! {

/// Everything logging out entails: the revocation request for the provider's
/// token-revocation endpoint, the cached artifacts to purge, and the order to
/// clear the browser's cookie. The purge and the cookie clearing proceed even
/// when the upstream call fails: a user who asked to log out is never left
/// logged in locally.
pub struct RevocationPlan {
    pub endpoint_params: Vec<(String, String)>,
    pub del_keys: Vec<String>,
    pub clear_cookie: bool,
}

/// Plans the revocation of an identity's token: client credentials and the
/// token for the upstream call, and the three cache keys that hold the
/// session's artifacts.
pub fn revocation_plan(user: &User, cfg: &Config) -> (r: RevocationPlan)
    ensures
        r.endpoint_params@.len() == 3,
        r.endpoint_params@[0].0@ == "client_id"@ && r.endpoint_params@[0].1@ == dec_digits(
            cfg.client_id as nat,
        ),
        r.endpoint_params@[1].0@ == "client_secret"@ && r.endpoint_params@[1].1@
            == cfg.client_secret@,
        r.endpoint_params@[2].0@ == "token"@ && r.endpoint_params@[2].1@ == user.token@,
        r.del_keys@.len() == 3,
        r.del_keys@[0]@ == user_token_key_spec(user.user.id as nat),
        r.del_keys@[1]@ == token_key_spec(user.token@),
        r.del_keys@[2]@ == user_guilds_key_spec(user.user.id as nat),
        r.clear_cookie,
{
    let mut endpoint_params: Vec<(String, String)> = Vec::new();
    endpoint_params.push((String::from_str("client_id"), u64_to_string(cfg.client_id)));
    endpoint_params.push(
        (String::from_str("client_secret"), String::from_str(cfg.client_secret.as_str())),
    );
    endpoint_params.push((String::from_str("token"), String::from_str(user.token.as_str())));
    let mut del_keys: Vec<String> = Vec::new();
    del_keys.push(user_token_key(user.user.id));
    del_keys.push(token_key(user.token.as_str()));
    del_keys.push(user_guilds_key(user.user.id));
    RevocationPlan { endpoint_params, del_keys, clear_cookie: true }
}

/// Purges the cached artifacts of an identity's session: the token mapping,
/// the cached profile, and the cached guild list.
pub fn purge_session(cache: &mut MemoryCache, user: &User)
    requires
        old(cache).wf(),
    ensures
        final(cache).wf(),
        final(cache).banned_ids() == old(cache).banned_ids(),
        final(cache).contents() == old(cache).contents().remove(
            user_token_key_spec(user.user.id as nat),
        ).remove(token_key_spec(user.token@)).remove(user_guilds_key_spec(user.user.id as nat)),
{
    let k1 = user_token_key(user.user.id);
    let k2 = token_key(user.token.as_str());
    let k3 = user_guilds_key(user.user.id);
    cache.del(k1.as_str());
    cache.del(k2.as_str());
    cache.del(k3.as_str());
}

/// Purging a session is idempotent: purging what a purge left behind changes
/// nothing, so a second revocation of the same identity is harmless.
pub proof fn lemma_purge_idempotent(
    m: Map<Seq<char>, (Seq<char>, Option<u64>)>,
    a: Seq<char>,
    b: Seq<char>,
    c: Seq<char>,
)
    ensures
        m.remove(a).remove(b).remove(c).remove(a).remove(b).remove(c) == m.remove(a).remove(
            b,
        ).remove(c),
{
    assert(m.remove(a).remove(b).remove(c).remove(a).remove(b).remove(c) =~= m.remove(a).remove(
        b,
    ).remove(c));
}

} // verus!
