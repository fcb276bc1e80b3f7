use dashboard_auth::account::Guild;
use dashboard_auth::account::User;
use dashboard_auth::cache_model::MemoryCache;
use dashboard_auth::config::Config;
use dashboard_auth::credential::verify_credential;
use dashboard_auth::errors::AuthError;
use dashboard_auth::flows::run_callback;
use dashboard_auth::flows::run_guilds_lookup;
use dashboard_auth::flows::GuildScript;
use dashboard_auth::keys::csrf_token_key;
use dashboard_auth::keys::token_key;
use dashboard_auth::keys::user_guilds_key;
use dashboard_auth::keys::user_token_key;
use dashboard_auth::oauth::login_plan;
use dashboard_auth::oauth::sanitize_redirect;
use dashboard_auth::oauth::Authorization;
use dashboard_auth::oauth::ExchangeReply;
use dashboard_auth::revoke::purge_session;
use dashboard_auth::revoke::revocation_plan;

fn config() -> Config {
    Config {
        client_id: 4242,
        client_secret: "client-secret".to_string(),
        signing_secret: "signing-secret".to_string(),
        service_secret: "service-secret".to_string(),
        base_domain: "bot.example".to_string(),
        https: true,
        redirect_uri: "https://bot.example/callback".to_string(),
    }
}

fn granted(token: &str, expires_in: u64) -> ExchangeReply {
    ExchangeReply::Granted {
        access_token: token.to_string(),
        expires_in,
        scopes: Some(vec!["identify".to_string(), "guilds".to_string()]),
    }
}

#[test]
fn login_then_callback_round_trips_the_redirect_target() {
    let cfg = config();
    let mut cache = MemoryCache::new();
    let now = 5000;

    // Login with a requested redirect: the state token maps to the target.
    let requested = sanitize_redirect(Some("/dashboard".to_string()));
    let plan = login_plan(&cfg, requested);
    let state = plan.state.clone().expect("a requested redirect must hand out a state");
    let put = plan.store.expect("a requested redirect must be stored");
    assert_eq!(put.key, csrf_token_key(&state));
    assert_eq!(put.value, "/dashboard");
    assert_eq!(put.ttl, 300);
    assert!(plan.uri.contains(&format!("&state={}", state)));
    cache.set(&put.key, &put.value, put.ttl, now);

    // Callback with the provider's code and the same state: the exchange
    // succeeds, a cookie is set, and the redirect resolves to the target.
    let auth = Authorization { code: "code-x".to_string(), state: Some(state) };
    let (redirect, cookie) = run_callback(&cache, &cfg, auth, granted("tok", 600), now + 10)
        .expect("a granted exchange must succeed");
    assert_eq!(redirect.uri.as_deref(), Some("/dashboard"));
    assert_eq!(cookie.name, "session");
    assert_eq!(cookie.domain, "bot.example");
    assert_eq!(cookie.path, "/");
    assert!(cookie.http_only);
    assert!(cookie.secure);
    assert!(cookie.same_site_lax);
    assert_eq!(cookie.max_age, 600);
    let cred = verify_credential(&cookie.value, &cfg.signing_secret, now + 10)
        .expect("the issued cookie must verify");
    assert_eq!(cred.access_token, "tok");
    assert_eq!(cred.issued_at, now + 10);
    assert_eq!(cred.expires_at, now + 10 + 600);
}

#[test]
fn callback_with_unknown_state_resolves_to_no_redirect() {
    let cfg = config();
    let cache = MemoryCache::new();
    let auth = Authorization { code: "code-x".to_string(), state: Some("unknown".to_string()) };
    let (redirect, _cookie) = run_callback(&cache, &cfg, auth, granted("tok", 600), 5000)
        .expect("the exchange itself still succeeds");
    assert_eq!(redirect.uri, None);
}

#[test]
fn callback_with_expired_state_resolves_to_no_redirect() {
    let cfg = config();
    let mut cache = MemoryCache::new();
    let plan = login_plan(&cfg, Some("/dashboard".to_string()));
    let state = plan.state.expect("state expected");
    let put = plan.store.expect("store expected");
    cache.set(&put.key, &put.value, put.ttl, 5000);
    // The CSRF window has passed by the time the callback arrives.
    let auth = Authorization { code: "code-x".to_string(), state: Some(state) };
    let (redirect, _cookie) = run_callback(&cache, &cfg, auth, granted("tok", 600), 5000 + 301)
        .expect("the exchange itself still succeeds");
    assert_eq!(redirect.uri, None);
}

#[test]
fn short_scope_grant_is_an_invalid_scope_error() {
    let cfg = config();
    let cache = MemoryCache::new();
    let reply = ExchangeReply::Granted {
        access_token: "tok".to_string(),
        expires_in: 600,
        scopes: Some(vec!["identify".to_string()]),
    };
    let auth = Authorization { code: "code-x".to_string(), state: None };
    assert!(matches!(
        run_callback(&cache, &cfg, auth, reply, 5000),
        Err(AuthError::InvalidScope)
    ));
}

#[test]
fn login_without_redirect_stores_nothing() {
    let cfg = config();
    let plan = login_plan(&cfg, None);
    assert!(plan.state.is_none());
    assert!(plan.store.is_none());
    assert!(!plan.uri.contains("&state="));
}

#[test]
fn revoking_twice_is_idempotent() {
    let cfg = config();
    let mut cache = MemoryCache::new();
    let user = User {
        token: "tok".to_string(),
        user: dashboard_auth::account::Account {
            id: 99,
            username: "someone".to_string(),
            discriminator: 1234,
            avatar: "".to_string(),
        },
    };
    cache.set(&user_token_key(99), "tok", 600, 1000);
    cache.set(&token_key("tok"), "blob", 60, 1000);
    cache.set(&user_guilds_key(99), "1:2", 10, 1000);

    let plan = revocation_plan(&user, &cfg);
    assert!(plan.clear_cookie);
    assert_eq!(plan.endpoint_params[0], ("client_id".to_string(), "4242".to_string()));
    assert_eq!(plan.endpoint_params[1], ("client_secret".to_string(), "client-secret".to_string()));
    assert_eq!(plan.endpoint_params[2], ("token".to_string(), "tok".to_string()));
    assert_eq!(plan.del_keys, vec!["user_token:99", "token:tok", "user_guilds:99"]);

    purge_session(&mut cache, &user);
    assert_eq!(cache.get(&user_token_key(99), 1001), None);
    assert_eq!(cache.get(&token_key("tok"), 1001), None);
    assert_eq!(cache.get(&user_guilds_key(99), 1001), None);
    // Revoking again, with the token already invalidated, is harmless.
    purge_session(&mut cache, &user);
    assert_eq!(cache.get(&user_token_key(99), 1001), None);
    assert_eq!(cache.get(&token_key("tok"), 1001), None);
    assert_eq!(cache.get(&user_guilds_key(99), 1001), None);
}

#[test]
fn guild_lookup_fetches_once_and_then_serves_from_cache() {
    let mut cache = MemoryCache::new();
    let user = User {
        token: "tok".to_string(),
        user: dashboard_auth::account::Account {
            id: 99,
            username: "someone".to_string(),
            discriminator: 1234,
            avatar: "".to_string(),
        },
    };
    let script = GuildScript::Grants(vec![Guild { id: 7 }, Guild { id: 8 }]);
    let (got, fetches) = run_guilds_lookup(&mut cache, &user, &script, 1000);
    assert_eq!(fetches, 1);
    let ids: Vec<u64> = got.expect("granted fetch").iter().map(|g| g.id).collect();
    assert_eq!(ids, vec![7, 8]);

    let (got, fetches) = run_guilds_lookup(&mut cache, &user, &GuildScript::Fails, 1005);
    assert_eq!(fetches, 0);
    let ids: Vec<u64> = got.expect("served from cache").iter().map(|g| g.id).collect();
    assert_eq!(ids, vec![7, 8]);

    // The guild window is short: once it passes, the provider is asked again.
    let (got, fetches) = run_guilds_lookup(&mut cache, &user, &GuildScript::Fails, 1011);
    assert_eq!(fetches, 1);
    assert!(matches!(got, Err(AuthError::UpstreamError)));
}

#[test]
fn sanitize_redirect_accepts_only_site_local_targets() {
    assert_eq!(sanitize_redirect(Some("/dashboard".to_string())).as_deref(), Some("/dashboard"));
    assert_eq!(sanitize_redirect(Some("https://evil.example".to_string())), None);
    assert_eq!(sanitize_redirect(Some("".to_string())), None);
    assert_eq!(sanitize_redirect(None), None);
}
