use dashboard_auth::cache_model::MemoryCache;
use dashboard_auth::config::Config;
use dashboard_auth::errors::AuthError;
use dashboard_auth::oauth::build_authorize_uri;
use dashboard_auth::oauth::evaluate_exchange;
use dashboard_auth::oauth::exchange_params;
use dashboard_auth::oauth::login_plan;
use dashboard_auth::oauth::ExchangeReply;
use dashboard_auth::percent::pct_encode;

fn config() -> Config {
    Config {
        client_id: 4242,
        client_secret: "client-secret".to_string(),
        signing_secret: "signing-secret".to_string(),
        service_secret: "service-secret".to_string(),
        base_domain: "bot.example".to_string(),
        https: true,
        redirect_uri: "https://bot.example/callback".to_string(),
    }
}

#[test]
fn percent_encoding_escapes_reserved_characters() {
    assert_eq!(pct_encode("https://bot.example/callback"), "https%3A%2F%2Fbot.example%2Fcallback");
    assert_eq!(pct_encode("a b&c=d"), "a%20b%26c%3Dd");
    assert_eq!(pct_encode("Az09-._~"), "Az09-._~");
    assert_eq!(pct_encode(""), "");
}

#[test]
fn authorize_uri_is_built_exactly() {
    let uri = build_authorize_uri(4242, "https://bot.example/callback", None);
    assert_eq!(
        uri,
        "https://discord.com/api/oauth2/authorize?response_type=code&client_id=4242\
         &scope=identify+guilds&prompt=none&redirect_uri=https%3A%2F%2Fbot.example%2Fcallback",
    );
    let uri = build_authorize_uri(4242, "https://bot.example/callback", Some("S-1_a"));
    assert_eq!(
        uri,
        "https://discord.com/api/oauth2/authorize?response_type=code&client_id=4242\
         &scope=identify+guilds&prompt=none&redirect_uri=https%3A%2F%2Fbot.example%2Fcallback\
         &state=S-1_a",
    );
}

#[test]
fn state_tokens_are_fresh_and_url_safe() {
    let cfg = config();
    let a = login_plan(&cfg, Some("/a".to_string())).state.expect("state expected");
    let b = login_plan(&cfg, Some("/b".to_string())).state.expect("state expected");
    assert_eq!(a.len(), 22);
    assert_eq!(b.len(), 22);
    assert_ne!(a, b);
    assert!(a.chars().all(|c| c.is_ascii_alphanumeric() || c == '-' || c == '_'));
}

#[test]
fn exchange_is_judged_by_its_scopes() {
    let ok = ExchangeReply::Granted {
        access_token: "tok".to_string(),
        expires_in: 600,
        scopes: Some(vec!["guilds".to_string(), "identify".to_string(), "email".to_string()]),
    };
    let rec = evaluate_exchange(ok, 1000).expect("a covering scope set is accepted");
    assert_eq!(rec.access_token, "tok");
    assert_eq!(rec.expires_at, 1600);

    let unspecified = ExchangeReply::Granted {
        access_token: "tok".to_string(),
        expires_in: 600,
        scopes: None,
    };
    assert!(evaluate_exchange(unspecified, 1000).is_ok());

    let short = ExchangeReply::Granted {
        access_token: "tok".to_string(),
        expires_in: 600,
        scopes: Some(vec!["identify".to_string()]),
    };
    assert_eq!(evaluate_exchange(short, 1000).unwrap_err(), AuthError::InvalidScope);

    assert_eq!(evaluate_exchange(ExchangeReply::Denied, 1000).unwrap_err(), AuthError::UpstreamError);
    assert_eq!(
        evaluate_exchange(ExchangeReply::TransportFailed, 1000).unwrap_err(),
        AuthError::UpstreamError,
    );
}

#[test]
fn exchange_params_carry_the_client_identity() {
    let cfg = config();
    let params = exchange_params(&cfg, "code-x");
    assert_eq!(
        params,
        vec![
            ("grant_type".to_string(), "authorization_code".to_string()),
            ("code".to_string(), "code-x".to_string()),
            ("redirect_uri".to_string(), "https://bot.example/callback".to_string()),
            ("client_id".to_string(), "4242".to_string()),
            ("client_secret".to_string(), "client-secret".to_string()),
        ],
    );
}

#[test]
fn cache_entries_expire_by_their_time_to_live() {
    let mut cache = MemoryCache::new();
    cache.set("k", "v", 10, 1000);
    assert_eq!(cache.get("k", 1000).as_deref(), Some("v"));
    assert_eq!(cache.get("k", 1009).as_deref(), Some("v"));
    assert_eq!(cache.get("k", 1010), None);
    // A zero time-to-live never expires.
    cache.set("p", "q", 0, 1000);
    assert_eq!(cache.get("p", u64::MAX).as_deref(), Some("q"));
    // Last write wins.
    cache.set("k", "w", 10, 2000);
    assert_eq!(cache.get("k", 2000).as_deref(), Some("w"));
    cache.del("k");
    assert_eq!(cache.get("k", 2000), None);
    // The ban set is explicit membership only.
    assert!(!cache.is_banned(5));
    cache.ban(5);
    assert!(cache.is_banned(5));
    assert_eq!(cache.banned_count(), 1);
    cache.ban(5);
    assert_eq!(cache.banned_count(), 1);
}
