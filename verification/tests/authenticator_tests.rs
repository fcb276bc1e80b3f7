use dashboard_auth::account::Account;
use dashboard_auth::authenticator::start_request;
use dashboard_auth::authenticator::AuthAction;
use dashboard_auth::authenticator::AuthOutcome;
use dashboard_auth::authenticator::AuthState;
use dashboard_auth::authenticator::RequestInput;
use dashboard_auth::authenticator::ServiceHeaders;
use dashboard_auth::cache_model::MemoryCache;
use dashboard_auth::config::Config;
use dashboard_auth::credential::issue_credential;
use dashboard_auth::credential::SessionCredential;
use dashboard_auth::errors::AuthError;
use dashboard_auth::flows::run_cookie_request;
use dashboard_auth::flows::run_service_request;
use dashboard_auth::flows::ProviderScript;

fn config() -> Config {
    Config {
        client_id: 4242,
        client_secret: "client-secret".to_string(),
        signing_secret: "signing-secret".to_string(),
        service_secret: "service-secret".to_string(),
        base_domain: "bot.example".to_string(),
        https: true,
        redirect_uri: "https://bot.example/callback".to_string(),
    }
}

fn cookie_for(token: &str, now: u64, cfg: &Config) -> String {
    let cred = SessionCredential {
        access_token: token.to_string(),
        issued_at: now,
        expires_at: now + 600,
    };
    issue_credential(&cred, &cfg.signing_secret)
}

fn account() -> Account {
    Account {
        id: 99,
        username: "someone".to_string(),
        discriminator: 1234,
        avatar: "av".to_string(),
    }
}

fn service_headers(secret: &str, id: &str) -> ServiceHeaders {
    ServiceHeaders {
        secret: secret.to_string(),
        id: id.to_string(),
        username: "someone".to_string(),
        discriminator: "1234".to_string(),
        avatar: "av".to_string(),
    }
}

#[test]
fn banned_account_is_forbidden_even_with_a_valid_cookie() {
    let cfg = config();
    let mut cache = MemoryCache::new();
    cache.ban(99);
    let cookie = cookie_for("tok", 1000, &cfg);
    let (outcome, fetches) = run_cookie_request(
        &mut cache,
        &cfg,
        &cookie,
        &ProviderScript::Grants(account()),
        1000,
    );
    assert_eq!(fetches, 1);
    match outcome {
        AuthOutcome::Rejected { error, clear_cookie } => {
            assert_eq!(error, AuthError::Banned);
            assert!(!clear_cookie);
        },
        _ => panic!("a banned account must be rejected"),
    }
}

#[test]
fn ban_applies_on_the_first_request_after_it_even_when_cached() {
    let cfg = config();
    let mut cache = MemoryCache::new();
    let cookie = cookie_for("tok", 1000, &cfg);
    // First request populates the cache and resolves.
    let (outcome, fetches) = run_cookie_request(
        &mut cache,
        &cfg,
        &cookie,
        &ProviderScript::Grants(account()),
        1000,
    );
    assert_eq!(fetches, 1);
    assert!(matches!(outcome, AuthOutcome::Resolved(_)));
    // The ban lands, and the very next request is forbidden although the
    // profile is still cached.
    cache.ban(99);
    let (outcome, fetches) = run_cookie_request(
        &mut cache,
        &cfg,
        &cookie,
        &ProviderScript::Fails,
        1001,
    );
    assert_eq!(fetches, 0);
    match outcome {
        AuthOutcome::Rejected { error, .. } => assert_eq!(error, AuthError::Banned),
        _ => panic!("the ban must take effect at once"),
    }
}

#[test]
fn cache_miss_fetches_once_and_the_next_request_is_served_from_cache() {
    let cfg = config();
    let mut cache = MemoryCache::new();
    let cookie = cookie_for("tok", 1000, &cfg);
    let (outcome, fetches) = run_cookie_request(
        &mut cache,
        &cfg,
        &cookie,
        &ProviderScript::Grants(account()),
        1000,
    );
    assert_eq!(fetches, 1);
    match outcome {
        AuthOutcome::Resolved(u) => {
            assert_eq!(u.token, "tok");
            assert_eq!(u.user.id, 99);
            assert_eq!(u.user.username, "someone");
        },
        _ => panic!("a granted fetch must resolve"),
    }
    // A provider that would now fail is never asked: the cache serves.
    let (outcome, fetches) = run_cookie_request(
        &mut cache,
        &cfg,
        &cookie,
        &ProviderScript::Fails,
        1005,
    );
    assert_eq!(fetches, 0);
    assert!(matches!(outcome, AuthOutcome::Resolved(_)));
}

#[test]
fn provider_denial_ends_the_session() {
    let cfg = config();
    let mut cache = MemoryCache::new();
    let cookie = cookie_for("tok", 1000, &cfg);
    let (outcome, _) = run_cookie_request(&mut cache, &cfg, &cookie, &ProviderScript::Denies, 1000);
    match outcome {
        AuthOutcome::Rejected { error, clear_cookie } => {
            assert_eq!(error, AuthError::CredentialExpired);
            assert!(clear_cookie);
        },
        _ => panic!("an upstream denial must reject the session"),
    }
}

#[test]
fn invalid_cookie_is_unauthorized_and_cleared() {
    let cfg = config();
    let mut cache = MemoryCache::new();
    let (outcome, fetches) = run_cookie_request(
        &mut cache,
        &cfg,
        "not-a-credential",
        &ProviderScript::Fails,
        1000,
    );
    assert_eq!(fetches, 0);
    match outcome {
        AuthOutcome::Rejected { error, clear_cookie } => {
            assert_eq!(error, AuthError::SignatureInvalid);
            assert!(clear_cookie);
        },
        _ => panic!("a malformed cookie must be rejected"),
    }
}

#[test]
fn service_request_without_cached_token_yields_no_cached_credential() {
    let cfg = config();
    let cache = MemoryCache::new();
    let outcome = run_service_request(&cache, &cfg, service_headers("service-secret", "99"), 1000);
    match outcome {
        AuthOutcome::Rejected { error, clear_cookie } => {
            assert_eq!(error, AuthError::NoCachedCredential);
            assert!(!clear_cookie);
        },
        _ => panic!("the service branch cannot mint tokens"),
    }
}

#[test]
fn service_request_with_wrong_secret_is_rejected() {
    let cfg = config();
    let cache = MemoryCache::new();
    let outcome = run_service_request(&cache, &cfg, service_headers("wrong", "99"), 1000);
    match outcome {
        AuthOutcome::Rejected { error, .. } => assert_eq!(error, AuthError::ServiceSecretMismatch),
        _ => panic!("a wrong shared secret must be rejected"),
    }
}

#[test]
fn service_request_resolves_from_the_cached_token_mapping() {
    let cfg = config();
    let mut cache = MemoryCache::new();
    // A cookie request populates the token mapping for account 99 ...
    let cookie = cookie_for("tok", 1000, &cfg);
    let (_, fetches) = run_cookie_request(
        &mut cache,
        &cfg,
        &cookie,
        &ProviderScript::Grants(account()),
        1000,
    );
    assert_eq!(fetches, 1);
    // ... and the service branch then resolves without the provider.
    let outcome = run_service_request(&cache, &cfg, service_headers("service-secret", "99"), 1001);
    match outcome {
        AuthOutcome::Resolved(u) => {
            assert_eq!(u.token, "tok");
            assert_eq!(u.user.id, 99);
            assert_eq!(u.user.discriminator, 1234);
        },
        _ => panic!("the cached mapping must resolve the service request"),
    }
}

#[test]
fn no_credentials_at_all_is_unauthorized() {
    let cfg = config();
    let (state, action) = start_request(RequestInput { cookie: None, service: None }, &cfg, 1000);
    assert!(matches!(action, AuthAction::Finish));
    match state {
        AuthState::Done(AuthOutcome::Rejected { error, clear_cookie }) => {
            assert_eq!(error, AuthError::MissingCredential);
            assert!(!clear_cookie);
        },
        _ => panic!("a request without credentials must be rejected"),
    }
}

#[test]
fn malformed_service_identity_is_rejected() {
    let cfg = config();
    let cache = MemoryCache::new();
    let outcome = run_service_request(
        &cache,
        &cfg,
        service_headers("service-secret", "not-a-number"),
        1000,
    );
    match outcome {
        AuthOutcome::Rejected { error, .. } => assert_eq!(error, AuthError::ServiceSecretMismatch),
        _ => panic!("a malformed identity must be rejected"),
    }
}
