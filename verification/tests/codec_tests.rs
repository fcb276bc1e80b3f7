use dashboard_auth::account::decode_account;
use dashboard_auth::account::decode_guilds;
use dashboard_auth::account::encode_account;
use dashboard_auth::account::encode_guilds;
use dashboard_auth::account::Account;
use dashboard_auth::account::Guild;
use dashboard_auth::envelope::escape;
use dashboard_auth::envelope::unescape;
use dashboard_auth::errors::http_class;
use dashboard_auth::errors::AuthError;
use dashboard_auth::errors::HttpClass;
use dashboard_auth::keys::blacklist_key;
use dashboard_auth::keys::csrf_token_key;
use dashboard_auth::keys::token_key;
use dashboard_auth::keys::user_guilds_key;
use dashboard_auth::keys::user_token_key;
use dashboard_auth::text::parse_u64;
use dashboard_auth::text::str_eq;
use dashboard_auth::text::u64_to_string;

#[test]
fn cache_keys_use_their_namespaces() {
    assert_eq!(csrf_token_key("S1"), "csrf_token:S1");
    assert_eq!(token_key("tok"), "token:tok");
    assert_eq!(user_token_key(42), "user_token:42");
    assert_eq!(user_guilds_key(42), "user_guilds:42");
    assert_eq!(blacklist_key(), "banned_users");
}

#[test]
fn decimal_rendering_and_parsing() {
    assert_eq!(u64_to_string(0), "0");
    assert_eq!(u64_to_string(907), "907");
    assert_eq!(u64_to_string(u64::MAX), "18446744073709551615");
    assert_eq!(parse_u64("0"), Some(0));
    assert_eq!(parse_u64("907"), Some(907));
    assert_eq!(parse_u64("18446744073709551615"), Some(u64::MAX));
    // Only the canonical form is accepted.
    assert_eq!(parse_u64(""), None);
    assert_eq!(parse_u64("007"), None);
    assert_eq!(parse_u64("1x"), None);
    assert_eq!(parse_u64("-3"), None);
    assert_eq!(parse_u64("18446744073709551616"), None);
}

#[test]
fn account_codec_round_trips() {
    let a = Account {
        id: 123456789,
        username: "name:with:colons".to_string(),
        discriminator: 77,
        avatar: "".to_string(),
    };
    let blob = encode_account(&a);
    assert_eq!(blob, "123456789:77:16:name:with:colons:0:");
    let back = decode_account(&blob).expect("written profile must decode");
    assert_eq!(back.id, 123456789);
    assert_eq!(back.username, "name:with:colons");
    assert_eq!(back.discriminator, 77);
    assert_eq!(back.avatar, "");
}

#[test]
fn account_codec_rejects_garbage() {
    assert_eq!(decode_account(""), None);
    assert_eq!(decode_account("1:2"), None);
    assert_eq!(decode_account("1:2:5:abc:0:"), None);
    assert_eq!(decode_account("x:2:3:abc:0:"), None);
    assert_eq!(decode_account("1:2:3:abc:1:"), None);
}

#[test]
fn guild_codec_round_trips() {
    let gs = vec![Guild { id: 1 }, Guild { id: 22 }, Guild { id: 333 }];
    let blob = encode_guilds(&gs);
    assert_eq!(blob, "1:22:333");
    let back = decode_guilds(&blob).expect("written guild list must decode");
    let ids: Vec<u64> = back.iter().map(|g| g.id).collect();
    assert_eq!(ids, vec![1, 22, 333]);

    let empty = encode_guilds(&Vec::new());
    assert_eq!(empty, "");
    assert!(decode_guilds("").expect("empty list must decode").is_empty());
}

#[test]
fn guild_codec_rejects_garbage() {
    assert_eq!(decode_guilds("5:x"), None);
    assert_eq!(decode_guilds(":"), None);
    assert_eq!(decode_guilds("01"), None);
}

#[test]
fn escaping_round_trips_and_frees_the_payload_of_dots() {
    let enc = escape("a.b\\c");
    assert_eq!(enc, "a\\db\\bc");
    assert!(!enc.contains('.'));
    assert_eq!(unescape(&enc).expect("escaped text must unescape"), "a.b\\c");
    // Only the image of the escape is accepted back.
    assert_eq!(unescape("x."), None);
    assert_eq!(unescape("x\\"), None);
    assert_eq!(unescape("x\\q"), None);
}

#[test]
fn error_kinds_map_to_their_status_classes() {
    assert_eq!(http_class(&AuthError::InvalidScope), HttpClass::BadRequest);
    assert_eq!(http_class(&AuthError::NoCachedCredential), HttpClass::BadRequest);
    assert_eq!(http_class(&AuthError::SignatureInvalid), HttpClass::Unauthorized);
    assert_eq!(http_class(&AuthError::CredentialExpired), HttpClass::Unauthorized);
    assert_eq!(http_class(&AuthError::MissingCredential), HttpClass::Unauthorized);
    assert_eq!(http_class(&AuthError::ServiceSecretMismatch), HttpClass::Unauthorized);
    assert_eq!(http_class(&AuthError::Banned), HttpClass::Forbidden);
    assert_eq!(http_class(&AuthError::UpstreamError), HttpClass::InternalError);
    assert_eq!(http_class(&AuthError::CacheError), HttpClass::InternalError);
}

#[test]
fn str_eq_compares_by_characters() {
    assert!(str_eq("abc", "abc"));
    assert!(!str_eq("abc", "abd"));
    assert!(!str_eq("abc", "ab"));
    assert!(str_eq("", ""));
}
