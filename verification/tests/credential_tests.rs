use dashboard_auth::credential::issue_credential;
use dashboard_auth::credential::remaining_lifetime;
use dashboard_auth::credential::verify_credential;
use dashboard_auth::credential::SessionCredential;
use dashboard_auth::errors::AuthError;

fn cred(token: &str, issued_at: u64, expires_at: u64) -> SessionCredential {
    SessionCredential { access_token: token.to_string(), issued_at, expires_at }
}

#[test]
fn issue_then_verify_returns_the_pair() {
    let secret = "signing-secret";
    let value = issue_credential(&cred("tok-abc", 100, 700), secret);
    let got = verify_credential(&value, secret, 350).expect("fresh credential must verify");
    assert_eq!(got.access_token, "tok-abc");
    assert_eq!(got.issued_at, 100);
    assert_eq!(got.expires_at, 700);
}

#[test]
fn issue_then_verify_with_awkward_token_characters() {
    let secret = "signing-secret";
    let token = "a.b:c\\d.e:f";
    let value = issue_credential(&cred(token, 5, 9999), secret);
    let got = verify_credential(&value, secret, 5).expect("credential must verify");
    assert_eq!(got.access_token, token);
}

#[test]
fn expired_credential_is_rejected_despite_valid_signature() {
    let secret = "signing-secret";
    let value = issue_credential(&cred("tok-abc", 100, 700), secret);
    assert_eq!(verify_credential(&value, secret, 700), Err(AuthError::CredentialExpired));
    assert_eq!(verify_credential(&value, secret, 9000), Err(AuthError::CredentialExpired));
}

#[test]
fn flipped_signature_byte_fails_verification() {
    let secret = "signing-secret";
    let value = issue_credential(&cred("tok-abc", 100, 700), secret);
    let mut chars: Vec<char> = value.chars().collect();
    let last = *chars.last().unwrap();
    let flipped = if last == 'A' { 'B' } else { 'A' };
    *chars.last_mut().unwrap() = flipped;
    let tampered: String = chars.into_iter().collect();
    assert_eq!(verify_credential(&tampered, secret, 350), Err(AuthError::SignatureInvalid));
}

#[test]
fn wrong_secret_fails_verification() {
    let value = issue_credential(&cred("tok-abc", 100, 700), "secret-one");
    assert_eq!(verify_credential(&value, "secret-two", 350), Err(AuthError::SignatureInvalid));
}

#[test]
fn garbage_values_fail_verification() {
    assert_eq!(verify_credential("", "s", 0), Err(AuthError::SignatureInvalid));
    assert_eq!(verify_credential("no-dot-here", "s", 0), Err(AuthError::SignatureInvalid));
    assert_eq!(verify_credential("payload.badsig", "s", 0), Err(AuthError::SignatureInvalid));
}

#[test]
fn remaining_lifetime_counts_down_to_zero() {
    let c = cred("t", 10, 60);
    assert_eq!(remaining_lifetime(&c, 10), 50);
    assert_eq!(remaining_lifetime(&c, 59), 1);
    assert_eq!(remaining_lifetime(&c, 60), 0);
    assert_eq!(remaining_lifetime(&c, 600), 0);
}
