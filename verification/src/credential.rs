use crate::envelope::char_index;
use crate::envelope::encode_payload;
use crate::envelope::escape_seq;
use crate::envelope::find_char;
use crate::envelope::lemma_char_index_at;
use crate::envelope::lemma_char_index_none;
use crate::envelope::lemma_escape_no_dot;
use crate::envelope::lemma_payload_canonical;
use crate::envelope::lemma_payload_roundtrip;
use crate::envelope::parse_payload;
use crate::envelope::payload_of;
use crate::envelope::payload_parsed;
use crate::errors::AuthError;
use crate::text::lemma_dec_digits_all_digits;
use crate::text::str_eq;
use vstd::prelude::*;

verus! {

/// This system's own proof that a browser was granted an access token:
/// the token together with its issuance time and expiry, carried in a signed
/// cookie.
#[derive(Debug, PartialEq, Eq)]
pub struct SessionCredential {
    pub access_token: String,
    pub issued_at: u64,
    pub expires_at: u64,
}

impl SessionCredential {
    /// A credential never expires before it is issued.
    pub open spec fn wf(&self) -> bool {
        self.issued_at <= self.expires_at
    }
}

/// The HMAC tag the signing backend computes over a message with a secret.
/// The tag is a pure function of the two arguments; its pages-long definition
/// stays with the backend.
pub uninterp spec fn mac_of(message: Seq<char>, secret: Seq<char>) -> Seq<char>;

/// Relies on `jsonwebtoken::crypto::sign` with `Algorithm::HS256` over a key
/// built by `jsonwebtoken::EncodingKey::from_secret`: HMAC-SHA256 signing is
/// deterministic in the message and the secret bytes and cannot fail, and the
/// tag comes back base64url-encoded without padding, so it never contains '.'.
#[verifier::external_body]
fn hmac_sign(message: &str, secret: &str) -> (r: String)
    ensures
        r@ == mac_of(message@, secret@),
        forall|k: int| 0 <= k < r@.len() ==> r@[k] != '.',
{
    let key = jsonwebtoken::EncodingKey::from_secret(secret.as_bytes());
    match jsonwebtoken::crypto::sign(message.as_bytes(), &key, jsonwebtoken::Algorithm::HS256) {
        Ok(tag) => tag,
        Err(_) => String::new(),
    }
}

/// The signed envelope of a credential: its payload, a dot, and the tag over
/// the payload.
pub open spec fn envelope_of(
    token: Seq<char>,
    issued_at: u64,
    expires_at: u64,
    secret: Seq<char>,
) -> Seq<char> {
    payload_of(token, issued_at, expires_at) + seq!['.'] + mac_of(
        payload_of(token, issued_at, expires_at),
        secret,
    )
}

/// What verifying a cookie value yields: the embedded fields when the value
/// splits at its first dot into a payload and the payload's own tag and the
/// expiry has not passed, a typed rejection otherwise.
pub open spec fn verify_outcome(value: Seq<char>, secret: Seq<char>, now: u64) -> Result<
    (u64, u64, Seq<char>),
    AuthError,
> {
    let j = char_index(value, '.');
    if j < 0 {
        Err(AuthError::SignatureInvalid)
    } else {
        let payload = value.take(j);
        let sig = value.skip(j + 1);
        if sig != mac_of(payload, secret) {
            Err(AuthError::SignatureInvalid)
        } else {
            match payload_parsed(payload) {
                None => Err(AuthError::SignatureInvalid),
                Some((issued_at, expires_at, token)) => if now >= expires_at {
                    Err(AuthError::CredentialExpired)
                } else {
                    Ok((issued_at, expires_at, token))
                },
            }
        }
    }
}

/// Serializes and signs a credential into the value of the session cookie.
pub fn issue_credential(cred: &SessionCredential, secret: &str) -> (r: String)
    ensures
        r@ == envelope_of(cred.access_token@, cred.issued_at, cred.expires_at, secret@),
{
    proof {
        reveal_strlit(".");
    }
    let mut out = encode_payload(cred.access_token.as_str(), cred.issued_at, cred.expires_at);
    let mac = hmac_sign(out.as_str(), secret);
    out.append(".");
    out.append(mac.as_str());
    proof {
        assert("."@ =~= seq!['.']);
        assert(out@ =~= envelope_of(cred.access_token@, cred.issued_at, cred.expires_at, secret@));
    }
    out
}

/// Decodes and verifies a cookie value: the signature must be the payload's
/// own tag and the expiry must lie in the future before the embedded token is
/// trusted.
pub fn verify_credential(value: &str, secret: &str, now: u64) -> (r: Result<
    SessionCredential,
    AuthError,
>)
    ensures
        match r {
            Ok(cred) => verify_outcome(value@, secret@, now) == Ok::<_, AuthError>(
                (cred.issued_at, cred.expires_at, cred.access_token@),
            ),
            Err(e) => verify_outcome(value@, secret@, now) == Err::<(u64, u64, Seq<char>), _>(e),
        },
{
    let len = s_len(value);
    let j = match find_char(value, 0, '.') {
        Some(j) => j,
        None => {
            proof {
                lemma_char_index_none(value@, '.');
            }
            return Err(AuthError::SignatureInvalid);
        },
    };
    proof {
        lemma_char_index_at(value@, '.', j as int);
    }
    let payload = value.substring_char(0, j);
    assert(payload@ =~= value@.take(j as int));
    let sig = value.substring_char(j + 1, len);
    assert(sig@ =~= value@.skip(j + 1));
    let expected = hmac_sign(payload, secret);
    if !str_eq(sig, expected.as_str()) {
        return Err(AuthError::SignatureInvalid);
    }
    match parse_payload(payload) {
        None => Err(AuthError::SignatureInvalid),
        Some((issued_at, expires_at, token)) => {
            if now >= expires_at {
                Err(AuthError::CredentialExpired)
            } else {
                Ok(SessionCredential { access_token: token, issued_at, expires_at })
            }
        },
    }
}

fn s_len(s: &str) -> (r: usize)
    ensures
        r == s@.len(),
{
    s.unicode_len()
}

/// Seconds the credential remains valid at the given time.
pub fn remaining_lifetime(cred: &SessionCredential, now: u64) -> (r: u64)
    ensures
        r == if now >= cred.expires_at {
            0u64
        } else {
            (cred.expires_at - now) as u64
        },
{
    if now >= cred.expires_at {
        0
    } else {
        cred.expires_at - now
    }
}

/// The payload of an issued credential never contains a dot, so an envelope
/// always splits back at the separator that issuance wrote.
proof fn lemma_envelope_split(token: Seq<char>, issued_at: u64, expires_at: u64, sig: Seq<char>)
    ensures
        ({
            let p = payload_of(token, issued_at, expires_at);
            let v = p + seq!['.'] + sig;
            char_index(v, '.') == p.len() && v.take(p.len() as int) == p && v.skip(
                (p.len() + 1) as int,
            ) == sig
        }),
{
    let p = payload_of(token, issued_at, expires_at);
    let v = p + seq!['.'] + sig;
    lemma_dec_digits_all_digits(issued_at as nat);
    lemma_dec_digits_all_digits(expires_at as nat);
    lemma_escape_no_dot(token);
    assert forall|m: int| 0 <= m < p.len() implies v[m] != '.' by {
        assert(v[m] == p[m]);
        let di = crate::text::dec_digits(issued_at as nat);
        let de = crate::text::dec_digits(expires_at as nat);
        if m < di.len() {
            assert(p[m] == di[m]);
            assert(crate::text::is_dec_digit(di[m]));
        } else if m == di.len() {
            assert(p[m] == ':');
        } else if m < di.len() + 1 + de.len() {
            assert(p[m] == de[m - di.len() - 1]);
            assert(crate::text::is_dec_digit(de[m - di.len() - 1]));
        } else if m == di.len() + 1 + de.len() {
            assert(p[m] == ':');
        } else {
            assert(p[m] == escape_seq(token)[m - di.len() - de.len() - 2]);
        }
    }
    assert(v[p.len() as int] == '.');
    lemma_char_index_at(v, '.', p.len() as int);
    assert(v.take(p.len() as int) =~= p);
    assert(v.skip((p.len() + 1) as int) =~= sig);
}

/// Round trip: a credential issued with a secret verifies under the same
/// secret at any time before its expiry, and returns the original fields.
pub proof fn lemma_verify_of_issued(
    token: Seq<char>,
    issued_at: u64,
    expires_at: u64,
    secret: Seq<char>,
    now: u64,
)
    requires
        now < expires_at,
    ensures
        verify_outcome(envelope_of(token, issued_at, expires_at, secret), secret, now)
            == Ok::<_, AuthError>((issued_at, expires_at, token)),
{
    let p = payload_of(token, issued_at, expires_at);
    lemma_envelope_split(token, issued_at, expires_at, mac_of(p, secret));
    lemma_payload_roundtrip(token, issued_at, expires_at);
}

/// An expired credential is rejected as expired even though its signature is
/// the payload's own tag.
pub proof fn lemma_verify_of_expired(
    token: Seq<char>,
    issued_at: u64,
    expires_at: u64,
    secret: Seq<char>,
    now: u64,
)
    requires
        now >= expires_at,
    ensures
        verify_outcome(envelope_of(token, issued_at, expires_at, secret), secret, now)
            == Err::<(u64, u64, Seq<char>), _>(AuthError::CredentialExpired),
{
    let p = payload_of(token, issued_at, expires_at);
    lemma_envelope_split(token, issued_at, expires_at, mac_of(p, secret));
    lemma_payload_roundtrip(token, issued_at, expires_at);
}

/// A credential whose signature part is anything but the payload's own tag
/// always fails verification, whatever time it is checked at.
pub proof fn lemma_verify_of_tampered(
    token: Seq<char>,
    issued_at: u64,
    expires_at: u64,
    secret: Seq<char>,
    sig: Seq<char>,
    now: u64,
)
    requires
        sig != mac_of(payload_of(token, issued_at, expires_at), secret),
    ensures
        verify_outcome(
            payload_of(token, issued_at, expires_at) + seq!['.'] + sig,
            secret,
            now,
        ) == Err::<(u64, u64, Seq<char>), _>(AuthError::SignatureInvalid),
{
    lemma_envelope_split(token, issued_at, expires_at, sig);
}

/// A verified credential is exactly a signed envelope: whenever verification
/// succeeds, the cookie value was the envelope of the returned fields under
/// the verifying secret, and the expiry lies in the future.
pub proof fn lemma_verify_exact(value: Seq<char>, secret: Seq<char>, now: u64)
    ensures
        ({
            match verify_outcome(value, secret, now) {
                Ok((issued_at, expires_at, token)) => value == envelope_of(
                    token,
                    issued_at,
                    expires_at,
                    secret,
                ) && now < expires_at,
                Err(_) => true,
            }
        }),
{
    if verify_outcome(value, secret, now) is Ok {
        let j = char_index(value, '.');
        crate::envelope::lemma_char_index_found(value, '.');
        let payload = value.take(j);
        let (issued_at, expires_at, token) = payload_parsed(payload)->Some_0;
        lemma_payload_canonical(payload, issued_at, expires_at, token);
        assert(value =~= payload + seq!['.'] + value.skip(j + 1));
    }
}

} // verus!
