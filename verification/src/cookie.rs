use crate::config::Config;
use crate::credential::envelope_of;
use crate::credential::issue_credential;
use crate::credential::remaining_lifetime;
use crate::credential::SessionCredential;
use crate::keys::COOKIE_NAME;
use crate::oauth::AccessTokenRecord;
use vstd::prelude::*;

verus! {

/// The one artifact handed to an external party: the session cookie, as the
/// route layer must set it on the browser.
pub struct SessionCookie {
    pub name: String,
    pub value: String,
    pub domain: String,
    pub path: String,
    pub http_only: bool,
    pub secure: bool,
    pub same_site_lax: bool,
    pub max_age: u64,
}

/// Wraps a granted access token into the signed session cookie: issued now,
/// expiring with the token, scoped to the deployment's origin, kept from
/// scripts, and marked secure exactly when the origin is served over HTTPS.
pub fn issue_session_cookie(record: AccessTokenRecord, cfg: &Config, now: u64) -> (r: SessionCookie)
    ensures
        r.name@ == "session"@,
        r.value@ == envelope_of(record.access_token@, now, record.expires_at, cfg.signing_secret@),
        r.domain@ == cfg.base_domain@,
        r.path@ == "/"@,
        r.http_only,
        r.same_site_lax,
        r.secure == cfg.https,
        r.max_age == if now >= record.expires_at {
            0u64
        } else {
            (record.expires_at - now) as u64
        },
{
    let cred = SessionCredential {
        access_token: record.access_token,
        issued_at: now,
        expires_at: record.expires_at,
    };
    let max_age = remaining_lifetime(&cred, now);
    let value = issue_credential(&cred, cfg.signing_secret.as_str());
    SessionCookie {
        name: String::from_str(COOKIE_NAME),
        value,
        domain: String::from_str(cfg.base_domain.as_str()),
        path: String::from_str("/"),
        http_only: true,
        secure: cfg.https,
        same_site_lax: true,
        max_age,
    }
}

} // verus!
