//! User configuration, saved credentials, and how the portal URL and the
//! token are chosen.
use vstd::prelude::*;

use crate::error::ForgeError;
use crate::text::text_from;

verus! {

/// User configuration from `config.toml`.
pub struct Config {
    pub portal_url: Option<String>,
    pub default_install_path: Option<String>,
    pub org_slug: Option<String>,
}

impl Default for Config {
    fn default() -> (r: Self)
        ensures
            r.portal_url is None,
            r.default_install_path is None,
            r.org_slug is None,
    {
        Config { portal_url: None, default_install_path: None, org_slug: None }
    }
}

/// The install directory used when none is configured.
pub open spec fn default_install_path() -> Seq<char> {
    "/opt/tools"@
}

/// The portal used when none is given.
pub open spec fn default_portal_url() -> Seq<char> {
    "https://artifacts.digitalsecurityguard.com"@
}

impl Config {
    /// The configured install directory, or "/opt/tools".
    pub fn install_path(&self) -> (r: &str)
        ensures
            r@ == match self.default_install_path {
                Some(p) => p@,
                None => default_install_path(),
            },
    {
        match &self.default_install_path {
            Some(p) => p.as_str(),
            None => "/opt/tools",
        }
    }
}

/// Saved credentials from `credentials.json`.
pub struct Credentials {
    pub access_token: String,
    pub expires_at: Option<String>,
    pub scopes: Vec<String>,
    pub portal_url: String,
    pub org_slug: String,
}

/// An instant as whole seconds since the Unix epoch and nanoseconds within
/// the second.
pub type Instant = (i64, u32);

/// Whether instant `a` is strictly before instant `b`.
pub open spec fn instant_before(a: Instant, b: Instant) -> bool {
    a.0 < b.0 || (a.0 == b.0 && a.1 < b.1)
}

/// The instant that chrono reads from `s` as a `DateTime<Utc>`, if it reads one.
pub uninterp spec fn utc_instant(s: Seq<char>) -> Option<Instant>;

/// Parses `s` with chrono's `FromStr` for `DateTime<Utc>` and returns the
/// instant's `timestamp()` and `timestamp_subsec_nanos()`, which order
/// instants as `DateTime<Utc>` orders them. The contract only names the
/// result.
#[verifier::external_body]
fn parse_utc_instant(s: &str) -> (r: Option<Instant>)
    ensures
        r == utc_instant(s@),
{
    match s.parse::<chrono::DateTime<chrono::Utc>>() {
        Ok(dt) => Some((dt.timestamp(), dt.timestamp_subsec_nanos())),
        Err(_) => None,
    }
}

/// Whether `t` can be a reading of the UTC clock: fewer than a billion
/// nanoseconds within the second.
pub open spec fn clock_reading(t: Instant) -> bool {
    t.1 < 1_000_000_000
}

/// The current time, as seconds and nanoseconds since the Unix epoch: the
/// system time converted by chrono's `From<SystemTime> for DateTime<Utc>`,
/// which maps a time before the epoch to negative seconds with the
/// nanoseconds counted forward, below a billion either way. Which instant
/// it is, is the clock's. The conversion only fails, by panicking, for a
/// clock set beyond chrono's range of about 262,000 years around year 0.
#[verifier::external_body]
fn utc_now() -> (r: Instant)
    ensures
        clock_reading(r),
{
    let now = chrono::DateTime::<chrono::Utc>::from(std::time::SystemTime::now());
    (now.timestamp(), now.timestamp_subsec_nanos())
}

/// The current time in RFC 3339 form: the system time converted by chrono's
/// `From<SystemTime> for DateTime<Utc>`, written by `to_rfc3339`. Nothing is
/// promised of the text: it is the clock's, and for years outside 0 to 9999
/// chrono writes a form its own parser need not read back. The conversion
/// only fails, by panicking, for a clock beyond chrono's range.
#[verifier::external_body]
pub(crate) fn now_rfc3339() -> String {
    chrono::DateTime::<chrono::Utc>::from(std::time::SystemTime::now()).to_rfc3339()
}

/// Whether credentials with this expiry are expired at `now`: only when the
/// expiry is present, reads as a date, and lies before `now`.
pub open spec fn expired_at(expires_at: Option<String>, now: Instant) -> bool {
    match expires_at {
        None => false,
        Some(s) => match utc_instant(s@) {
            Some(t) => instant_before(t, now),
            None => false,
        },
    }
}

/// Whether an expiry, as read from the credentials, has passed at `now`:
/// only when it was read and lies strictly before `now`.
pub fn expiry_passed(expiry: Option<Instant>, now: Instant) -> (r: bool)
    ensures
        r == match expiry {
            Some(t) => instant_before(t, now),
            None => false,
        },
{
    match expiry {
        Some(t) => t.0 < now.0 || (t.0 == now.0 && t.1 < now.1),
        None => false,
    }
}

impl Credentials {
    /// Whether these credentials are expired at `now`.
    pub fn is_expired_at(&self, now: Instant) -> (r: bool)
        ensures
            r == expired_at(self.expires_at, now),
    {
        match &self.expires_at {
            None => false,
            Some(s) => expiry_passed(parse_utc_instant(s.as_str()), now),
        }
    }

    /// Whether these credentials are expired now: what `is_expired_at` gives
    /// at the clock's reading. Without an expiry, or with one that does not
    /// read as a date, they never are.
    pub fn is_expired(&self) -> (r: bool)
        ensures
            exists|now: Instant| clock_reading(now) && r == #[trigger] expired_at(self.expires_at, now),
            r ==> (self.expires_at matches Some(s) && utc_instant(s@) is Some),
    {
        let now = utc_now();
        self.is_expired_at(now)
    }
}

/// The portal URL: the `--portal-url` flag, else `FORGE_PORTAL_URL`, else
/// the configured one, else the default.
pub fn resolve_portal_url(flag: Option<&str>, env_url: Option<String>, config: &Config) -> (r: String)
    ensures
        r@ == match flag {
            Some(f) => f@,
            None => match env_url {
                Some(e) => e@,
                None => match config.portal_url {
                    Some(c) => c@,
                    None => default_portal_url(),
                },
            },
        },
{
    if let Some(url) = flag {
        return text_from(url);
    }
    if let Some(url) = env_url {
        return url;
    }
    match &config.portal_url {
        Some(c) => c.clone(),
        None => text_from("https://artifacts.digitalsecurityguard.com"),
    }
}

/// The token at `now`: `FORGE_TOKEN` when set; else the saved credentials'
/// token, or `TokenExpired` when they are expired; else none.
/// `creds` is only read when `env_token` is `None`.
pub fn resolve_token_at(env_token: Option<String>, creds: Option<Credentials>, now: Instant) -> (r: Result<Option<String>, ForgeError>)
    ensures
        match env_token {
            Some(t) => r == Ok::<Option<String>, ForgeError>(Some(t)),
            None => match creds {
                None => r == Ok::<Option<String>, ForgeError>(None),
                Some(c) => if expired_at(c.expires_at, now) {
                    r matches Err(ForgeError::TokenExpired)
                } else {
                    r == Ok::<Option<String>, ForgeError>(Some(c.access_token))
                },
            },
        },
{
    if let Some(t) = env_token {
        return Ok(Some(t));
    }
    match creds {
        Some(c) => {
            if c.is_expired_at(now) {
                Err(ForgeError::TokenExpired)
            } else {
                Ok(Some(c.access_token))
            }
        },
        None => Ok(None),
    }
}

/// The token now, as `resolve_token_at` chooses it at the clock's time.
pub fn resolve_token(env_token: Option<String>, creds: Option<Credentials>) -> (r: Result<Option<String>, ForgeError>)
    ensures
        match env_token {
            Some(t) => r == Ok::<Option<String>, ForgeError>(Some(t)),
            None => match creds {
                None => r == Ok::<Option<String>, ForgeError>(None),
                Some(c) => {
                    &&& r matches Ok(tok) ==> tok == Some(c.access_token)
                    &&& r matches Err(e) ==> e is TokenExpired
                    &&& (match c.expires_at {
                        Some(s) => utc_instant(s@) is Some,
                        None => false,
                    } || r == Ok::<Option<String>, ForgeError>(Some(c.access_token)))
                },
            },
        },
{
    let now = utc_now();
    resolve_token_at(env_token, creds, now)
}

/// The token, or `NotAuthenticated` when there is none.
pub fn require_token(env_token: Option<String>, creds: Option<Credentials>) -> (r: Result<String, ForgeError>)
    ensures
        match env_token {
            Some(t) => r == Ok::<String, ForgeError>(t),
            None => match creds {
                None => r matches Err(ForgeError::NotAuthenticated),
                Some(c) => {
                    &&& r matches Ok(tok) ==> tok == c.access_token
                    &&& r matches Err(e) ==> e is TokenExpired
                    &&& (match c.expires_at {
                        Some(s) => utc_instant(s@) is Some,
                        None => false,
                    } || r == Ok::<String, ForgeError>(c.access_token))
                },
            },
        },
{
    match resolve_token(env_token, creds) {
        Ok(Some(t)) => Ok(t),
        Ok(None) => Err(ForgeError::NotAuthenticated),
        Err(e) => Err(e),
    }
}

/// The organization of the saved credentials, when they could be read.
pub fn resolve_org_slug(creds: Option<Credentials>) -> (r: Option<String>)
    ensures
        r == match creds {
            Some(c) => Some(c.org_slug),
            None => None::<String>,
        },
{
    match creds {
        Some(c) => Some(c.org_slug),
        None => None,
    }
}

} // verus!
