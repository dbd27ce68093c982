//! The service configuration and how it is derived from the environment.
use vstd::prelude::*;

use crate::address::{is_listen_host, listen_host_ok};
use crate::errors::{AppError, AppResult, ErrorView};
use crate::text::{ascii_lower_seq, ascii_lowercase, chars_of, str_eq, trim, trim_str};

verus! {

/// The `SameSite` attribute of the session cookie.  `CrossSite` is the
/// attribute value `None`: the cookie is also sent on cross-site requests.
#[derive(Debug, Clone, Copy, PartialEq, Eq)]
pub enum SameSite {
    Strict,
    Lax,
    CrossSite,
}

/// The environment variables that the configuration reads, each `None`
/// where the variable is unset (or not valid Unicode).
#[derive(Debug, Clone, Default)]
pub struct EnvVars {
    pub database_url: Option<String>,
    pub jwt_secret: Option<String>,
    pub frontend_origin: Option<String>,
    pub port: Option<String>,
    pub host: Option<String>,
    pub cookie_secure: Option<String>,
    pub app_env: Option<String>,
    pub cookie_same_site: Option<String>,
}

/// The service configuration.  The listening address is `host:port`.
#[derive(Debug, Clone)]
pub struct AppConfig {
    pub database_url: String,
    pub jwt_secret: String,
    pub frontend_origin: String,
    pub host: String,
    pub port: u16,
    pub cookie_secure: bool,
    pub cookie_same_site: SameSite,
}

/// The value of an optional string.
pub open spec fn opt_view(v: Option<String>) -> Option<Seq<char>> {
    match v {
        Some(s) => Some(s@),
        None => None,
    }
}

/// An ASCII decimal digit.
pub open spec fn is_digit(c: char) -> bool {
    '0' <= c <= '9'
}

/// The number that a sequence of decimal digits writes.
pub open spec fn digits_value(s: Seq<char>) -> int
    decreases s.len(),
{
    if s.len() == 0 {
        0
    } else {
        digits_value(s.drop_last()) * 10 + ((s.last() as u32) - ('0' as u32))
    }
}

/// The text after an optional leading `+`.
pub open spec fn unsigned_digits(s: Seq<char>) -> Seq<char> {
    if s.len() > 0 && s[0] == '+' {
        s.drop_first()
    } else {
        s
    }
}

/// Every character of `s` is a decimal digit.
pub open spec fn all_digits(s: Seq<char>) -> bool {
    forall|i: int| 0 <= i < s.len() ==> is_digit(#[trigger] s[i])
}

/// What `u16::from_str` makes of a text: an optional `+` followed by at
/// least one decimal digit, with a value that fits in 16 bits.
pub open spec fn u16_from_text(s: Seq<char>) -> Option<u16> {
    let d = unsigned_digits(s);
    if d.len() > 0 && all_digits(d) && digits_value(d) <= 65535 {
        Some(digits_value(d) as u16)
    } else {
        None
    }
}

pub proof fn lemma_digits_value_nonneg(s: Seq<char>)
    requires
        forall|i: int| 0 <= i < s.len() ==> is_digit(#[trigger] s[i]),
    ensures
        digits_value(s) >= 0,
    decreases s.len(),
{
    if s.len() > 0 {
        lemma_digits_value_nonneg(s.drop_last());
    }
}

pub proof fn lemma_digits_value_prefix(s: Seq<char>, k: int)
    requires
        0 <= k <= s.len(),
        forall|i: int| 0 <= i < s.len() ==> is_digit(#[trigger] s[i]),
    ensures
        digits_value(s.take(k)) <= digits_value(s),
    decreases s.len(),
{
    if k < s.len() {
        assert(s.drop_last().take(k) =~= s.take(k));
        lemma_digits_value_prefix(s.drop_last(), k);
        lemma_digits_value_nonneg(s.drop_last());
    } else {
        assert(s.take(k) =~= s);
    }
}

/// Parses a port number as `u16::from_str` does.
pub fn parse_port(text: &str) -> (r: Option<u16>)
    ensures
        r == u16_from_text(text@),
{
    let chars = chars_of(text);
    let n = chars.len();
    let start: usize = if n > 0 && chars[0] == '+' {
        1
    } else {
        0
    };
    let ghost d = unsigned_digits(text@);
    assert(d =~= text@.subrange(start as int, n as int));
    if start == n {
        assert(d.len() == 0);
        assert(u16_from_text(text@) is None);
        return None;
    }
    let mut value: u32 = 0;
    let mut i: usize = start;
    while i < n
        invariant
            n == text@.len(),
            chars@ == text@,
            start <= i <= n,
            d =~= text@.subrange(start as int, n as int),
            d == unsigned_digits(text@),
            forall|k: int| start <= k < i ==> is_digit(#[trigger] text@[k]),
            value as int == digits_value(text@.subrange(start as int, i as int)),
            value <= 65535,
        decreases n - i,
    {
        let c = chars[i];
        if !('0' <= c && c <= '9') {
            assert(!is_digit(d[i - start]));
            assert(!all_digits(d));
            assert(u16_from_text(text@) is None);
            return None;
        }
        let digit = (c as u32) - ('0' as u32);
        assert(text@.subrange(start as int, i + 1).drop_last() =~= text@.subrange(
            start as int,
            i as int,
        ));
        let next = value * 10 + digit;
        if next > 65535 {
            proof {
                if all_digits(d) {
                    lemma_digits_value_prefix(d, i + 1 - start);
                    assert(d.take(i + 1 - start) =~= text@.subrange(start as int, i + 1));
                }
            }
            return None;
        }
        value = next;
        i = i + 1;
    }
    assert(all_digits(d)) by {
        assert forall|k: int| 0 <= k < d.len() implies is_digit(#[trigger] d[k]) by {
            assert(d[k] == text@[start + k]);
        }
    }
    Some(value as u16)
}

/// The value of an [`AppConfig`].
pub struct ConfigView {
    pub database_url: Seq<char>,
    pub jwt_secret: Seq<char>,
    pub frontend_origin: Seq<char>,
    pub host: Seq<char>,
    pub port: u16,
    pub cookie_secure: bool,
    pub cookie_same_site: SameSite,
}

impl View for AppConfig {
    type V = ConfigView;

    open spec fn view(&self) -> ConfigView {
        ConfigView {
            database_url: self.database_url@,
            jwt_secret: self.jwt_secret@,
            frontend_origin: self.frontend_origin@,
            host: self.host@,
            port: self.port,
            cookie_secure: self.cookie_secure,
            cookie_same_site: self.cookie_same_site,
        }
    }
}

/// The error for a `COOKIE_SAME_SITE` value that names no policy.
pub open spec fn same_site_error() -> ErrorView {
    ErrorView::Config("COOKIE_SAME_SITE must be one of: lax, strict, none"@)
}

/// The `SameSite` policy a text names, compared without surrounding
/// whitespace and without regard to ASCII case.
pub open spec fn same_site_from_text(v: Seq<char>) -> Result<SameSite, ErrorView> {
    let key = ascii_lower_seq(trim(v));
    if key == "lax"@ {
        Ok(SameSite::Lax)
    } else if key == "strict"@ {
        Ok(SameSite::Strict)
    } else if key == "none"@ {
        Ok(SameSite::CrossSite)
    } else {
        Err(same_site_error())
    }
}

/// Whether the session cookie is marked `Secure`: `COOKIE_SECURE` decides
/// where it is set (`1`, `true`, `TRUE` or `True` mean yes); else it is
/// secure exactly in the `production` environment (in any ASCII case).
pub open spec fn secure_flag(cookie_secure: Option<Seq<char>>, app_env: Option<Seq<char>>) -> bool {
    match cookie_secure {
        Some(v) => v == "1"@ || v == "true"@ || v == "TRUE"@ || v == "True"@,
        None => match app_env {
            Some(e) => ascii_lower_seq(e) == "production"@,
            None => false,
        },
    }
}

/// The `SameSite` policy: the one `COOKIE_SAME_SITE` names where it is
/// set, else `None` for secure cookies and `Lax` for the others.
pub open spec fn same_site_choice(value: Option<Seq<char>>, secure: bool) -> Result<SameSite, ErrorView> {
    match value {
        Some(v) => same_site_from_text(v),
        None => if secure {
            Ok(SameSite::CrossSite)
        } else {
            Ok(SameSite::Lax)
        },
    }
}

/// The error for a host that makes no listening address with the port.
pub open spec fn address_error() -> ErrorView {
    ErrorView::Config("Invalid HOST/PORT combination: invalid socket address syntax"@)
}

/// The host of the listening address: `HOST`, else every IPv4 interface.
pub open spec fn host_of(vars: EnvVars) -> Seq<char> {
    match opt_view(vars.host) {
        Some(h) => h,
        None => "0.0.0.0"@,
    }
}

/// The configuration that the environment gives, or the first error in it:
/// `DATABASE_URL`, `JWT_SECRET` and `FRONTEND_ORIGIN` are required, a
/// `COOKIE_SAME_SITE` that names no policy is refused, and the host must
/// make a socket address with the port.
pub open spec fn config_from_env(vars: EnvVars) -> Result<ConfigView, ErrorView> {
    match (
        opt_view(vars.database_url),
        opt_view(vars.jwt_secret),
        opt_view(vars.frontend_origin),
    ) {
        (None, _, _) => Err(ErrorView::Config("DATABASE_URL is required"@)),
        (Some(_), None, _) => Err(ErrorView::Config("JWT_SECRET is required"@)),
        (Some(_), Some(_), None) => Err(ErrorView::Config("FRONTEND_ORIGIN is required"@)),
        (Some(database_url), Some(jwt_secret), Some(frontend_origin)) => {
            let secure = secure_flag(opt_view(vars.cookie_secure), opt_view(vars.app_env));
            match same_site_choice(opt_view(vars.cookie_same_site), secure) {
                Err(e) => Err(e),
                Ok(same_site) => if !listen_host_ok(host_of(vars)) {
                    Err(address_error())
                } else {
                    Ok(
                        ConfigView {
                            database_url,
                            jwt_secret,
                            frontend_origin,
                            host: host_of(vars),
                            port: match opt_view(vars.port) {
                                Some(p) => match u16_from_text(p) {
                                    Some(n) => n,
                                    None => 8080,
                                },
                                None => 8080,
                            },
                            cookie_secure: secure,
                            cookie_same_site: same_site,
                        },
                    )
                },
            }
        },
    }
}

/// Parses a `COOKIE_SAME_SITE` value: `lax`, `strict` or `none`, in any
/// ASCII case and with surrounding whitespace allowed.
pub fn parse_same_site(value: &str) -> (r: AppResult<SameSite>)
    ensures
        match same_site_from_text(value@) {
            Ok(s) => r == Ok::<SameSite, AppError>(s),
            Err(e) => r matches Err(err) && err@ == e,
        },
{
    let key = ascii_lowercase(trim_str(value));
    if str_eq(key.as_str(), "lax") {
        Ok(SameSite::Lax)
    } else if str_eq(key.as_str(), "strict") {
        Ok(SameSite::Strict)
    } else if str_eq(key.as_str(), "none") {
        Ok(SameSite::CrossSite)
    } else {
        Err(AppError::Config("COOKIE_SAME_SITE must be one of: lax, strict, none".to_owned()))
    }
}

fn secure_cookie_setting(cookie_secure: &Option<String>, app_env: &Option<String>) -> (r: bool)
    ensures
        r == secure_flag(opt_view(*cookie_secure), opt_view(*app_env)),
{
    match cookie_secure {
        Some(v) => {
            let v = v.as_str();
            str_eq(v, "1") || str_eq(v, "true") || str_eq(v, "TRUE") || str_eq(v, "True")
        },
        None => match app_env {
            Some(e) => {
                let lowered = ascii_lowercase(e.as_str());
                str_eq(lowered.as_str(), "production")
            },
            None => false,
        },
    }
}

fn text_or(value: &Option<String>, default: &str) -> (r: String)
    ensures
        r@ == (match opt_view(*value) {
            Some(v) => v,
            None => default@,
        }),
{
    match value {
        Some(v) => v.clone(),
        None => default.to_owned(),
    }
}

impl AppConfig {
    /// The configuration from the environment's variables: `DATABASE_URL`,
    /// `JWT_SECRET` and `FRONTEND_ORIGIN` are required; `HOST` and `PORT`
    /// have defaults (an unparsable port is the default port) and must
    /// together make a socket address; the cookie settings follow
    /// [`secure_flag`] and [`same_site_choice`].
    pub fn from_env(vars: &EnvVars) -> (r: AppResult<AppConfig>)
        ensures
            match config_from_env(*vars) {
                Ok(c) => r matches Ok(config) && config@ == c,
                Err(e) => r matches Err(err) && err@ == e,
            },
    {
        let database_url = match &vars.database_url {
            Some(v) => v.clone(),
            None => {
                return Err(AppError::Config("DATABASE_URL is required".to_owned()));
            },
        };
        let jwt_secret = match &vars.jwt_secret {
            Some(v) => v.clone(),
            None => {
                return Err(AppError::Config("JWT_SECRET is required".to_owned()));
            },
        };
        let frontend_origin = match &vars.frontend_origin {
            Some(v) => v.clone(),
            None => {
                return Err(AppError::Config("FRONTEND_ORIGIN is required".to_owned()));
            },
        };
        let port: u16 = match &vars.port {
            Some(p) => match parse_port(p.as_str()) {
                Some(n) => n,
                None => 8080,
            },
            None => 8080,
        };
        let host = text_or(&vars.host, "0.0.0.0");
        let cookie_secure = secure_cookie_setting(&vars.cookie_secure, &vars.app_env);
        let cookie_same_site = match &vars.cookie_same_site {
            Some(v) => match parse_same_site(v.as_str()) {
                Ok(s) => s,
                Err(e) => {
                    return Err(e);
                },
            },
            None => if cookie_secure {
                SameSite::CrossSite
            } else {
                SameSite::Lax
            },
        };
        if !is_listen_host(host.as_str()) {
            return Err(
                AppError::Config(
                    "Invalid HOST/PORT combination: invalid socket address syntax".to_owned(),
                ),
            );
        }
        Ok(AppConfig {
            database_url,
            jwt_secret,
            frontend_origin,
            host,
            port,
            cookie_secure,
            cookie_same_site,
        })
    }
}

/// A `SameSite` setting that is given decides the policy by its text
/// alone (trimmed, in any ASCII case): `strict`, `lax` and `none` give
/// `Strict`, `Lax` and `None` whatever the `Secure` flag, and any other text
/// is refused.  Without a setting the policy is `None` for secure cookies
/// and `Lax` otherwise.
pub proof fn same_site_follows_its_setting(vars: EnvVars, text: Seq<char>)
    ensures
        config_from_env(vars) matches Ok(c) ==> {
            &&& (vars.cookie_same_site matches Some(v) && ascii_lower_seq(trim(v@)) == "strict"@)
                ==> c.cookie_same_site == SameSite::Strict
            &&& (vars.cookie_same_site matches Some(v) && ascii_lower_seq(trim(v@)) == "lax"@)
                ==> c.cookie_same_site == SameSite::Lax
            &&& (vars.cookie_same_site matches Some(v) && ascii_lower_seq(trim(v@)) == "none"@)
                ==> c.cookie_same_site == SameSite::CrossSite
            &&& vars.cookie_same_site is None ==> c.cookie_same_site == (if c.cookie_secure {
                SameSite::CrossSite
            } else {
                SameSite::Lax
            })
        },
        (vars.cookie_same_site matches Some(v) && ascii_lower_seq(trim(v@)) != "strict"@
            && ascii_lower_seq(trim(v@)) != "lax"@ && ascii_lower_seq(trim(v@)) != "none"@)
            ==> config_from_env(vars) is Err,
        same_site_choice(Some(text), true) == same_site_choice(Some(text), false),
{
    reveal_strlit("strict");
    reveal_strlit("lax");
    reveal_strlit("none");
    assert("strict"@ != "lax"@) by {
        assert("strict"@.len() != "lax"@.len());
    }
    assert("none"@ != "lax"@) by {
        assert("none"@.len() != "lax"@.len());
    }
    assert("none"@ != "strict"@) by {
        assert("none"@.len() != "strict"@.len());
    }
}

} // verus!
