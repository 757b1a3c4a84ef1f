//! Settings of the server, read from the values of its environment variables.
use vstd::prelude::*;
use crate::text::{chars_of, owned};

verus! {

/// The server's settings.
#[derive(Debug)]
pub struct AppConfig {
    pub server_port: u16,
    pub jwt_secret: String,
    pub jwt_expiration: i64,
    pub refresh_token_expiration: i64,
    pub signup_token_expiration: i64,
    pub google_client_id: String,
    pub google_client_secret: String,
    pub kakao_client_id: String,
    pub kakao_client_secret: String,
    pub openai_api_key: String,
    pub rate_limiter_url: String,
    pub rate_limiter_enabled: bool,
}

/// Why the settings cannot be read.
#[derive(Debug, Clone, Copy, PartialEq, Eq, Structural)]
pub enum ConfigError {
    InvalidPort,
    InvalidExpiration,
    MissingJwtSecret,
    MissingGoogleClientSecret,
    MissingKakaoClientSecret,
}

impl ConfigError {
    /// The error's message.
    pub fn message(&self) -> (r: &'static str)
        ensures
            r@ == spec_config_message(*self),
    {
        match self {
            ConfigError::InvalidPort => "Invalid port number",
            ConfigError::InvalidExpiration => "Invalid expiration time",
            ConfigError::MissingJwtSecret => "JWT_SECRET environment variable is required in production",
            ConfigError::MissingGoogleClientSecret => "GOOGLE_CLIENT_SECRET environment variable is required in production",
            ConfigError::MissingKakaoClientSecret => "KAKAO_CLIENT_SECRET environment variable is required in production",
        }
    }
}

pub open spec fn spec_config_message(e: ConfigError) -> Seq<char> {
    match e {
        ConfigError::InvalidPort => "Invalid port number"@,
        ConfigError::InvalidExpiration => "Invalid expiration time"@,
        ConfigError::MissingJwtSecret => "JWT_SECRET environment variable is required in production"@,
        ConfigError::MissingGoogleClientSecret => "GOOGLE_CLIENT_SECRET environment variable is required in production"@,
        ConfigError::MissingKakaoClientSecret => "KAKAO_CLIENT_SECRET environment variable is required in production"@,
    }
}

/// The values of the environment variables the settings come from (`None`: not set).
pub struct EnvValues {
    pub server_port: Option<String>,
    pub jwt_secret: Option<String>,
    pub jwt_expiration: Option<String>,
    pub refresh_token_expiration: Option<String>,
    pub signup_token_expiration: Option<String>,
    pub google_client_id: Option<String>,
    pub google_client_secret: Option<String>,
    pub kakao_client_id: Option<String>,
    pub kakao_client_secret: Option<String>,
    pub openai_api_key: Option<String>,
    pub rate_limiter_url: Option<String>,
    pub rate_limiter_enabled: Option<String>,
}

pub open spec fn is_digit(c: char) -> bool {
    '0' <= c <= '9'
}

/// The value of a string of decimal digits.
pub open spec fn digits_value(s: Seq<char>) -> int
    decreases s.len(),
{
    if s.len() == 0 {
        0
    } else {
        digits_value(s.drop_last()) * 10 + ((s.last() as u32) - 48)
    }
}

/// What `str::parse` reads as an integer, before the range check: an optional sign (`+`, or
/// `-` when `signed`) and then one or more ASCII digits.
pub open spec fn spec_parse_int(s: Seq<char>, signed: bool) -> Option<int> {
    let body = number_body(s, signed);
    if body.len() > 0 && all_digits(body) {
        Some(if is_negative(s, signed) {
            -digits_value(body)
        } else {
            digits_value(body)
        })
    } else {
        None
    }
}

/// The number has a minus sign (allowed only when `signed`).
pub open spec fn is_negative(s: Seq<char>, signed: bool) -> bool {
    signed && s.len() > 0 && s[0] == '-'
}

/// The number without its sign.
pub open spec fn number_body(s: Seq<char>, signed: bool) -> Seq<char> {
    if s.len() > 0 && (s[0] == '+' || is_negative(s, signed)) {
        s.drop_first()
    } else {
        s
    }
}

pub open spec fn all_digits(s: Seq<char>) -> bool {
    forall|i: int| 0 <= i < s.len() ==> is_digit(#[trigger] s[i])
}

/// `s.parse::<u16>()`.
pub open spec fn spec_parse_u16(s: Seq<char>) -> Option<u16> {
    match spec_parse_int(s, false) {
        Some(v) => if 0 <= v <= u16::MAX {
            Some(v as u16)
        } else {
            None
        },
        None => None,
    }
}

/// `s.parse::<i64>()`.
pub open spec fn spec_parse_i64(s: Seq<char>) -> Option<i64> {
    match spec_parse_int(s, true) {
        Some(v) => if i64::MIN <= v <= i64::MAX {
            Some(v as i64)
        } else {
            None
        },
        None => None,
    }
}

/// `s.parse::<bool>()`.
pub open spec fn spec_parse_bool(s: Seq<char>) -> Option<bool> {
    if s == "true"@ {
        Some(true)
    } else if s == "false"@ {
        Some(false)
    } else {
        None
    }
}

pub open spec fn or_default(v: Option<String>, d: Seq<char>) -> Seq<char> {
    match v {
        Some(s) => s@,
        None => d,
    }
}

proof fn lemma_digits_value_bound(s: Seq<char>)
    requires
        forall|i: int| 0 <= i < s.len() ==> is_digit(#[trigger] s[i]),
    ensures
        digits_value(s) >= 0,
    decreases s.len(),
{
    if s.len() > 0 {
        lemma_digits_value_bound(s.drop_last());
    }
}

proof fn lemma_prefix_grows(s: Seq<char>, k: int)
    requires
        forall|i: int| 0 <= i < s.len() ==> is_digit(#[trigger] s[i]),
        0 <= k <= s.len(),
    ensures
        digits_value(s.take(k)) <= digits_value(s),
    decreases s.len(),
{
    if k < s.len() {
        let t = s.drop_last();
        assert forall|i: int| 0 <= i < t.len() implies is_digit(#[trigger] t[i]) by {
            assert(t[i] == s[i]);
        }
        lemma_prefix_grows(t, k);
        assert(t.take(k) =~= s.take(k));
        lemma_digits_value_bound(t);
    } else {
        assert(s.take(k) =~= s);
    }
}

/// Reads an integer as `str::parse` does: `Some((negative, magnitude))` when it is well
/// formed with a magnitude of at most `limit`.
fn parse_int(s: &str, signed: bool, limit: u64) -> (r: Option<(bool, u64)>)
    requires
        limit <= 0x8000_0000_0000_0000u64,
    ensures
        r matches Some((neg, mag)) ==> spec_parse_int(s@, signed) == Some(if neg {
            -(mag as int)
        } else {
            mag as int
        }) && mag <= limit && (neg ==> signed),
        r is None ==> match spec_parse_int(s@, signed) {
            Some(v) => v > limit || v < -(limit as int),
            None => true,
        },
{
    let v = chars_of(s);
    let n = v.len();
    let neg = signed && n > 0 && v[0] == '-';
    let start: usize = if n > 0 && (v[0] == '+' || neg) {
        1
    } else {
        0
    };
    let ghost body = number_body(s@, signed);
    assert(neg == is_negative(s@, signed));
    assert(body =~= s@.subrange(start as int, n as int));
    if start == n {
        return None;
    }
    let mut k: usize = start;
    while k < n
        invariant
            v@ == s@,
            n == v@.len(),
            start <= k <= n,
            body == s@.subrange(start as int, n as int),
            body == number_body(s@, signed),
            neg == is_negative(s@, signed),
            forall|j: int| start <= j < k ==> is_digit(#[trigger] s@[j]),
        decreases n - k,
    {
        if !('0' <= v[k] && v[k] <= '9') {
            assert(body[k - start] == s@[k as int]);
            assert(!is_digit(body[k - start]));
            assert(!all_digits(body));
            assert(spec_parse_int(s@, signed) is None);
            return None;
        }
        k = k + 1;
    }
    assert forall|j: int| 0 <= j < body.len() implies is_digit(#[trigger] body[j]) by {
        assert(body[j] == s@[j + start]);
    }
    assert(all_digits(body));
    let mut acc: u128 = 0;
    let mut i: usize = start;
    while i < n
        invariant
            v@ == s@,
            n == v@.len(),
            start <= i <= n,
            body == s@.subrange(start as int, n as int),
            body == number_body(s@, signed),
            neg == is_negative(s@, signed),
            forall|j: int| 0 <= j < body.len() ==> is_digit(#[trigger] body[j]),
            acc as int == digits_value(body.take(i - start)),
            acc <= limit,
            limit <= 0x8000_0000_0000_0000u64,
        decreases n - i,
    {
        let c = v[i];
        assert(c == body[i - start]);
        assert(is_digit(body[i - start]));
        let d = (c as u32 - 48) as u128;
        assert(body.take(i + 1 - start).drop_last() =~= body.take(i - start));
        assert(body.take(i + 1 - start).last() == c);
        acc = acc * 10 + d;
        i = i + 1;
        assert(acc as int == digits_value(body.take(i - start)));
        if acc > limit as u128 {
            proof {
                lemma_prefix_grows(body, i - start);
                assert(digits_value(body) > limit);
                assert(spec_parse_int(s@, signed) == Some(if neg {
                    -digits_value(body)
                } else {
                    digits_value(body)
                }));
            }
            return None;
        }
    }
    assert(body.take(n - start) =~= body);
    Some((neg, acc as u64))
}

/// `s.parse::<u16>()`.
pub fn parse_u16(s: &str) -> (r: Option<u16>)
    ensures
        r == spec_parse_u16(s@),
{
    match parse_int(s, false, 65535) {
        Some((_, mag)) => Some(mag as u16),
        None => None,
    }
}

/// `s.parse::<i64>()`.
pub fn parse_i64(s: &str) -> (r: Option<i64>)
    ensures
        r == spec_parse_i64(s@),
{
    match parse_int(s, true, 0x8000_0000_0000_0000u64) {
        Some((neg, mag)) => {
            if neg {
                if mag == 0x8000_0000_0000_0000u64 {
                    Some(i64::MIN)
                } else {
                    Some(-(mag as i64))
                }
            } else if mag > i64::MAX as u64 {
                None
            } else {
                Some(mag as i64)
            }
        },
        None => None,
    }
}

fn same_text(a: &str, b: &str) -> (r: bool)
    ensures
        r == (a@ == b@),
{
    a.to_owned() == b.to_owned()
}

/// `s.parse::<bool>()`.
pub fn parse_bool(s: &str) -> (r: Option<bool>)
    ensures
        r == spec_parse_bool(s@),
{
    if same_text(s, "true") {
        Some(true)
    } else if same_text(s, "false") {
        Some(false)
    } else {
        None
    }
}

/// The first reason, in the order the settings are read, why they cannot be read; `None` when
/// they can. `dev_defaults` lets missing secrets default (a development build).
pub open spec fn config_error(e: EnvValues, dev_defaults: bool) -> Option<ConfigError> {
    if spec_parse_u16(or_default(e.server_port, "8080"@)) is None {
        Some(ConfigError::InvalidPort)
    } else if e.jwt_secret is None && !dev_defaults {
        Some(ConfigError::MissingJwtSecret)
    } else if spec_parse_i64(or_default(e.jwt_expiration, "1800"@)) is None || spec_parse_i64(
        or_default(e.refresh_token_expiration, "1209600"@),
    ) is None || spec_parse_i64(or_default(e.signup_token_expiration, "600"@)) is None {
        Some(ConfigError::InvalidExpiration)
    } else if e.google_client_secret is None && !dev_defaults {
        Some(ConfigError::MissingGoogleClientSecret)
    } else if e.kakao_client_secret is None && !dev_defaults {
        Some(ConfigError::MissingKakaoClientSecret)
    } else {
        None
    }
}

/// The settings read from `e` (when `config_error` gives none).
pub open spec fn config_matches(c: AppConfig, e: EnvValues) -> bool {
    &&& Some(c.server_port) == spec_parse_u16(or_default(e.server_port, "8080"@))
    &&& c.jwt_secret@ == or_default(e.jwt_secret, "secret"@)
    &&& Some(c.jwt_expiration) == spec_parse_i64(or_default(e.jwt_expiration, "1800"@))
    &&& Some(c.refresh_token_expiration) == spec_parse_i64(or_default(e.refresh_token_expiration, "1209600"@))
    &&& Some(c.signup_token_expiration) == spec_parse_i64(or_default(e.signup_token_expiration, "600"@))
    &&& c.google_client_id@ == or_default(e.google_client_id, Seq::empty())
    &&& c.google_client_secret@ == or_default(e.google_client_secret, Seq::empty())
    &&& c.kakao_client_id@ == or_default(e.kakao_client_id, Seq::empty())
    &&& c.kakao_client_secret@ == or_default(e.kakao_client_secret, Seq::empty())
    &&& c.openai_api_key@ == or_default(e.openai_api_key, "test-key"@)
    &&& c.rate_limiter_url@ == or_default(e.rate_limiter_url, "http://localhost:8082"@)
    &&& c.rate_limiter_enabled == match spec_parse_bool(or_default(e.rate_limiter_enabled, "true"@)) {
        Some(b) => b,
        None => true,
    }
}

fn value_or(v: &Option<String>, d: &str) -> (r: String)
    ensures
        r@ == or_default(*v, d@),
{
    match v {
        Some(s) => s.clone(),
        None => owned(d),
    }
}

impl AppConfig {
    /// Reads the settings from the values of their environment variables, with their
    /// defaults: port 8080, token lifetimes of 1800, 1209600 and 600 seconds, the AI key
    /// `test-key`, the rate limiter at `http://localhost:8082` and switched on. Missing
    /// secrets are refused unless `dev_defaults` (then the JWT secret is `secret` and the
    /// others empty).
    pub fn from_values(e: &EnvValues, dev_defaults: bool) -> (r: Result<AppConfig, ConfigError>)
        ensures
            config_error(*e, dev_defaults) matches Some(err) ==> r == Err::<AppConfig, ConfigError>(err),
            config_error(*e, dev_defaults) is None ==> (r matches Ok(c) && config_matches(c, *e)),
    {
        let port_text = value_or(&e.server_port, "8080");
        let server_port = match parse_u16(port_text.as_str()) {
            Some(p) => p,
            None => {
                return Err(ConfigError::InvalidPort);
            },
        };
        if e.jwt_secret.is_none() && !dev_defaults {
            return Err(ConfigError::MissingJwtSecret);
        }
        let jwt_secret = value_or(&e.jwt_secret, "secret");
        let a = value_or(&e.jwt_expiration, "1800");
        let jwt_expiration = match parse_i64(a.as_str()) {
            Some(v) => v,
            None => {
                return Err(ConfigError::InvalidExpiration);
            },
        };
        let b = value_or(&e.refresh_token_expiration, "1209600");
        let refresh_token_expiration = match parse_i64(b.as_str()) {
            Some(v) => v,
            None => {
                return Err(ConfigError::InvalidExpiration);
            },
        };
        let c = value_or(&e.signup_token_expiration, "600");
        let signup_token_expiration = match parse_i64(c.as_str()) {
            Some(v) => v,
            None => {
                return Err(ConfigError::InvalidExpiration);
            },
        };
        if e.google_client_secret.is_none() && !dev_defaults {
            return Err(ConfigError::MissingGoogleClientSecret);
        }
        if e.kakao_client_secret.is_none() && !dev_defaults {
            return Err(ConfigError::MissingKakaoClientSecret);
        }
        proof {
            reveal_strlit("");
        }
        let enabled_text = value_or(&e.rate_limiter_enabled, "true");
        let rate_limiter_enabled = match parse_bool(enabled_text.as_str()) {
            Some(v) => v,
            None => true,
        };
        let cfg = AppConfig {
            server_port,
            jwt_secret,
            jwt_expiration,
            refresh_token_expiration,
            signup_token_expiration,
            google_client_id: value_or(&e.google_client_id, ""),
            google_client_secret: value_or(&e.google_client_secret, ""),
            kakao_client_id: value_or(&e.kakao_client_id, ""),
            kakao_client_secret: value_or(&e.kakao_client_secret, ""),
            openai_api_key: value_or(&e.openai_api_key, "test-key"),
            rate_limiter_url: value_or(&e.rate_limiter_url, "http://localhost:8082"),
            rate_limiter_enabled,
        };
        assert(Some(cfg.server_port) == spec_parse_u16(or_default(e.server_port, "8080"@)));
        assert(cfg.jwt_secret@ == or_default(e.jwt_secret, "secret"@));
        assert(Some(cfg.jwt_expiration) == spec_parse_i64(or_default(e.jwt_expiration, "1800"@)));
        assert(cfg.google_client_id@ == or_default(e.google_client_id, Seq::empty()));
        assert(cfg.google_client_secret@ == or_default(e.google_client_secret, Seq::empty()));
        assert(cfg.kakao_client_id@ == or_default(e.kakao_client_id, Seq::empty()));
        assert(cfg.kakao_client_secret@ == or_default(e.kakao_client_secret, Seq::empty()));
        assert(Some(cfg.refresh_token_expiration) == spec_parse_i64(or_default(e.refresh_token_expiration, "1209600"@)));
        assert(Some(cfg.signup_token_expiration) == spec_parse_i64(or_default(e.signup_token_expiration, "600"@)));
        assert(cfg.openai_api_key@ == or_default(e.openai_api_key, "test-key"@));
        assert(cfg.rate_limiter_url@ == or_default(e.rate_limiter_url, "http://localhost:8082"@));
        assert(config_matches(cfg, *e));
        assert(cfg.rate_limiter_enabled == match spec_parse_bool(or_default(e.rate_limiter_enabled, "true"@)) {
            Some(b) => b,
            None => true,
        });
        Ok(cfg)
    }
}

} // verus!
