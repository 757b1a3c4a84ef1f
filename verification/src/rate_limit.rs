//! Request limits: the per-user limits on the AI features, the global per-IP limit kept by
//! the distributed rate-limiter service, and request ids.
use vstd::prelude::*;
use std::num::NonZeroU32;
use governor::clock::DefaultClock;
use governor::state::keyed::DefaultKeyedStateStore;
use governor::{Quota, RateLimiter};
use crate::error::AppError;
use crate::text::{trim, trim_str, chars_of, owned};

verus! {

/// The rate-limiter service's answer to a check.
#[derive(Debug, Clone, Copy)]
pub struct RateLimitCheckResponse {
    pub allowed: bool,
    pub remaining: i64,
    pub retry_after_seconds: i64,
}

/// The id a request is known by in logs and in the `x-request-id` header.
pub struct RequestId(pub String);

/// The AI features that have their own per-user limit.
#[derive(Debug, Clone, Copy, PartialEq, Eq, Structural)]
pub enum AiFeature {
    Analysis,
    Guide,
}

/// A keyed rate limiter of `governor`, counting each key separately. The limiter is held in a
/// private field whose contents no contract looks into; only the quota it was made with is
/// named (`limiter_quota`).
#[verifier::external_body]
pub struct KeyedLimiter {
    inner: RateLimiter<String, DefaultKeyedStateStore<String>, DefaultClock>,
}

/// The `governor::Quota` a limiter was made with: the time in nanoseconds after which one
/// more cell may pass (`replenish_interval`), and the largest burst (`burst_size`).
pub uninterp spec fn limiter_quota(l: KeyedLimiter) -> (u64, u32);

/// A keyed limiter (`RateLimiter::keyed`) with the quota `Quota::per_minute(per_minute)
/// .allow_burst(burst)`: one cell every `60 s / per_minute` (in whole nanoseconds) per key,
/// bursts of at most `burst`, as the quota's source computes it.
#[verifier::external_body]
fn per_minute_limiter(per_minute: u32, burst: u32) -> (r: KeyedLimiter)
    requires
        per_minute > 0,
        burst > 0,
    ensures
        limiter_quota(r) == ((60_000_000_000u64 / per_minute as u64), burst),
{
    let quota = Quota::per_minute(NonZeroU32::new(per_minute).unwrap()).allow_burst(NonZeroU32::new(burst).unwrap());
    KeyedLimiter { inner: RateLimiter::keyed(quota) }
}

/// A keyed limiter (`RateLimiter::keyed`) with the quota `Quota::per_second(per_second)`: one
/// cell every `1 s / per_second` (in whole nanoseconds) per key, bursts of at most
/// `per_second`, as the quota's source computes it.
#[verifier::external_body]
fn per_second_limiter(per_second: u32) -> (r: KeyedLimiter)
    requires
        per_second > 0,
    ensures
        limiter_quota(r) == ((1_000_000_000u64 / per_second as u64), per_second),
{
    KeyedLimiter { inner: RateLimiter::keyed(Quota::per_second(NonZeroU32::new(per_second).unwrap())) }
}

/// `RateLimiter::check_key`: whether one more cell under `key` may pass now (and, if so,
/// counts it). It depends on the clock and on earlier calls, so nothing is promised.
#[verifier::external_body]
fn check_key(limiter: &KeyedLimiter, key: &String) -> bool {
    limiter.inner.check_key(key).is_ok()
}

/// One limiter was consulted: the quota it was made with and the key counted under it.
fn consult(limiter: &KeyedLimiter, key: &String) -> (r: (bool, Ghost<((u64, u32), Seq<char>)>))
    ensures
        r.1@ == (limiter_quota(*limiter), key@),
{
    (check_key(limiter, key), Ghost((limiter_quota(*limiter), key@)))
}

/// The quota of each feature's own per-user limit, as `(replenish interval in ns, burst)`.
pub open spec fn feature_quota(feature: AiFeature) -> (u64, u32) {
    match feature {
        AiFeature::Analysis => (12_000_000_000u64, 3u32),
        AiFeature::Guide => (6_000_000_000u64, 10u32),
    }
}

/// The quota of the limit shared by all calls to the AI service.
pub open spec fn global_quota() -> (u64, u32) {
    (50_000_000u64, 20u32)
}

/// The limits on the AI features: per user for analyses (5 a minute, bursts of 3) and
/// guides (10 a minute), and one shared by every call to the AI service (20 a second).
pub struct AiRateLimiters {
    analysis: KeyedLimiter,
    guide: KeyedLimiter,
    openai_global: KeyedLimiter,
}

impl AiRateLimiters {
    #[verifier::type_invariant]
    spec fn made_with_fixed_quotas(self) -> bool {
        self.quotas() == (feature_quota(AiFeature::Analysis), feature_quota(AiFeature::Guide), global_quota())
    }

    /// The quotas of the three limiters, as `(replenish interval in ns, burst)`: per-user
    /// analyses, per-user guides, and the shared AI-service limit.
    pub closed spec fn quotas(&self) -> ((u64, u32), (u64, u32), (u64, u32)) {
        (limiter_quota(self.analysis), limiter_quota(self.guide), limiter_quota(self.openai_global))
    }

    /// Fresh limiters, with nothing counted yet: analyses 5 a minute per user (one every 12 s)
    /// in bursts of at most 3, guides 10 a minute per user (one every 6 s) in bursts of 10,
    /// and 20 calls a second (one every 50 ms) to the AI service in all.
    pub fn new() -> (r: Self)
        ensures
            r.quotas() == ((12_000_000_000u64, 3u32), (6_000_000_000u64, 10u32), (50_000_000u64, 20u32)),
    {
        AiRateLimiters {
            analysis: per_minute_limiter(5, 3),
            guide: per_minute_limiter(10, 10),
            openai_global: per_second_limiter(20),
        }
    }

    /// Counts a request for `feature` by `user_id`: first against the feature's per-user limit
    /// under the user's key, then, if that let it through, against the shared limit under
    /// `openai`. Also gives, as a ghost record, the limiters consulted in order: each one's
    /// quota and the key counted.
    fn check(&self, feature: AiFeature, user_id: i64) -> (r: (Result<(), AppError>, Ghost<Seq<((u64, u32), Seq<char>)>>))
        ensures
            r.0 matches Err(e) ==> ai_limit_error(feature, e),
            r.1@.len() >= 1,
            r.1@[0] == (feature_quota(feature), crate::text::dec_int(user_id as int)),
            r.1@.len() == 1 ==> (r.0 matches Err(AppError::RateLimitExceeded(m)) && m@ == user_limit_message(feature)),
            r.1@.len() == 2 ==> r.1@[1] == (global_quota(), "openai"@),
            r.1@.len() <= 2,
    {
        proof {
            use_type_invariant(self);
        }
        let user_key = user_limit_key(user_id);
        let (user_ok, user_seen) = match feature {
            AiFeature::Analysis => consult(&self.analysis, &user_key),
            AiFeature::Guide => consult(&self.guide, &user_key),
        };
        let ghost trace = seq![user_seen@];
        match ai_user_verdict(feature, user_ok) {
            Ok(()) => {},
            Err(e) => {
                return (Err(e), Ghost(trace));
            },
        }
        let global_key = "openai".to_owned();
        let (global_ok, global_seen) = consult(&self.openai_global, &global_key);
        proof {
            reveal_strlit("openai");
        }
        (ai_global_verdict(global_ok), Ghost(trace.push(global_seen@)))
    }

    /// Counts an analysis by `user_id` against their limit, then against the shared one;
    /// refused with the message of the limit that was hit.
    pub fn check_analysis(&self, user_id: i64) -> (r: Result<(), AppError>)
        ensures
            r matches Err(e) ==> ai_limit_error(AiFeature::Analysis, e),
    {
        self.check(AiFeature::Analysis, user_id).0
    }

    /// Counts a guide request by `user_id` against their limit, then against the shared one;
    /// refused with the message of the limit that was hit.
    pub fn check_guide(&self, user_id: i64) -> (r: Result<(), AppError>)
        ensures
            r matches Err(e) ==> ai_limit_error(AiFeature::Guide, e),
    {
        self.check(AiFeature::Guide, user_id).0
    }
}

/// The refusals an AI limit can give: the feature's own limit, or the shared one.
pub open spec fn ai_limit_error(feature: AiFeature, e: AppError) -> bool {
    match e {
        AppError::RateLimitExceeded(m) => m@ == user_limit_message(feature)
            || m@ == "AI 서비스가 일시적으로 과부하 상태입니다. 잠시 후 다시 시도해주세요."@,
        _ => false,
    }
}

pub open spec fn user_limit_message(feature: AiFeature) -> Seq<char> {
    match feature {
        AiFeature::Analysis => "AI 분석 요청 한도를 초과했습니다. 1분 후 다시 시도해주세요."@,
        AiFeature::Guide => "AI 가이드 요청 한도를 초과했습니다. 1분 후 다시 시도해주세요."@,
    }
}

/// The part of `s` before its first comma (all of it when there is none).
pub open spec fn before_comma(s: Seq<char>) -> Seq<char> {
    if exists|i: int| 0 <= i < s.len() && s[i] == ',' {
        let i = choose|i: int| 0 <= i < s.len() && s[i] == ',' && forall|j: int| 0 <= j < i ==> s[j] != ',';
        s.subrange(0, i)
    } else {
        s
    }
}

/// The client address a request is counted under: the first entry of `x-forwarded-for`
/// (trimmed), else `x-real-ip`, else `unknown`.
pub open spec fn spec_client_ip(forwarded_for: Option<Seq<char>>, real_ip: Option<Seq<char>>) -> Seq<char> {
    match forwarded_for {
        Some(f) => trim(before_comma(f)),
        None => match real_ip {
            Some(r) => r,
            None => "unknown"@,
        },
    }
}

pub open spec fn opt_str_view(o: Option<&str>) -> Option<Seq<char>> {
    match o {
        Some(s) => Some(s@),
        None => None,
    }
}

/// A fresh random (version 4) UUID in its hyphenated form. It is random: only its length,
/// 36 characters, is promised.
#[verifier::external_body]
fn new_uuid_v4() -> (r: String)
    ensures
        r@.len() == 36,
{
    uuid::Uuid::new_v4().to_string()
}

/// The per-user limit of an AI feature was hit (`allowed` is the limiter's verdict).
pub fn ai_user_verdict(feature: AiFeature, allowed: bool) -> (r: Result<(), AppError>)
    ensures
        allowed ==> r is Ok,
        !allowed && feature == AiFeature::Analysis ==> (r matches Err(AppError::RateLimitExceeded(m))
            && m@ == "AI 분석 요청 한도를 초과했습니다. 1분 후 다시 시도해주세요."@),
        !allowed && feature == AiFeature::Guide ==> (r matches Err(AppError::RateLimitExceeded(m))
            && m@ == "AI 가이드 요청 한도를 초과했습니다. 1분 후 다시 시도해주세요."@),
{
    if allowed {
        return Ok(());
    }
    match feature {
        AiFeature::Analysis => Err(AppError::RateLimitExceeded(
            "AI 분석 요청 한도를 초과했습니다. 1분 후 다시 시도해주세요.".to_owned(),
        )),
        AiFeature::Guide => Err(AppError::RateLimitExceeded(
            "AI 가이드 요청 한도를 초과했습니다. 1분 후 다시 시도해주세요.".to_owned(),
        )),
    }
}

/// The limit shared by all calls to the AI service was hit.
pub fn ai_global_verdict(allowed: bool) -> (r: Result<(), AppError>)
    ensures
        allowed ==> r is Ok,
        !allowed ==> (r matches Err(AppError::RateLimitExceeded(m))
            && m@ == "AI 서비스가 일시적으로 과부하 상태입니다. 잠시 후 다시 시도해주세요."@),
{
    if allowed {
        Ok(())
    } else {
        Err(AppError::RateLimitExceeded("AI 서비스가 일시적으로 과부하 상태입니다. 잠시 후 다시 시도해주세요.".to_owned()))
    }
}

/// The key under which the limiter counts a user: their id in decimal.
pub fn user_limit_key(user_id: i64) -> (r: String)
    ensures
        r@ == crate::text::dec_int(user_id as int),
{
    crate::text::int_to_string(user_id)
}

/// The address a request is counted under (see [`spec_client_ip`]).
pub fn client_ip(forwarded_for: Option<&str>, real_ip: Option<&str>) -> (r: String)
    ensures
        r@ == spec_client_ip(opt_str_view(forwarded_for), opt_str_view(real_ip)),
{
    match forwarded_for {
        Some(f) => {
            let v = chars_of(f);
            let mut i: usize = 0;
            while i < v.len() && v[i] != ','
                invariant
                    v@ == f@,
                    i <= v@.len(),
                    forall|j: int| 0 <= j < i ==> v@[j] != ',',
                decreases v@.len() - i,
            {
                i = i + 1;
            }
            proof {
                if i < v@.len() {
                    let c = choose|c: int| 0 <= c < f@.len() && f@[c] == ',' && forall|j: int| 0 <= j < c ==> f@[j] != ',';
                    assert(c == i) by {
                        if c < i {
                            assert(v@[c] != ',');
                        } else if c > i {
                            assert(f@[i as int] == ',');
                        }
                    }
                } else {
                    assert(f@.subrange(0, i as int) =~= f@);
                }
            }
            let first = vstd::string::StrSliceExecFns::substring_char(f, 0, i);
            owned(trim_str(first))
        },
        None => match real_ip {
            Some(r) => owned(r),
            None => "unknown".to_owned(),
        },
    }
}

/// The key of the global per-address limit.
pub fn global_limit_key(ip: &str) -> (r: String)
    ensures
        r@ == "global_api:ip:"@ + ip@,
{
    let mut k = "global_api:ip:".to_owned();
    k.append(ip);
    k
}

/// The rate-limiter service's check address for `key` under `algorithm`; `None` while the
/// service is switched off (the request then goes through).
pub fn limit_check_url(enabled: bool, base_url: &str, key: &str, algorithm: &str) -> (r: Option<String>)
    ensures
        !enabled ==> r is None,
        enabled ==> (r matches Some(u) && u@ == base_url@ + "/api/v1/rate-limit/check?key="@ + key@
            + "&algorithm="@ + algorithm@),
{
    if !enabled {
        return None;
    }
    let mut u = owned(base_url);
    u.append("/api/v1/rate-limit/check?key=");
    u.append(key);
    u.append("&algorithm=");
    u.append(algorithm);
    Some(u)
}

/// Refuse (with the wait in seconds) when the service answered and did not allow the request.
pub open spec fn spec_limit_decision(reply: Option<RateLimitCheckResponse>) -> Option<i64> {
    match reply {
        Some(c) => if c.allowed {
            None
        } else {
            Some(c.retry_after_seconds)
        },
        None => None,
    }
}

/// What the global limit does with a request: `Some(retry_after)` refuses it (status 429,
/// `Retry-After` in seconds); `None` lets it through. Without an answer from the service
/// (it failed or is off) the request goes through.
pub fn global_limit_decision(reply: Option<RateLimitCheckResponse>) -> (r: Option<i64>)
    ensures
        r == spec_limit_decision(reply),
{
    match reply {
        Some(c) => if c.allowed {
            None
        } else {
            Some(c.retry_after_seconds)
        },
        None => None,
    }
}

/// The code and message of the answer to a refused request.
pub fn limit_exceeded_body() -> (r: (String, String))
    ensures
        r.0@ == "RATE4291"@,
        r.1@ == "요청 한도를 초과했습니다. 잠시 후 다시 시도해주세요."@,
{
    ("RATE4291".to_owned(), "요청 한도를 초과했습니다. 잠시 후 다시 시도해주세요.".to_owned())
}

/// The request's id: the one it came with in `x-request-id`, else a fresh UUID.
pub fn request_id(header: Option<&str>) -> (r: RequestId)
    ensures
        header matches Some(h) ==> r.0@ == h@,
        header is None ==> r.0@.len() == 36,
{
    match header {
        Some(h) => RequestId(owned(h)),
        None => RequestId(new_uuid_v4()),
    }
}

/// The global limit fails open, and refuses only on the service's word: a request is refused
/// exactly when the service answered and did not allow it.
pub proof fn law_limit_fails_open(reply: Option<RateLimitCheckResponse>)
    ensures
        spec_limit_decision(reply) is Some <==> (reply matches Some(c) && !c.allowed),
        reply is None ==> spec_limit_decision(reply) is None,
{
}

} // verus!
