//! The indexer's fixed configuration, its request pacing and its limits.

use vstd::prelude::*;
use crate::plugin::{opt_chars, config_text, config_value};
use crate::text::{parse_u64, parse_unsigned, int_error_text, push_all, decimal, u64_to_string};

verus! {

/// The root of the AniNZB API.
pub open spec fn api_base_url() -> Seq<char> {
    "https://api.aninzb.moe/"@
}

/// The host of the AniNZB API.
pub open spec fn api_host() -> Seq<char> {
    "api.aninzb.moe"@
}

/// The default of the retained legacy `base_url` setting.
pub open spec fn legacy_base_url_default() -> Seq<char> {
    "https://aninzb.moe"@
}

/// The user agent that the API is called with.
pub open spec fn user_agent() -> Seq<char> {
    "Mozilla/5.0 (Windows NT 10.0; Win64; x64) AppleWebKit/537.36 (KHTML, like Gecko) Chrome/124.0.0.0 Safari/537.36"@
}

/// The most results the API returns for one query.
pub const API_MAX_RESULTS: usize = 50;

/// The largest API answer that is read, in bytes (20 MiB).
pub const MAX_API_RESPONSE_BYTES: usize = 20971520;

/// How many API requests may be made per second.
pub const API_REQUESTS_PER_SECOND: u32 = 2;

/// The least time between two API requests, in milliseconds.
pub const API_REQUEST_INTERVAL_MILLIS: u64 = 500;

/// The default hourly budget of API hits.
pub const DEFAULT_HOURLY_HIT_CAP: u32 = 500;

/// The default daily budget of API hits.
pub const DEFAULT_DAILY_HIT_CAP: u32 = 3000;

/// The settings of earlier versions of the indexer, which are read and ignored.
#[derive(Debug, Clone)]
pub struct LegacyAniNzbConfig {
    pub base_url: Option<String>,
    pub api_key_present: bool,
    pub api_path: Option<String>,
    pub additional_params: Option<String>,
    pub hourly_hit_cap: Option<String>,
    pub daily_hit_cap: Option<String>,
}

impl LegacyAniNzbConfig {
    /// The legacy settings read from their raw values (each trimmed and absent
    /// when blank; only the presence of an API key is kept).
    pub fn from_config_values(
        base_url: Option<String>,
        api_key: Option<String>,
        api_path: Option<String>,
        additional_params: Option<String>,
        hourly_hit_cap: Option<String>,
        daily_hit_cap: Option<String>,
    ) -> (c: LegacyAniNzbConfig)
        ensures
            opt_chars(c.base_url) == config_text(opt_chars(base_url)),
            c.api_key_present == config_text(opt_chars(api_key)) is Some,
            opt_chars(c.api_path) == config_text(opt_chars(api_path)),
            opt_chars(c.additional_params) == config_text(opt_chars(additional_params)),
            opt_chars(c.hourly_hit_cap) == config_text(opt_chars(hourly_hit_cap)),
            opt_chars(c.daily_hit_cap) == config_text(opt_chars(daily_hit_cap)),
    {
        LegacyAniNzbConfig {
            base_url: config_value(base_url),
            api_key_present: config_value(api_key).is_some(),
            api_path: config_value(api_path),
            additional_params: config_value(additional_params),
            hourly_hit_cap: config_value(hourly_hit_cap),
            daily_hit_cap: config_value(daily_hit_cap),
        }
    }

    /// Whether any legacy setting was given.
    pub fn is_present(&self) -> (r: bool)
        ensures
            r == (self.base_url is Some || self.api_key_present || self.api_path is Some
                || self.additional_params is Some || self.hourly_hit_cap is Some
                || self.daily_hit_cap is Some),
    {
        self.base_url.is_some() || self.api_key_present || self.api_path.is_some()
            || self.additional_params.is_some() || self.hourly_hit_cap.is_some()
            || self.daily_hit_cap.is_some()
    }
}

/// The hit budget that the shared HTTP layer enforces.
#[derive(Debug)]
pub struct HitBudget {
    pub var_key: String,
    pub hourly_limit: u32,
    pub daily_limit: u32,
}

/// How the shared Newznab HTTP layer calls the API.
#[derive(Debug)]
pub struct HttpBehavior {
    pub plugin_id: String,
    pub user_agent: String,
    pub pre_request_delay_millis: u64,
    pub retry_total_budget_seconds: u64,
    pub retry_default_delay_seconds: u64,
    pub retry_max_delay_seconds: u64,
    pub retry_max_attempts: u32,
    pub max_search_pages: u32,
    pub hit_budget: Option<HitBudget>,
}

/// Whether `h` is the fixed HTTP behaviour of the indexer.
pub open spec fn is_fixed_behavior(h: HttpBehavior) -> bool {
    &&& h.plugin_id@ == "aninzb"@
    &&& h.user_agent@ == user_agent()
    &&& h.pre_request_delay_millis == 0
    &&& h.retry_total_budget_seconds == 300
    &&& h.retry_default_delay_seconds == 60
    &&& h.retry_max_delay_seconds == 300
    &&& h.retry_max_attempts == 5
    &&& h.max_search_pages == 1
    &&& h.hit_budget matches Some(b) && b.var_key@ == "aninzb.http_hits"@ && b.hourly_limit
        == DEFAULT_HOURLY_HIT_CAP && b.daily_limit == DEFAULT_DAILY_HIT_CAP
}

/// The configuration the indexer runs with: always the fixed public API and
/// its fixed HTTP behaviour.
#[derive(Debug)]
pub struct AniNzbConfig {
    api_base_url: String,
    http_behavior: HttpBehavior,
}

impl AniNzbConfig {
    #[verifier::type_invariant]
    spec fn is_fixed(self) -> bool {
        self.api_base_url@ == api_base_url() && is_fixed_behavior(self.http_behavior)
    }

    /// The root URL of the API.
    pub closed spec fn base_url_of(self) -> Seq<char> {
        self.api_base_url@
    }

    /// The HTTP behaviour.
    pub closed spec fn behavior_of(self) -> HttpBehavior {
        self.http_behavior
    }

    /// The root URL of the API that the indexer calls.
    pub fn api_base_url(&self) -> (u: &String)
        ensures
            u@ == api_base_url(),
            u@ == self.base_url_of(),
    {
        proof {
            use_type_invariant(self);
        }
        &self.api_base_url
    }

    /// How the shared HTTP layer calls the API.
    pub fn http_behavior(&self) -> (h: &HttpBehavior)
        ensures
            is_fixed_behavior(*h),
            *h == self.behavior_of(),
    {
        proof {
            use_type_invariant(self);
        }
        &self.http_behavior
    }
}

/// The configuration that replaces any legacy settings: the fixed public API
/// with its fixed HTTP behaviour, whatever `legacy` holds.
pub fn migrate_legacy_config(legacy: LegacyAniNzbConfig) -> (c: AniNzbConfig)
    ensures
        c.base_url_of() == api_base_url(),
        is_fixed_behavior(c.behavior_of()),
{
    AniNzbConfig {
        api_base_url: String::from_str("https://api.aninzb.moe/"),
        http_behavior: HttpBehavior {
            plugin_id: String::from_str("aninzb"),
            user_agent: String::from_str(
                "Mozilla/5.0 (Windows NT 10.0; Win64; x64) AppleWebKit/537.36 (KHTML, like Gecko) Chrome/124.0.0.0 Safari/537.36",
            ),
            pre_request_delay_millis: 0,
            retry_total_budget_seconds: 300,
            retry_default_delay_seconds: 60,
            retry_max_delay_seconds: 300,
            retry_max_attempts: 5,
            max_search_pages: 1,
            hit_budget: Some(
                HitBudget {
                    var_key: String::from_str("aninzb.http_hits"),
                    hourly_limit: DEFAULT_HOURLY_HIT_CAP,
                    daily_limit: DEFAULT_DAILY_HIT_CAP,
                },
            ),
        },
    }
}

/// How many results a search returns: the API maximum when the request
/// asks for none, else the request's limit capped at that maximum.
pub open spec fn result_limit_of(request_limit: usize) -> usize {
    if request_limit == 0 {
        API_MAX_RESULTS
    } else if request_limit > API_MAX_RESULTS {
        API_MAX_RESULTS
    } else {
        request_limit
    }
}

/// The number of results a search asking for `request_limit` returns.
pub fn result_limit(request_limit: usize) -> (n: usize)
    ensures
        n == result_limit_of(request_limit),
{
    if request_limit == 0 {
        API_MAX_RESULTS
    } else if request_limit > API_MAX_RESULTS {
        API_MAX_RESULTS
    } else {
        request_limit
    }
}

/// Law: every search returns between one and fifty results; a limit within
/// that range is kept, no limit (0) asks for fifty, and a larger one is capped at fifty.
pub proof fn result_limit_in_range(request_limit: usize)
    ensures
        1 <= result_limit_of(request_limit) <= API_MAX_RESULTS,
        1 <= request_limit <= 50 ==> result_limit_of(request_limit) == request_limit,
        request_limit == 0 || request_limit > 50 ==> result_limit_of(request_limit) == 50,
{
}

/// An API answer larger than the indexer reads.
#[derive(Debug, Clone, Copy, PartialEq, Eq, Structural)]
pub struct ApiResponseTooLarge {
    pub limit: usize,
}

impl ApiResponseTooLarge {
    /// The message of this failure.
    pub fn message(&self) -> (m: String)
        ensures
            m@ == "AniNZB API response exceeded "@ + decimal(self.limit as nat) + " bytes"@,
    {
        let mut m = String::from_str("AniNZB API response exceeded ");
        push_all(&mut m, u64_to_string(self.limit as u64).as_str());
        push_all(&mut m, " bytes");
        m
    }
}

/// Refuses an API answer of more than 20 MiB.
pub fn validate_api_response_size(response_bytes: usize) -> (r: Result<(), ApiResponseTooLarge>)
    ensures
        response_bytes <= MAX_API_RESPONSE_BYTES ==> r is Ok,
        response_bytes > MAX_API_RESPONSE_BYTES ==> r == Err::<(), ApiResponseTooLarge>(
            ApiResponseTooLarge { limit: MAX_API_RESPONSE_BYTES },
        ),
{
    if response_bytes > MAX_API_RESPONSE_BYTES {
        return Err(ApiResponseTooLarge { limit: MAX_API_RESPONSE_BYTES });
    }
    Ok(())
}

/// The wait before the next API request: none without an earlier request,
/// else what is left of the interval since the earlier one (never negative).
pub open spec fn request_delay_of(prior_request_millis: Option<u64>, now_millis: u64) -> nat {
    match prior_request_millis {
        None => 0,
        Some(prior) => {
            let elapsed = if now_millis >= prior {
                now_millis - prior
            } else {
                0
            };
            if elapsed >= API_REQUEST_INTERVAL_MILLIS {
                0
            } else {
                (API_REQUEST_INTERVAL_MILLIS - elapsed) as nat
            }
        },
    }
}

/// How many milliseconds to wait before the next API request.
pub fn api_request_delay(prior_request_millis: Option<u64>, now_millis: u64) -> (delay: u64)
    ensures
        delay == request_delay_of(prior_request_millis, now_millis),
{
    match prior_request_millis {
        None => 0,
        Some(prior) => API_REQUEST_INTERVAL_MILLIS.saturating_sub(now_millis.saturating_sub(prior)),
    }
}

/// Law: the pacing never waits longer than one interval, and a request made
/// after waiting is at least one interval after the earlier one.
pub proof fn pacing_spaces_requests(prior: u64, now: u64)
    ensures
        request_delay_of(Some(prior), now) <= API_REQUEST_INTERVAL_MILLIS,
        now >= prior ==> now + request_delay_of(Some(prior), now) >= prior
            + API_REQUEST_INTERVAL_MILLIS,
        request_delay_of(None, now) == 0,
{
}

/// The earlier request time kept in the pacing state, or the failure to read it.
pub open spec fn prior_request_of(raw: Option<Seq<char>>) -> Result<Option<u64>, Seq<char>> {
    match raw {
        None => Ok(None),
        Some(text) => match parse_unsigned(text, u64::MAX as nat) {
            Ok(v) => Ok(Some(v as u64)),
            Err(kind) => Err("failed to parse AniNZB request pacing state: "@ + int_error_text(kind)),
        },
    }
}

/// Reads the pacing state: the time of the earlier request in milliseconds.
pub fn prior_request_millis(raw: Option<String>) -> (r: Result<Option<u64>, String>)
    ensures
        match prior_request_of(opt_chars(raw)) {
            Ok(v) => r == Ok::<Option<u64>, String>(v),
            Err(m) => r matches Err(e) && e@ == m,
        },
{
    match raw {
        None => Ok(None),
        Some(text) => match parse_u64(text.as_str()) {
            Ok(v) => Ok(Some(v)),
            Err(kind) => {
                let mut m = String::from_str("failed to parse AniNZB request pacing state: ");
                push_all(&mut m, kind.message().as_str());
                Err(m)
            },
        },
    }
}

} // verus!
