//! Settings of the service.

use vstd::prelude::*;
use vstd::string::StringExecFns;
use crate::text::{chars_of, parse_number, str_eq, unsigned_of};

verus! {

/// The settings of the service. Durations are in seconds.
#[derive(Debug, Clone)]
pub struct Config {
    pub port: u16,
    /// Largest accepted upload, in bytes.
    pub max_file_size: usize,
    /// How long an uploaded activity is kept.
    pub cache_ttl: u64,
    pub jwt_secret: String,
    pub app_base_url: String,
    /// How many videos are rendered at once.
    pub video_export_max_concurrency: usize,
    /// How long a video export waits for a free slot.
    pub video_export_queue_timeout: u64,
    /// How long a video export may render.
    pub video_export_timeout: u64,
    /// Length of the window of the video export rate limit.
    pub video_export_rate_limit_window: u64,
    /// Video exports admitted per subject and window.
    pub video_export_rate_limit_max_requests: usize,
    pub stripe_allow_mock: bool,
    pub stripe_secret_key: Option<String>,
    pub stripe_webhook_secret: Option<String>,
    pub stripe_price_id: Option<String>,
    pub strava_client_id: Option<String>,
    pub strava_client_secret: Option<String>,
    pub strava_redirect_uri: Option<String>,
}

/// The variables that the settings are read from, as far as they are set.
#[derive(Debug, Clone)]
pub struct Variables {
    pub port: Option<String>,
    pub max_file_size_mb: Option<String>,
    pub cache_ttl_seconds: Option<String>,
    pub jwt_secret: Option<String>,
    pub app_base_url: Option<String>,
    pub video_export_max_concurrency: Option<String>,
    pub video_export_queue_timeout_seconds: Option<String>,
    pub video_export_timeout_seconds: Option<String>,
    pub video_export_rate_limit_window_seconds: Option<String>,
    pub video_export_rate_limit_max_requests: Option<String>,
    pub stripe_allow_mock: Option<String>,
    pub stripe_secret_key: Option<String>,
    pub stripe_webhook_secret: Option<String>,
    pub stripe_price_id: Option<String>,
    pub strava_client_id: Option<String>,
    pub strava_client_secret: Option<String>,
    pub strava_redirect_uri: Option<String>,
}

/// The number that a variable gives: what it writes in digits, where it is
/// set, reads as a number and is no larger than `limit`; else the default.
pub open spec fn number_or(value: Option<String>, limit: nat, default: nat) -> nat {
    match value {
        Some(text) => match unsigned_of(text@, limit) {
            Some(n) => n,
            None => default,
        },
        None => default,
    }
}

/// The text that a variable gives: its value where it is set, else the default.
pub open spec fn text_or(value: Option<String>, default: Seq<char>) -> Seq<char> {
    match value {
        Some(text) => text@,
        None => default,
    }
}

/// The switch that a variable gives: `true` or `false` where it says so,
/// else the default.
pub open spec fn switch_or(value: Option<String>, default: bool) -> bool {
    match value {
        Some(text) => if text@ == "true"@ {
            true
        } else if text@ == "false"@ {
            false
        } else {
            default
        },
        None => default,
    }
}

/// Reads a number from a variable.
fn read_number(value: &Option<String>, limit: u64, default: u64) -> (n: u64)
    requires
        limit <= 0xFFFF_FFFF_FFFF_FFF,
    ensures
        n == number_or(*value, limit as nat, default as nat),
{
    match value {
        Some(text) => {
            let chars = chars_of(text.as_str());
            match parse_number(&chars, limit) {
                Some(n) => n,
                None => default,
            }
        },
        None => default,
    }
}

/// Reads a text from a variable.
fn read_text(value: &Option<String>, default: &str) -> (text: String)
    ensures
        text@ == text_or(*value, default@),
{
    match value {
        Some(text) => text.clone(),
        None => String::from_str(default),
    }
}

/// The largest number of seconds, connections or requests that a setting takes.
pub const SETTING_LIMIT: u64 = 0xFFFF_FFFF;

impl Config {
    /// The settings of a service that is given none: port 3000, uploads up
    /// to 25 MiB kept for an hour, two video exports at once that wait two
    /// seconds for a slot and render for two minutes at most, and four
    /// video exports per subject and minute.
    pub fn defaults() -> (config: Self)
        ensures
            config.port == 3000,
            config.max_file_size == 26_214_400,
            config.cache_ttl == 3600,
            config.jwt_secret@ == "dev-insecure-change-me"@,
            config.app_base_url@ == "http://localhost:3000"@,
            config.video_export_max_concurrency == 2,
            config.video_export_queue_timeout == 2,
            config.video_export_timeout == 120,
            config.video_export_rate_limit_window == 60,
            config.video_export_rate_limit_max_requests == 4,
            !config.stripe_allow_mock,
            config.stripe_secret_key.is_none(),
            config.stripe_webhook_secret.is_none(),
            config.stripe_price_id.is_none(),
            config.strava_client_id.is_none(),
            config.strava_client_secret.is_none(),
            config.strava_redirect_uri.is_none(),
    {
        Config {
            port: 3000,
            max_file_size: 26_214_400,
            cache_ttl: 3600,
            jwt_secret: String::from_str("dev-insecure-change-me"),
            app_base_url: String::from_str("http://localhost:3000"),
            video_export_max_concurrency: 2,
            video_export_queue_timeout: 2,
            video_export_timeout: 120,
            video_export_rate_limit_window: 60,
            video_export_rate_limit_max_requests: 4,
            stripe_allow_mock: false,
            stripe_secret_key: None,
            stripe_webhook_secret: None,
            stripe_price_id: None,
            strava_client_id: None,
            strava_client_secret: None,
            strava_redirect_uri: None,
        }
    }

    /// The settings that the variables give: each number where its
    /// variable is set and reads as one, else its default; the upload limit
    /// in bytes from the variable in MiB; mock payments only in a
    /// development build, and there unless the variable says `false`.
    pub fn from_variables(vars: Variables, development: bool) -> (config: Self)
        ensures
            config.port == number_or(vars.port, 65535, 3000),
            config.max_file_size == number_or(vars.max_file_size_mb, 4095, 25) * 1_048_576,
            config.cache_ttl == number_or(vars.cache_ttl_seconds, SETTING_LIMIT as nat, 3600),
            config.jwt_secret@ == text_or(vars.jwt_secret, "dev-insecure-change-me"@),
            config.app_base_url@ == text_or(vars.app_base_url, "http://localhost:3000"@),
            config.video_export_max_concurrency == number_or(
                vars.video_export_max_concurrency,
                SETTING_LIMIT as nat,
                2,
            ),
            config.video_export_queue_timeout == number_or(
                vars.video_export_queue_timeout_seconds,
                SETTING_LIMIT as nat,
                2,
            ),
            config.video_export_timeout == number_or(
                vars.video_export_timeout_seconds,
                SETTING_LIMIT as nat,
                120,
            ),
            config.video_export_rate_limit_window == number_or(
                vars.video_export_rate_limit_window_seconds,
                SETTING_LIMIT as nat,
                60,
            ),
            config.video_export_rate_limit_max_requests == number_or(
                vars.video_export_rate_limit_max_requests,
                SETTING_LIMIT as nat,
                4,
            ),
            config.stripe_allow_mock == (development && switch_or(vars.stripe_allow_mock, true)),
            config.stripe_secret_key == vars.stripe_secret_key,
            config.stripe_webhook_secret == vars.stripe_webhook_secret,
            config.stripe_price_id == vars.stripe_price_id,
            config.strava_client_id == vars.strava_client_id,
            config.strava_client_secret == vars.strava_client_secret,
            config.strava_redirect_uri == vars.strava_redirect_uri,
    {
        let allow_mock = development && match &vars.stripe_allow_mock {
            Some(text) => {
                if str_eq(text.as_str(), "true") {
                    true
                } else if str_eq(text.as_str(), "false") {
                    false
                } else {
                    true
                }
            },
            None => true,
        };
        Config {
            port: read_number(&vars.port, 65535, 3000) as u16,
            max_file_size: (read_number(&vars.max_file_size_mb, 4095, 25) * 1_048_576) as usize,
            cache_ttl: read_number(&vars.cache_ttl_seconds, SETTING_LIMIT, 3600),
            jwt_secret: read_text(&vars.jwt_secret, "dev-insecure-change-me"),
            app_base_url: read_text(&vars.app_base_url, "http://localhost:3000"),
            video_export_max_concurrency: read_number(
                &vars.video_export_max_concurrency,
                SETTING_LIMIT,
                2,
            ) as usize,
            video_export_queue_timeout: read_number(
                &vars.video_export_queue_timeout_seconds,
                SETTING_LIMIT,
                2,
            ),
            video_export_timeout: read_number(
                &vars.video_export_timeout_seconds,
                SETTING_LIMIT,
                120,
            ),
            video_export_rate_limit_window: read_number(
                &vars.video_export_rate_limit_window_seconds,
                SETTING_LIMIT,
                60,
            ),
            video_export_rate_limit_max_requests: read_number(
                &vars.video_export_rate_limit_max_requests,
                SETTING_LIMIT,
                4,
            ) as usize,
            stripe_allow_mock: allow_mock,
            stripe_secret_key: vars.stripe_secret_key,
            stripe_webhook_secret: vars.stripe_webhook_secret,
            stripe_price_id: vars.stripe_price_id,
            strava_client_id: vars.strava_client_id,
            strava_client_secret: vars.strava_client_secret,
            strava_redirect_uri: vars.strava_redirect_uri,
        }
    }
}

impl Default for Config {
    fn default() -> (config: Self)
        ensures
            config.port == 3000,
            config.max_file_size == 26_214_400,
            config.cache_ttl == 3600,
            config.jwt_secret@ == "dev-insecure-change-me"@,
            config.app_base_url@ == "http://localhost:3000"@,
            config.video_export_max_concurrency == 2,
            config.video_export_queue_timeout == 2,
            config.video_export_timeout == 120,
            config.video_export_rate_limit_window == 60,
            config.video_export_rate_limit_max_requests == 4,
            !config.stripe_allow_mock,
            config.stripe_secret_key.is_none(),
            config.stripe_webhook_secret.is_none(),
            config.stripe_price_id.is_none(),
            config.strava_client_id.is_none(),
            config.strava_client_secret.is_none(),
            config.strava_redirect_uri.is_none(),
    {
        Config::defaults()
    }
}

} // verus!
