//! The usage-quota segment: remaining share of the five-hour session quota
//! and of the weekly quota, each with the local time at which it resets.
//!
//! Fetching the figures, caching them on disk and turning utilizations into
//! whole percentages happen in the program around this module; here are the
//! decisions between cache and network, the option defaults, the request's
//! text and the rendering of the segment.

use vstd::prelude::*;
use vstd::string::*;
use chrono::{DateTime, Datelike, Local, Timelike, Utc};
use crate::segment::SegmentId;
use crate::text::{decimal, push_decimal, trim_white, trimmed};

verus! {

/// The segment that reports the remaining usage quota.
#[derive(Clone, Copy, Debug, Default, PartialEq, Eq, Structural)]
pub struct UsageSegment;

/// The color escape for a remaining-quota percentage.
pub open spec fn color_for(remaining: u8) -> Seq<char> {
    if remaining >= 50 {
        "\x1b[92m"@
    } else if remaining >= 20 {
        "\x1b[93m"@
    } else {
        "\x1b[91m"@
    }
}

/// The local date and time parts of a reset timestamp.
#[derive(Clone, Copy, Debug, PartialEq, Eq, Structural)]
pub struct ResetParts {
    pub month: u32,
    pub day: u32,
    pub hour: u32,
    pub minute: u32,
}

impl ResetParts {
    /// The ranges that calendar and clock fields keep to.
    pub open spec fn within_ranges(self) -> bool {
        &&& 1 <= self.month <= 12
        &&& 1 <= self.day <= 31
        &&& self.hour <= 23
        &&& self.minute <= 59
    }
}

/// Whether `chrono`'s RFC 3339 parser accepts the text.
pub uninterp spec fn rfc3339_accepts(s: Seq<char>) -> bool;

/// Calls `chrono::DateTime::parse_from_rfc3339` and converts the instant to
/// the machine's local time zone. Claimed: the result is present exactly
/// when the parser accepts the text, and its fields are in their calendar
/// ranges (as `Datelike::month`, `Datelike::day`, `Timelike::hour` and
/// `Timelike::minute` document). Which local time comes out depends on the
/// machine's time zone and is not stated.
#[verifier::external_body]
fn local_reset_parts(s: &str) -> (r: Option<ResetParts>)
    ensures
        r is Some == rfc3339_accepts(s@),
        r matches Some(p) ==> p.within_ranges(),
{
    match DateTime::parse_from_rfc3339(s) {
        Ok(dt) => {
            let local = dt.with_timezone(&Local);
            Some(
                ResetParts {
                    month: local.month(),
                    day: local.day(),
                    hour: local.hour(),
                    minute: local.minute(),
                },
            )
        },
        Err(_) => None,
    }
}

/// Calls `chrono::DateTime::parse_from_rfc3339` on `stamp` and, when it
/// parses, `Utc::now().signed_duration_since(..).num_seconds()`: the whole
/// seconds elapsed since the stamp, truncated toward zero. Claimed: the
/// result is present exactly when the parser accepts the text; its value
/// depends on the clock and is not stated.
#[verifier::external_body]
fn seconds_since(stamp: &str) -> (r: Option<i64>)
    ensures
        r is Some == rfc3339_accepts(stamp@),
{
    match DateTime::parse_from_rfc3339(stamp) {
        Ok(t) => Some(Utc::now().signed_duration_since(t.with_timezone(&Utc)).num_seconds()),
        Err(_) => None,
    }
}

/// Two-digit zero-padded rendering (`{:02}`).
pub open spec fn pad2(n: nat) -> Seq<char> {
    if n < 10 {
        seq!['0'] + decimal(n)
    } else {
        decimal(n)
    }
}

/// `M/D HH:MM` with the date, `HH:MM` without.
pub open spec fn reset_text(p: ResetParts, with_date: bool) -> Seq<char> {
    if with_date {
        decimal(p.month as nat) + "/"@ + decimal(p.day as nat) + " "@ + pad2(p.hour as nat) + ":"@
            + pad2(p.minute as nat)
    } else {
        pad2(p.hour as nat) + ":"@ + pad2(p.minute as nat)
    }
}

fn push_pad2(s: &mut String, n: u32)
    ensures
        final(s)@ == old(s)@ + pad2(n as nat),
{
    if n < 10 {
        s.append("0");
        proof {
            reveal_strlit("0");
        }
    }
    push_decimal(s, n as u64);
    assert(s@ =~= old(s)@ + pad2(n as nat));
}

/// The status line text of the quota segment.
pub open spec fn usage_line_text(
    session_remaining: u8,
    session_reset: Seq<char>,
    week_remaining: u8,
    week_reset: Seq<char>,
) -> Seq<char> {
    "Session "@ + color_for(session_remaining) + decimal(session_remaining as nat)
        + "%\x1b[0m \x1b[90m\u{1f504} "@ + session_reset + "\x1b[0m   Week "@ + color_for(
        week_remaining,
    ) + decimal(week_remaining as nat) + "%\x1b[0m \x1b[90m\u{1f504} "@ + week_reset
        + "\x1b[0m"@
}

/// The endpoint that reports usage, under the configured base URL.
pub open spec fn usage_url_text(api_base_url: Seq<char>) -> Seq<char> {
    api_base_url + "/api/oauth/usage"@
}

/// The configured options of the segment, with their defaults applied.
#[derive(Debug)]
pub struct UsageOptions {
    pub api_base_url: String,
    /// How long a cached answer stays fresh, in seconds.
    pub cache_duration: u64,
    /// The request timeout, in seconds.
    pub timeout: u64,
}

/// What to do next while gathering the usage figures.
#[derive(Clone, Copy, Debug, PartialEq, Eq, Structural)]
pub enum UsageDecision {
    /// Use the cached figures, which are fresh.
    UseCache,
    /// Ask the usage endpoint.
    Fetch,
    /// Use the figures just fetched (and cache them).
    UseFresh,
    /// The request failed: fall back to the stale cached figures.
    UseStaleCache,
    /// The request failed and nothing is cached: the segment is not shown.
    GiveUp,
}

/// One `HTTPS_PROXY` / `HTTP_PROXY` entry of the `env` object of the
/// assistant's settings file.
#[derive(Debug)]
pub enum ProxyValue {
    /// The key is absent.
    Missing,
    /// The key holds a string.
    Text(String),
    /// The key holds something other than a string.
    NotText,
}

/// The proxy entries of the settings' `env` object.
#[derive(Debug)]
pub struct EnvProxies {
    pub https: ProxyValue,
    pub http: ProxyValue,
}

/// The proxy that the settings name: `HTTPS_PROXY` when the key is present
/// (and only if it holds a string), else `HTTP_PROXY` if that holds one.
pub open spec fn proxy_choice(env: Option<EnvProxies>) -> Option<Seq<char>> {
    match env {
        None => None,
        Some(e) => match e.https {
            ProxyValue::Text(s) => Some(s@),
            ProxyValue::NotText => None,
            ProxyValue::Missing => match e.http {
                ProxyValue::Text(s) => Some(s@),
                _ => None,
            },
        },
    }
}

/// The user agent sent with the usage request: the product name, followed
/// by `/` and the published version when asking npm for it succeeded and
/// gave a non-blank answer.
pub open spec fn user_agent_text(product: Seq<char>, npm_succeeded: bool, npm_stdout: Seq<char>) -> Seq<
    char,
> {
    if npm_succeeded && trimmed(npm_stdout).len() > 0 {
        product + "/"@ + trimmed(npm_stdout)
    } else {
        product
    }
}

/// `d as i64`: values above `i64::MAX` wrap around to negative numbers.
pub open spec fn wrapped_i64(d: u64) -> int {
    if d <= i64::MAX {
        d as int
    } else {
        d as int - 0x1_0000_0000_0000_0000
    }
}

/// The duration as compared is `d` read as a 64-bit signed number: the one
/// value in the `i64` range that equals `d` modulo 2^64.
pub proof fn wrapped_duration_is_the_i64_reading(d: u64)
    ensures
        i64::MIN <= wrapped_i64(d) <= i64::MAX,
        (d as int - wrapped_i64(d)) % 0x1_0000_0000_0000_0000 == 0,
        d <= i64::MAX ==> wrapped_i64(d) == d,
{
}

/// A cache that is fresh under some duration stays fresh under any longer
/// duration (up to `i64::MAX` seconds).
pub proof fn longer_duration_keeps_cache_fresh(elapsed_secs: i64, d1: u64, d2: u64)
    requires
        d1 <= d2 <= i64::MAX,
        elapsed_secs < wrapped_i64(d1),
    ensures
        elapsed_secs < wrapped_i64(d2),
{
}

impl UsageSegment {
    pub fn new() -> (s: Self)
        ensures
            s == UsageSegment,
    {
        UsageSegment
    }

    pub fn id(&self) -> (id: SegmentId)
        ensures
            id == SegmentId::Usage,
    {
        SegmentId::Usage
    }

    /// ANSI color (foreground) for a remaining-quota percentage: green when
    /// plenty is left, yellow when getting low, red when nearly out.
    pub fn remaining_color(remaining: u8) -> (c: &'static str)
        ensures
            c@ == color_for(remaining),
    {
        if remaining >= 50 {
            "\x1b[92m"
        } else if remaining >= 20 {
            "\x1b[93m"
        } else {
            "\x1b[91m"
        }
    }

    /// Renders the local parts of a reset time, `?` when there are none.
    pub fn render_reset_time(parts: Option<ResetParts>, with_date: bool) -> (r: String)
        ensures
            r@ == match parts {
                Some(p) => reset_text(p, with_date),
                None => "?"@,
            },
    {
        let mut r = String::new();
        match parts {
            Some(p) => {
                if with_date {
                    push_decimal(&mut r, p.month as u64);
                    r.append("/");
                    push_decimal(&mut r, p.day as u64);
                    r.append(" ");
                }
                push_pad2(&mut r, p.hour);
                r.append(":");
                push_pad2(&mut r, p.minute);
            },
            None => {
                r.append("?");
            },
        }
        r
    }

    /// Formats a reset timestamp in local time: `HH:MM` for the five-hour
    /// window, `M/D HH:MM` (`with_date`) for the weekly one, `?` when there is
    /// no timestamp or it is not RFC 3339.
    pub fn format_reset_time(reset_time_str: Option<&str>, with_date: bool) -> (r: String)
        ensures
            match reset_time_str {
                Some(s) => if rfc3339_accepts(s@) {
                    exists|p: ResetParts| p.within_ranges() && r@ == reset_text(p, with_date)
                } else {
                    r@ == "?"@
                },
                None => r@ == "?"@,
            },
    {
        match reset_time_str {
            Some(s) => {
                let parts = local_reset_parts(s);
                Self::render_reset_time(parts, with_date)
            },
            None => Self::render_reset_time(None, with_date),
        }
    }

    /// Whether a cached answer that is `elapsed_secs` whole seconds old is
    /// still fresh under a cache duration of `cache_duration` seconds (the
    /// duration is compared as an `i64`).
    pub fn cache_fresh(elapsed_secs: i64, cache_duration: u64) -> (fresh: bool)
        ensures
            fresh == (elapsed_secs < wrapped_i64(cache_duration)),
    {
        if cache_duration <= 9223372036854775807u64 {
            elapsed_secs < cache_duration as i64
        } else {
            let wrapped: i64 = (cache_duration - 9223372036854775808u64) as i64
                - 9223372036854775807i64 - 1i64;
            elapsed_secs < wrapped
        }
    }

    /// Whether the cache written at `cached_at` (RFC 3339) is younger than
    /// `cache_duration` seconds. A stamp that does not parse makes the cache
    /// stale; otherwise the answer is [`Self::cache_fresh`] of the seconds
    /// that the clock says have elapsed.
    pub fn is_cache_valid(&self, cached_at: &str, cache_duration: u64) -> (valid: bool)
        ensures
            valid ==> rfc3339_accepts(cached_at@),
            valid ==> wrapped_i64(cache_duration) > i64::MIN,
    {
        match seconds_since(cached_at) {
            Some(elapsed) => Self::cache_fresh(elapsed, cache_duration),
            None => false,
        }
    }

    /// The user agent for the usage request, from the product name and the
    /// answer of npm about the published version (see [`user_agent_text`]).
    pub fn user_agent(product: &str, npm_succeeded: bool, npm_stdout: &str) -> (ua: String)
        ensures
            ua@ == user_agent_text(product@, npm_succeeded, npm_stdout@),
    {
        let mut ua = String::new();
        ua.append(product);
        if npm_succeeded {
            let version = trim_white(npm_stdout);
            if version.unicode_len() > 0 {
                ua.append("/");
                ua.append(version);
            }
        }
        ua
    }

    /// The proxy that the settings' `env` object names, if any.
    pub fn proxy_from_settings(env: Option<&EnvProxies>) -> (proxy: Option<String>)
        ensures
            match proxy {
                Some(p) => proxy_choice(
                    match env {
                        Some(e) => Some(*e),
                        None => None,
                    },
                ) == Some(p@),
                None => proxy_choice(
                    match env {
                        Some(e) => Some(*e),
                        None => None,
                    },
                ) is None,
            },
    {
        match env {
            None => None,
            Some(e) => match &e.https {
                ProxyValue::Text(s) => Some(s.clone()),
                ProxyValue::NotText => None,
                ProxyValue::Missing => match &e.http {
                    ProxyValue::Text(s) => Some(s.clone()),
                    _ => None,
                },
            },
        }
    }

    /// The URL of the usage endpoint under `api_base_url`.
    pub fn usage_url(api_base_url: &str) -> (url: String)
        ensures
            url@ == usage_url_text(api_base_url@),
    {
        let mut url = String::new();
        url.append(api_base_url);
        url.append("/api/oauth/usage");
        url
    }

    /// The value of the `Authorization` header for an OAuth token.
    pub fn bearer(token: &str) -> (value: String)
        ensures
            value@ == "Bearer "@ + token@,
    {
        let mut value = String::new();
        value.append("Bearer ");
        value.append(token);
        value
    }

    /// The segment's options with their defaults: the official API, a
    /// five-minute cache and a two-second timeout.
    pub fn resolve_options(
        api_base_url: Option<&str>,
        cache_duration: Option<u64>,
        timeout: Option<u64>,
    ) -> (o: UsageOptions)
        ensures
            o.api_base_url@ == match api_base_url {
                Some(s) => s@,
                None => "https://api.anthropic.com"@,
            },
            o.cache_duration == match cache_duration {
                Some(d) => d,
                None => 300,
            },
            o.timeout == match timeout {
                Some(t) => t,
                None => 2,
            },
    {
        let mut base = String::new();
        match api_base_url {
            Some(s) => base.append(s),
            None => base.append("https://api.anthropic.com"),
        }
        UsageOptions {
            api_base_url: base,
            cache_duration: match cache_duration {
                Some(d) => d,
                None => 300,
            },
            timeout: match timeout {
                Some(t) => t,
                None => 2,
            },
        }
    }

    /// The first decision: a cache that loaded (`Some(fresh)`) and is fresh
    /// is used; otherwise the endpoint is asked.
    pub fn decide_before_fetch(cache: Option<bool>) -> (d: UsageDecision)
        ensures
            d == (if cache == Some(true) {
                UsageDecision::UseCache
            } else {
                UsageDecision::Fetch
            }),
    {
        match cache {
            Some(true) => UsageDecision::UseCache,
            _ => UsageDecision::Fetch,
        }
    }

    /// The decision once the endpoint was asked.
    pub fn decide_after_fetch(fetched: bool, cache_present: bool) -> (d: UsageDecision)
        ensures
            d == (if fetched {
                UsageDecision::UseFresh
            } else if cache_present {
                UsageDecision::UseStaleCache
            } else {
                UsageDecision::GiveUp
            }),
    {
        if fetched {
            UsageDecision::UseFresh
        } else if cache_present {
            UsageDecision::UseStaleCache
        } else {
            UsageDecision::GiveUp
        }
    }

    /// The weekly reset time of a cached answer: its own field, or the older
    /// single field that earlier caches wrote.
    pub fn cached_week_reset(seven_day_resets_at: Option<String>, resets_at: Option<String>) -> (r:
        Option<String>)
        ensures
            r == (if seven_day_resets_at is Some {
                seven_day_resets_at
            } else {
                resets_at
            }),
    {
        match seven_day_resets_at {
            Some(s) => Some(s),
            None => resets_at,
        }
    }

    /// The segment's text: remaining session and weekly quota, each colored
    /// by how much is left and followed by its reset time.
    pub fn usage_line(
        session_remaining: u8,
        session_reset: &str,
        week_remaining: u8,
        week_reset: &str,
    ) -> (line: String)
        ensures
            line@ == usage_line_text(
                session_remaining,
                session_reset@,
                week_remaining,
                week_reset@,
            ),
    {
        let mut line = String::new();
        line.append("Session ");
        line.append(Self::remaining_color(session_remaining));
        push_decimal(&mut line, session_remaining as u64);
        line.append("%\x1b[0m \x1b[90m\u{1f504} ");
        line.append(session_reset);
        line.append("\x1b[0m   Week ");
        line.append(Self::remaining_color(week_remaining));
        push_decimal(&mut line, week_remaining as u64);
        line.append("%\x1b[0m \x1b[90m\u{1f504} ");
        line.append(week_reset);
        line.append("\x1b[0m");
        assert(line@ =~= usage_line_text(
            session_remaining,
            session_reset@,
            week_remaining,
            week_reset@,
        ));
        line
    }
}

} // verus!
