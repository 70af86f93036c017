use chrono::{DateTime, Local, Timelike};
use ccline::segment::SegmentId;
use ccline::usage::{EnvProxies, ProxyValue, ResetParts, UsageDecision, UsageSegment};

#[test]
fn usage_segment_identity() {
    let s = UsageSegment::new();
    assert_eq!(s.id(), SegmentId::Usage);
}

#[test]
fn colors_by_remaining_quota() {
    assert_eq!(UsageSegment::remaining_color(100), "\x1b[92m");
    assert_eq!(UsageSegment::remaining_color(50), "\x1b[92m");
    assert_eq!(UsageSegment::remaining_color(49), "\x1b[93m");
    assert_eq!(UsageSegment::remaining_color(20), "\x1b[93m");
    assert_eq!(UsageSegment::remaining_color(19), "\x1b[91m");
    assert_eq!(UsageSegment::remaining_color(0), "\x1b[91m");
}

#[test]
fn reset_time_rendering() {
    let p = ResetParts { month: 6, day: 21, hour: 23, minute: 0 };
    assert_eq!(UsageSegment::render_reset_time(Some(p), true), "6/21 23:00");
    assert_eq!(UsageSegment::render_reset_time(Some(p), false), "23:00");
    let q = ResetParts { month: 12, day: 3, hour: 7, minute: 5 };
    assert_eq!(UsageSegment::render_reset_time(Some(q), true), "12/3 07:05");
    assert_eq!(UsageSegment::render_reset_time(None, true), "?");
    assert_eq!(UsageSegment::render_reset_time(None, false), "?");
}

#[test]
fn reset_time_from_timestamp() {
    assert_eq!(UsageSegment::format_reset_time(None, false), "?");
    assert_eq!(UsageSegment::format_reset_time(Some("not a time"), true), "?");
    let t = UsageSegment::format_reset_time(Some("2025-06-21T15:00:00Z"), false);
    assert_eq!(t.len(), 5);
    assert_eq!(&t[2..3], ":");
    assert_eq!(&t[3..], "00");
    let l = DateTime::parse_from_rfc3339("2025-06-21T15:00:00Z").unwrap().with_timezone(&Local);
    let expected = format!("{:02}:{:02}", l.hour(), l.minute());
    assert_eq!(t, expected);
    let d = UsageSegment::format_reset_time(Some("2025-06-21T15:00:00+00:00"), true);
    assert!(d.contains('/') && d.ends_with(":00"));
}

#[test]
fn cache_freshness() {
    assert!(UsageSegment::cache_fresh(10, 300));
    assert!(UsageSegment::cache_fresh(299, 300));
    assert!(!UsageSegment::cache_fresh(300, 300));
    assert!(UsageSegment::cache_fresh(-5, 0));
    assert!(!UsageSegment::cache_fresh(0, 0));
    // Durations above i64::MAX wrap to negative numbers.
    assert!(!UsageSegment::cache_fresh(0, u64::MAX));
    assert!(UsageSegment::cache_fresh(-2, u64::MAX));
    assert!(UsageSegment::cache_fresh(i64::MAX - 1, i64::MAX as u64));
}

#[test]
fn longer_duration_keeps_fresh() {
    for e in [-10i64, 0, 5, 299] {
        if UsageSegment::cache_fresh(e, 300) {
            assert!(UsageSegment::cache_fresh(e, 600));
        }
    }
}

#[test]
fn cache_validity_uses_clock() {
    let s = UsageSegment::new();
    let now = chrono::Utc::now().to_rfc3339();
    assert!(s.is_cache_valid(&now, 300));
    assert!(!s.is_cache_valid("2001-01-01T00:00:00Z", 300));
    assert!(!s.is_cache_valid("garbage", 300));
}

#[test]
fn user_agent() {
    assert_eq!(UsageSegment::user_agent("tool", true, "1.0.93\n"), "tool/1.0.93");
    assert_eq!(UsageSegment::user_agent("tool", true, "  \t\n"), "tool");
    assert_eq!(UsageSegment::user_agent("tool", false, "1.0.93"), "tool");
    assert_eq!(UsageSegment::user_agent("tool", true, "\u{3000}2.0\u{a0}"), "tool/2.0");
}

#[test]
fn proxy_selection() {
    let env = |https, http| EnvProxies { https, http };
    let t = |s: &str| ProxyValue::Text(s.to_string());
    assert_eq!(UsageSegment::proxy_from_settings(None), None);
    assert_eq!(
        UsageSegment::proxy_from_settings(Some(&env(t("https://p:1"), t("http://q:2")))),
        Some("https://p:1".to_string())
    );
    assert_eq!(
        UsageSegment::proxy_from_settings(Some(&env(ProxyValue::Missing, t("http://q:2")))),
        Some("http://q:2".to_string())
    );
    // A non-string HTTPS_PROXY does not fall back to HTTP_PROXY.
    assert_eq!(
        UsageSegment::proxy_from_settings(Some(&env(ProxyValue::NotText, t("http://q:2")))),
        None
    );
    assert_eq!(
        UsageSegment::proxy_from_settings(Some(&env(ProxyValue::Missing, ProxyValue::NotText))),
        None
    );
}

#[test]
fn request_text() {
    assert_eq!(UsageSegment::usage_url("https://api.anthropic.com"), "https://api.anthropic.com/api/oauth/usage");
    assert_eq!(UsageSegment::bearer("tok"), "Bearer tok");
}

#[test]
fn option_defaults() {
    let o = UsageSegment::resolve_options(None, None, None);
    assert_eq!(o.api_base_url, "https://api.anthropic.com");
    assert_eq!(o.cache_duration, 300);
    assert_eq!(o.timeout, 2);
    let o = UsageSegment::resolve_options(Some("http://x"), Some(60), Some(9));
    assert_eq!(o.api_base_url, "http://x");
    assert_eq!(o.cache_duration, 60);
    assert_eq!(o.timeout, 9);
}

#[test]
fn decisions() {
    assert_eq!(UsageSegment::decide_before_fetch(Some(true)), UsageDecision::UseCache);
    assert_eq!(UsageSegment::decide_before_fetch(Some(false)), UsageDecision::Fetch);
    assert_eq!(UsageSegment::decide_before_fetch(None), UsageDecision::Fetch);
    assert_eq!(UsageSegment::decide_after_fetch(true, true), UsageDecision::UseFresh);
    assert_eq!(UsageSegment::decide_after_fetch(true, false), UsageDecision::UseFresh);
    assert_eq!(UsageSegment::decide_after_fetch(false, true), UsageDecision::UseStaleCache);
    assert_eq!(UsageSegment::decide_after_fetch(false, false), UsageDecision::GiveUp);
}

#[test]
fn week_reset_fallback() {
    let s = |x: &str| Some(x.to_string());
    assert_eq!(UsageSegment::cached_week_reset(s("a"), s("b")), s("a"));
    assert_eq!(UsageSegment::cached_week_reset(None, s("b")), s("b"));
    assert_eq!(UsageSegment::cached_week_reset(None, None), None);
}

#[test]
fn usage_line_rendering() {
    let line = UsageSegment::usage_line(40, "17:20", 59, "6/21 23:00");
    assert_eq!(
        line,
        "Session \x1b[93m40%\x1b[0m \x1b[90m\u{1f504} 17:20\x1b[0m   Week \x1b[92m59%\x1b[0m \x1b[90m\u{1f504} 6/21 23:00\x1b[0m"
    );
    let line = UsageSegment::usage_line(0, "?", 100, "?");
    assert!(line.starts_with("Session \x1b[91m0%"));
    assert!(line.contains("Week \x1b[92m100%"));
}

#[test]
fn default_usage_segment() {
    assert_eq!(UsageSegment::default(), UsageSegment::new());
}
