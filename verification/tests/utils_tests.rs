use forum_core::models::ApiResponse;
use forum_core::stats::DatabaseStats;
use forum_core::text::{
    extract_tags_from_content, format_relative_time, generate_avatar_url, is_blank, sanitize_html,
    str_eq, truncate_text, u64_to_string, validate_address,
};

#[test]
fn test_extract_tags() {
    let content = "This is a post about # rust # blockchain #irys";
    let tags = extract_tags_from_content(content);
    assert_eq!(tags, vec!["rust", "blockchain", "irys"]);
}

#[test]
fn test_format_relative_time() {
    let now: i64 = 1700000000;
    let one_minute_ago = now - 60;
    let one_hour_ago = now - 3600;
    let one_day_ago = now - 86400;

    assert!(format_relative_time(one_minute_ago, now).contains("Minutes ago"));
    assert!(format_relative_time(one_hour_ago, now).contains("Hours ago"));
    assert!(format_relative_time(one_day_ago, now).contains("Days ago"));
}

#[test]
fn relative_time_exact_buckets() {
    let now: i64 = 1700000000;
    assert_eq!(format_relative_time(now, now), "just");
    assert_eq!(format_relative_time(now - 59, now), "just");
    assert_eq!(format_relative_time(now - 60, now), "1Minutes ago");
    assert_eq!(format_relative_time(now - 3 * 60 - 5, now), "3Minutes ago");
    assert_eq!(format_relative_time(now - 2 * 3600, now), "2Hours ago");
    assert_eq!(format_relative_time(now - 5 * 86400, now), "5Days ago");
}

#[test]
fn relative_time_far_past_is_full_date() {
    // Forty days before the epoch-second for 1970-02-10 00:00:00.
    let ts: i64 = 0;
    let now: i64 = 40 * 86400;
    assert_eq!(format_relative_time(ts, now), "1970-01-01 00:00:00");
}

#[test]
fn truncate_keeps_short_text() {
    assert_eq!(truncate_text("short", 10), "short");
    assert_eq!(truncate_text("exactly10!", 10), "exactly10!");
}

#[test]
fn truncate_cuts_long_text() {
    let text = "This is a very long text content";
    assert_eq!(truncate_text(text, 10), "This is a ...");
}

#[test]
fn tags_lowercased_and_deduplicated() {
    let tags = extract_tags_from_content("#RUST #Rust #rust keep one");
    assert_eq!(tags, vec!["rust"]);
}

#[test]
fn tags_ignore_plain_words_and_lone_trailing_hash() {
    let tags = extract_tags_from_content("nothing here");
    assert!(tags.is_empty());
    let tags = extract_tags_from_content("ends with #");
    assert!(tags.is_empty());
}

#[test]
fn validate_address_checks_shape() {
    assert!(validate_address("1BvBMSEYstWetqTFn5Au4m4GFg7xJaNVN2"));
    assert!(!validate_address("3BvBMSEYstWetqTFn5Au4m4GFg7xJaNVN2"));
    assert!(!validate_address("1short"));
    assert!(!validate_address(""));
}

#[test]
fn sanitize_strips_markup() {
    assert_eq!(
        sanitize_html("<script>alert('x')</script> onclick=go javascript:run"),
        "alert('x') =go run"
    );
    assert_eq!(sanitize_html("plain text"), "plain text");
}

#[test]
fn reputation_formula() {
    assert_eq!(forum_core::text::calculate_reputation(3, 2, 7), 54);
    assert_eq!(forum_core::text::calculate_reputation(0, 0, 0), 0);
}

#[test]
fn decimal_rendering() {
    assert_eq!(u64_to_string(0), "0");
    assert_eq!(u64_to_string(7), "7");
    assert_eq!(u64_to_string(120), "120");
    assert_eq!(u64_to_string(18446744073709551615), "18446744073709551615");
}

#[test]
fn avatar_url_hashes_lowercased_address() {
    assert_eq!(
        generate_avatar_url("0xAA"),
        "https://www.gravatar.com/avatar/8292832934cb5bd8a869f7c0823e939b?d=identicon&s=64"
    );
}

#[test]
fn blank_and_equality_helpers() {
    assert!(is_blank(""));
    assert!(is_blank(" \t\r\n"));
    assert!(!is_blank(" a "));
    assert!(str_eq("same", "same"));
    assert!(!str_eq("same", "other"));
}

#[test]
fn api_response_envelopes() {
    let ok: ApiResponse<u32> = ApiResponse::success(7);
    assert!(ok.success);
    assert_eq!(ok.data, Some(7));
    assert!(ok.error.is_none());

    let bad: ApiResponse<u32> = ApiResponse::error("boom".to_string());
    assert!(!bad.success);
    assert!(bad.data.is_none());
    assert_eq!(bad.error.as_deref(), Some("boom"));
}

#[test]
fn database_stats_counts_queries() {
    let mut stats = DatabaseStats::new();
    assert_eq!(stats.total_queries, 0);
    stats.record_query(25, true);
    stats.record_query(15, false);
    assert_eq!(stats.total_queries, 2);
    assert_eq!(stats.total_query_time, 40);
    assert_eq!(stats.failed_queries, 1);
    assert_eq!(stats.connection_pool_waits, 0);
}
