use pronto::freshness::{
    last_seen_millis, server_is_live, show_instant, text_or_empty, token_is_valid,
};

#[test]
fn a_heartbeat_of_this_instant_is_live() {
    assert!(server_is_live(1_000_000, 1_000_000));
}

#[test]
fn a_heartbeat_one_microsecond_short_of_a_minute_is_live() {
    assert!(server_is_live(60_000_000 - 1, 0));
}

#[test]
fn a_heartbeat_of_a_minute_ago_is_not_live() {
    assert!(!server_is_live(60_000_000, 0));
    assert!(!server_is_live(i64::MAX, i64::MIN));
}

#[test]
fn a_heartbeat_in_the_future_is_live() {
    assert!(server_is_live(0, 5_000_000));
    assert!(server_is_live(i64::MIN, i64::MAX));
}

#[test]
fn a_token_is_valid_for_less_than_twenty_minutes() {
    assert!(token_is_valid(1_200_000_000 - 1, 0));
    assert!(!token_is_valid(1_200_000_000, 0));
    assert!(!token_is_valid(1_200_000_001, 0));
}

#[test]
fn ages_are_rounded_toward_zero() {
    assert_eq!(last_seen_millis(1_999, 0), 1);
    assert_eq!(last_seen_millis(0, 1_999), -1);
    assert_eq!(last_seen_millis(59_999_999, 0), 59_999);
    assert_eq!(last_seen_millis(0, 0), 0);
}

#[test]
fn an_instant_is_shown_as_date_and_time() {
    assert_eq!(show_instant(0), "1970-01-01 00:00:00");
    assert_eq!(show_instant(1_700_000_000_000_000), "2023-11-14 22:13:20");
    assert_eq!(show_instant(1_500_000), "1970-01-01 00:00:01.500");
    assert_eq!(show_instant(1_000_001), "1970-01-01 00:00:01.000001");
    assert_eq!(show_instant(-1_000_000), "1969-12-31 23:59:59");
}

#[test]
fn an_instant_that_has_no_date_is_shown_as_nothing() {
    assert_eq!(show_instant(i64::MAX), "");
    assert_eq!(show_instant(i64::MIN), "");
    assert_eq!(text_or_empty(None), "");
    assert_eq!(text_or_empty(Some("2023-11-14 22:13:20".to_string())), "2023-11-14 22:13:20");
}
