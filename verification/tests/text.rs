use rusic::config::{check_server_url, ServerFormError, default_discord_presence, default_sort_order, default_theme, JellyfinServer, MusicSource, SortOrder};
use rusic::text::{contains_str, decimal, join, split_on, trim_end_char};

#[test]
fn split_keeps_empty_pieces() {
    assert_eq!(split_on("jellyfin:id:tag", ':'), vec!["jellyfin", "id", "tag"]);
    assert_eq!(split_on(":a::", ':'), vec!["", "a", "", ""]);
    assert_eq!(split_on("", ':'), vec![""]);
}

#[test]
fn join_and_decimal() {
    assert_eq!(join(&vec!["a".to_string(), "b".to_string()], ", "), "a, b");
    assert_eq!(join(&vec![], ", "), "");
    assert_eq!(decimal(0), "0");
    assert_eq!(decimal(1234567890123), "1234567890123");
    assert_eq!(decimal(u64::MAX), "18446744073709551615");
}

#[test]
fn trailing_slashes_are_trimmed() {
    assert_eq!(trim_end_char("http://x///", '/'), "http://x");
    assert_eq!(trim_end_char("///", '/'), "");
}

#[test]
fn server_entry_and_defaults() {
    let s = JellyfinServer::new("Home".to_string(), "http://srv:8096/".to_string());
    assert_eq!(s.url, "http://srv:8096");
    assert_eq!(s.name, "Home");
    assert!(s.access_token.is_none() && s.user_id.is_none());
    let d = JellyfinServer::default();
    assert_eq!(d.url, "");
    assert_eq!(default_theme(), "default");
    assert_eq!(default_discord_presence(), Some(true));
    assert_eq!(default_sort_order(), SortOrder::Title);
    assert_eq!(MusicSource::default(), MusicSource::Local);
}

#[test]
fn substring_search() {
    assert!(contains_str("jellyfin:abc123:tag", "abc123"));
    assert!(contains_str("abc", "abc"));
    assert!(contains_str("abc", ""));
    assert!(!contains_str("abc", "abcd"));
    assert!(!contains_str("jellyfin:abd", "abc"));
    assert!(contains_str("aab", "ab"));
}

#[test]
fn server_urls_must_be_http() {
    assert_eq!(check_server_url("http://srv:8096"), Ok(()));
    assert_eq!(check_server_url("https://srv"), Ok(()));
    assert_eq!(check_server_url("srv:8096"), Err(ServerFormError::InvalidServerUrl));
    assert_eq!(check_server_url(""), Err(ServerFormError::InvalidServerUrl));
}
