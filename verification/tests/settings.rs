use control_api::text::{decimal, leading_chars, parse_u64, trim_end_slashes};
use control_api::{is_enabled, Args, Config};

fn no_args() -> Args {
    Args {
        control_api_url: None,
        control_api_token: None,
        control_api_fail_open: None,
        control_api_timeout_ms: None,
        control_api_cache_secs: None,
        control_api_seen_secs: None,
        control_api_attempts: None,
        control_api_attempt_dedupe_secs: None,
    }
}

fn text(s: &str) -> Option<String> {
    Some(s.to_owned())
}

#[test]
fn defaults_without_arguments() {
    let config = Config::from_args(&no_args());
    assert!(!is_enabled(&config));
    assert_eq!(config.url, "");
    assert_eq!(config.token, "");
    assert!(!config.fail_open);
    assert_eq!(config.timeout_ms, 2500);
    assert_eq!(config.cache_secs, 60);
    assert_eq!(config.seen_secs, 300);
    assert!(config.attempts);
    assert_eq!(config.attempt_dedupe_secs, 60);
}

#[test]
fn given_arguments_are_taken() {
    let mut args = no_args();
    args.control_api_url = text("http://api.example//");
    args.control_api_token = text("s3cret/");
    args.control_api_fail_open = text("y");
    args.control_api_timeout_ms = text("100");
    args.control_api_cache_secs = text("+7");
    args.control_api_seen_secs = text("0");
    args.control_api_attempts = text("N");
    args.control_api_attempt_dedupe_secs = text("90");
    let config = Config::from_args(&args);
    assert!(is_enabled(&config));
    assert_eq!(config.url, "http://api.example");
    assert_eq!(config.token, "s3cret/");
    assert!(config.fail_open);
    assert_eq!(config.timeout_ms, 100);
    assert_eq!(config.cache_secs, 7);
    assert_eq!(config.seen_secs, 0);
    assert!(!config.attempts);
    assert_eq!(config.attempt_dedupe_secs, 90);
}

#[test]
fn unreadable_numbers_take_their_defaults() {
    let mut args = no_args();
    args.control_api_timeout_ms = text("2.5s");
    args.control_api_cache_secs = text("-1");
    args.control_api_seen_secs = text("");
    args.control_api_attempt_dedupe_secs = text("18446744073709551616");
    let config = Config::from_args(&args);
    assert_eq!(config.timeout_ms, 2500);
    assert_eq!(config.cache_secs, 60);
    assert_eq!(config.seen_secs, 300);
    assert_eq!(config.attempt_dedupe_secs, 60);
}

#[test]
fn an_address_of_slashes_is_off() {
    let mut args = no_args();
    args.control_api_url = text("///");
    assert!(!is_enabled(&Config::from_args(&args)));
}

#[test]
fn fail_open_is_the_letter_in_upper_case() {
    let mut args = no_args();
    for c in '\0'..=char::MAX {
        let s = c.to_string();
        if s.to_uppercase() == "Y" || c.is_ascii() {
            args.control_api_fail_open = Some(s.clone());
            assert_eq!(Config::from_args(&args).fail_open, s.to_uppercase() == "Y", "{s:?}");
        }
        if s.to_uppercase() == "N" || c.is_ascii() {
            args.control_api_attempts = Some(s.clone());
            assert_eq!(Config::from_args(&args).attempts, s.to_uppercase() != "N", "{s:?}");
        }
    }
    for s in ["", "YES", "yy", "true", "1", " y"] {
        args.control_api_fail_open = text(s);
        assert!(!Config::from_args(&args).fail_open);
    }
}

#[test]
fn numbers_read_as_the_standard_library_reads_them() {
    for s in [
        "0", "00012", "+5", "++5", "+", "-", "-0", "", " 1", "1 ", "1_000", "18446744073709551615",
        "18446744073709551616", "99999999999999999999999", "99999999999999999999x", "٣", "12a",
        "+18446744073709551615",
    ] {
        assert_eq!(parse_u64(s), s.parse::<u64>().ok(), "{s:?}");
    }
}

#[test]
fn decimal_reads_back() {
    for n in [0, 9, 10, 101, 2500, u64::MAX - 1, u64::MAX] {
        assert_eq!(decimal(n), n.to_string());
        assert_eq!(parse_u64(&decimal(n)), Some(n));
    }
}

#[test]
fn trimming_and_prefixes() {
    for s in ["", "/", "//", "a", "a/", "/a//", "á/b/", "http://h:1/x//"] {
        assert_eq!(trim_end_slashes(s), s.trim_end_matches('/'));
    }
    assert_eq!(leading_chars("ação-secreta", 8), "ação-sec");
    assert_eq!(leading_chars("abc", 8), "abc");
    assert_eq!(leading_chars("abcdefgh", 8), "abcdefgh");
}
