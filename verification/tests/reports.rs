use control_api::clock::{FIRST_DATED_SECOND, LAST_DATED_SECOND};
use control_api::{
    attempt_result, blocks_are_dated, diag, record_block, report_attempt, report_seen, Args,
    Attempt, AttemptKind, AttemptLog, AttemptResult, BlockLog, Config, ConnType, SeenLog,
    TokenAnswer, TokenCache, Via, WallTime, MSG_API_DOWN, MSG_DENIED, MSG_LOGIN_REQUIRED,
};

const SECOND: u64 = 1_000_000_000;

fn config(url: &str) -> Config {
    Config::from_args(&Args {
        control_api_url: Some(url.to_owned()),
        control_api_token: Some("srv".to_owned()),
        control_api_fail_open: None,
        control_api_timeout_ms: None,
        control_api_cache_secs: None,
        control_api_seen_secs: None,
        control_api_attempts: None,
        control_api_attempt_dedupe_secs: None,
    })
}

fn json(body: &[u8]) -> serde_json::Value {
    serde_json::from_slice(body).unwrap()
}

#[test]
fn seen_is_throttled_per_peer() {
    let config = config("http://a");
    let mut seen = SeenLog::new();
    let request = report_seen(&config, &mut seen, "123", "1.1.1.1".to_owned(), 0).unwrap();
    assert_eq!(request.url, "http://a/peers/seen");
    assert_eq!(request.bearer.as_deref(), Some("srv"));
    let body = json(&request.body);
    assert_eq!(body.as_object().unwrap().len(), 2);
    assert_eq!(body["id"], "123");
    assert_eq!(body["ip"], "1.1.1.1");

    let again = report_seen(&config, &mut seen, "123", "2.2.2.2".to_owned(), 300 * SECOND - 1);
    assert!(again.is_none());
    assert!(report_seen(&config, &mut seen, "124", "1.1.1.1".to_owned(), 1).is_some());
    // A report that was held back does not put off the next one.
    let due = report_seen(&config, &mut seen, "123", "2.2.2.2".to_owned(), 300 * SECOND);
    assert_eq!(json(&due.unwrap().body)["ip"], "2.2.2.2");
    assert_eq!(seen.len(), 2);
}

#[test]
fn seen_is_silent_for_no_peer_and_when_off() {
    let mut seen = SeenLog::new();
    let on = config("http://a");
    assert!(report_seen(&on, &mut seen, "", "1.1.1.1".to_owned(), 0).is_none());
    assert!(report_seen(&on, &mut seen, "(:test_hbbs:)", "1.1.1.1".to_owned(), 0).is_none());
    assert!(report_seen(&config(""), &mut seen, "123", "1.1.1.1".to_owned(), 0).is_none());
    assert_eq!(seen.len(), 0);
}

#[test]
fn block_log_holds_the_last_hundred() {
    let mut blocks = BlockLog::new();
    for i in 0..150u64 {
        record_block(&mut blocks, "1.1.1.1", &format!("target{i}"), "why", i);
    }
    assert_eq!(blocks.len(), 100);
    assert_eq!(blocks.entry_at(0).target_id, "target50");
    assert_eq!(blocks.entry_at(99).target_id, "target149");
    assert_eq!(blocks.entry_at(99).tm, 149);
    assert_eq!(blocks.entry_at(99).from_ip, "1.1.1.1");
    assert_eq!(blocks.entry_at(99).reason, "why");
}

fn attempt(ip: &str, target: &str, kind: AttemptKind) -> Attempt {
    Attempt {
        target_id: target.to_owned(),
        ip: ip.to_owned(),
        token: "a1b2c3d4e5f6".to_owned(),
        kind,
        conn_type: ConnType::DefaultConn,
        version: "1.4.1".to_owned(),
        via: Via::Tcp,
    }
}

#[test]
fn event_has_its_fields() {
    let config = config("http://a");
    let mut log = AttemptLog::new();
    let at = 1_785_501_296;
    let event = report_attempt(
        &config,
        &mut log,
        &attempt("200.150.10.20", "123456789", AttemptKind::PunchHole),
        &Ok(Some("douglas".to_owned())),
        0,
        at,
    )
    .unwrap();
    assert_eq!(event.url, "http://a/connections/attempt");
    assert_eq!(event.bearer.as_deref(), Some("srv"));
    let body = json(&event.body);
    assert_eq!(body.as_object().unwrap().len(), 11);
    assert_eq!(body["target_id"], "123456789");
    assert_eq!(body["ip"], "200.150.10.20");
    assert_eq!(body["token"], "a1b2c3d4e5f6");
    assert_eq!(body["user"], "douglas");
    assert_eq!(body["result"], "allowed");
    assert!(body["reason"].is_null());
    assert_eq!(body["kind"], "punch_hole");
    assert_eq!(body["conn_type"], "DEFAULT_CONN");
    assert_eq!(body["version"], "1.4.1");
    assert_eq!(body["via"], "tcp");
    assert_eq!(body["at"], "2026-07-31T12:34:56Z");

    let mut relay = attempt("200.150.10.20", "123456789", AttemptKind::Relay);
    relay.token = String::new();
    relay.conn_type = ConnType::ViewCamera;
    relay.via = Via::Ws;
    let refused = Err(MSG_LOGIN_REQUIRED.to_owned());
    let event = report_attempt(&config, &mut log, &relay, &refused, 1, 0).unwrap();
    let body = json(&event.body);
    assert_eq!(body.as_object().unwrap().len(), 11);
    assert_eq!(body["token"], "");
    assert!(body["user"].is_null());
    assert_eq!(body["result"], "login_required");
    assert_eq!(body["reason"], MSG_LOGIN_REQUIRED);
    assert_eq!(body["kind"], "relay");
    assert_eq!(body["conn_type"], "VIEW_CAMERA");
    assert!(body["version"].is_null());
    assert!(body.as_object().unwrap().contains_key("version"));
    assert_eq!(body["via"], "ws");
    assert_eq!(body["at"], "1970-01-01T00:00:00Z");
}

#[test]
fn names_of_purposes() {
    assert_eq!(ConnType::DefaultConn.name(), "DEFAULT_CONN");
    assert_eq!(ConnType::FileTransfer.name(), "FILE_TRANSFER");
    assert_eq!(ConnType::PortForward.name(), "PORT_FORWARD");
    assert_eq!(ConnType::Rdp.name(), "RDP");
    assert_eq!(ConnType::ViewCamera.name(), "VIEW_CAMERA");
    assert_eq!(ConnType::Terminal.name(), "TERMINAL");
}

#[test]
fn outcomes_have_their_results() {
    assert_eq!(attempt_result(&Ok(None)), AttemptResult::Allowed);
    assert_eq!(attempt_result(&Ok(Some("u".to_owned()))), AttemptResult::Allowed);
    assert_eq!(attempt_result(&Err(MSG_LOGIN_REQUIRED.to_owned())), AttemptResult::LoginRequired);
    assert_eq!(attempt_result(&Err(MSG_DENIED.to_owned())), AttemptResult::Denied);
    assert_eq!(attempt_result(&Err(MSG_API_DOWN.to_owned())), AttemptResult::ApiDown);
    assert_eq!(AttemptResult::ApiDown.name(), "api_down");
}

#[test]
fn repeats_are_reported_once_and_changes_always() {
    let config = config("http://a");
    let mut log = AttemptLog::new();
    let denied = Err(MSG_DENIED.to_owned());
    let allowed = Ok(None);
    let punch = attempt("1.1.1.1", "77", AttemptKind::PunchHole);
    assert!(report_attempt(&config, &mut log, &punch, &denied, 0, 0).is_some());
    assert!(report_attempt(&config, &mut log, &punch, &denied, 60 * SECOND - 1, 0).is_none());
    let relay = attempt("1.1.1.1", "77", AttemptKind::Relay);
    assert!(report_attempt(&config, &mut log, &relay, &denied, 1, 0).is_none());
    // Another result, address or target is another attempt.
    assert!(report_attempt(&config, &mut log, &punch, &allowed, 1, 0).is_some());
    let other = attempt("1.1.1.17", "7", AttemptKind::PunchHole);
    assert!(report_attempt(&config, &mut log, &other, &denied, 1, 0).is_some());
    let other = attempt("1.1.1.1", "777", AttemptKind::PunchHole);
    assert!(report_attempt(&config, &mut log, &other, &denied, 1, 0).is_some());
    assert!(report_attempt(&config, &mut log, &punch, &denied, 60 * SECOND, 0).is_some());
}

#[test]
fn attempts_can_be_switched_off() {
    let mut log = AttemptLog::new();
    let punch = attempt("1.1.1.1", "77", AttemptKind::PunchHole);
    let mut silent = config("http://a");
    silent.attempts = false;
    assert!(report_attempt(&silent, &mut log, &punch, &Ok(None), 0, 0).is_none());
    assert!(report_attempt(&config(""), &mut log, &punch, &Ok(None), 0, 0).is_none());
    assert_eq!(log.len(), 0);
}

#[test]
fn dates_reach_as_far_as_chrono() {
    let config = config("http://a");
    for (second, text) in [
        (FIRST_DATED_SECOND, "-262143-01-01T00:00:00Z"),
        (LAST_DATED_SECOND, "+262142-12-31T23:59:59Z"),
        (-1, "1969-12-31T23:59:59Z"),
    ] {
        let mut log = AttemptLog::new();
        let punch = attempt("1.1.1.1", "77", AttemptKind::PunchHole);
        let event = report_attempt(&config, &mut log, &punch, &Ok(None), 0, second).unwrap();
        assert_eq!(json(&event.body)["at"], text);
    }
    assert!(chrono::DateTime::from_timestamp(FIRST_DATED_SECOND - 1, 0).is_none());
    assert!(chrono::DateTime::from_timestamp(LAST_DATED_SECOND + 1, 0).is_none());
}

#[test]
fn diagnostics_when_off() {
    let text = diag(
        &config(""),
        &TokenCache::new(),
        &SeenLog::new(),
        &BlockLog::new(),
        WallTime { secs: 0, nanos: 0 },
        0,
    );
    assert_eq!(text, "enabled: false\n");
}

#[test]
fn diagnostics_list_what_is_kept() {
    let config = config("http://a/");
    let mut cache = TokenCache::new();
    let user = Some("dou\"glas".to_owned());
    cache.put("abcdefghijk", TokenAnswer { authorized: true, user }, SECOND, 60);
    cache.put("short", TokenAnswer { authorized: false, user: None }, 3 * SECOND, 60);
    let mut seen = SeenLog::new();
    assert!(report_seen(&config, &mut seen, "123", "1.1.1.1".to_owned(), 0).is_some());
    let mut blocks = BlockLog::new();
    record_block(&mut blocks, "1.1.1.1", "77", "first", SECOND);
    record_block(&mut blocks, "2.2.2.2", "78", "second", 2 * SECOND + 1);
    let wall = WallTime { secs: 1_785_501_296, nanos: 0 };
    let now = 4 * SECOND;
    assert!(blocks_are_dated(&blocks, wall, now));
    assert_eq!(
        diag(&config, &cache, &seen, &blocks, wall, now),
        "enabled: true\n\
         url: http://a\n\
         fail_open: false\n\
         timeout_ms: 2500 cache_secs: 60 seen_secs: 300\n\
         token cache: 2 entries\n  \
           abcdefgh... authorized=true user=Some(\"dou\\\"glas\") age=3s\n  \
           short... authorized=false user=None age=1s\n\
         seen throttle: 1 ids\n\
         recent blocks: 2\n  \
           2026-07-31T12:34:54Z 2.2.2.2 -> 78: second\n  \
           2026-07-31T12:34:53Z 1.1.1.1 -> 77: first\n"
    );
}

#[test]
fn diagnostics_list_twenty_at_most() {
    let config = config("http://a");
    let mut cache = TokenCache::new();
    let mut blocks = BlockLog::new();
    for i in 0..30u64 {
        cache.put(&format!("tok{i}"), TokenAnswer { authorized: true, user: None }, i, 60);
        record_block(&mut blocks, "1.1.1.1", &format!("target{i}"), "why", i);
    }
    let wall = WallTime { secs: 1_000_000, nanos: 5 };
    let text = diag(&config, &cache, &SeenLog::new(), &blocks, wall, SECOND);
    assert!(text.contains("token cache: 30 entries\n"));
    assert!(text.contains("recent blocks: 30\n"));
    assert_eq!(text.matches("authorized=").count(), 20);
    assert_eq!(text.matches(" -> ").count(), 20);
    assert!(text.contains("target29: why") && text.contains("target10: why"));
    assert!(!text.contains("target9: why"));
    assert!(text.find("target29").unwrap() < text.find("target28").unwrap());
}

#[test]
fn undated_blocks_are_told() {
    let mut blocks = BlockLog::new();
    record_block(&mut blocks, "1.1.1.1", "77", "why", 0);
    let first = WallTime { secs: FIRST_DATED_SECOND, nanos: 0 };
    assert!(blocks_are_dated(&blocks, first, 0));
    assert!(!blocks_are_dated(&blocks, first, 1));
    assert!(!blocks_are_dated(&blocks, WallTime { secs: i64::MIN, nanos: 0 }, u64::MAX));
    assert!(!blocks_are_dated(&blocks, WallTime { secs: LAST_DATED_SECOND + 1, nanos: 0 }, 0));
}

#[test]
fn block_log_is_sorted_and_drops_the_oldest() {
    let mut blocks = BlockLog::new();
    for i in 0..100u64 {
        record_block(&mut blocks, "1.1.1.1", "77", "why", 10 * (i / 2));
    }
    let oldest = blocks.entry_at(0).tm;
    record_block(&mut blocks, "1.1.1.1", "77", "why", 1_000);
    assert_eq!(blocks.len(), 100);
    for i in 0..99 {
        assert!(oldest <= blocks.entry_at(i).tm);
        assert!(blocks.entry_at(i).tm <= blocks.entry_at(i + 1).tm);
    }
    assert_eq!(blocks.entry_at(99).tm, 1_000);
}

#[test]
fn diagnostics_take_one_line_per_entry() {
    let config = config("http://a");
    let mut cache = TokenCache::new();
    let user = Some("two\nlines".to_owned());
    cache.put("tok1", TokenAnswer { authorized: true, user }, 0, 60);
    cache.put("tok2", TokenAnswer { authorized: true, user: None }, 0, 60);
    let mut blocks = BlockLog::new();
    for _ in 0..25 {
        record_block(&mut blocks, "1.1.1.1", "77", "why", 0);
    }
    let wall = WallTime { secs: 1_000_000, nanos: 0 };
    let text = diag(&config, &cache, &SeenLog::new(), &blocks, wall, 0);
    assert_eq!(text.lines().count(), 7 + 2 + 20);
    assert!(text.contains("user=Some(\"two\\nlines\")"));

    // Nothing changes by it.
    assert_eq!(cache.len(), 2);
    assert_eq!(blocks.len(), 25);
    assert_eq!(diag(&config, &cache, &SeenLog::new(), &blocks, wall, 0), text);
}
