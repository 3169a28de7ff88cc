use control_api::{
    call_verify, check_token, finish_check, is_enabled, needs_body, Args, CheckStep, Config,
    HttpRequest, PendingCheck, TokenAnswer, TokenCache, VerifyReply, MAX_CACHE_ENTRIES,
    MSG_API_DOWN, MSG_DENIED, MSG_LOGIN_REQUIRED,
};

const SECOND: u64 = 1_000_000_000;

fn config(url: &str, token: &str, fail_open: bool, cache_secs: u64) -> Config {
    let config = Config::from_args(&Args {
        control_api_url: Some(url.to_owned()),
        control_api_token: Some(token.to_owned()),
        control_api_fail_open: Some(if fail_open { "Y" } else { "N" }.to_owned()),
        control_api_timeout_ms: None,
        control_api_cache_secs: Some(cache_secs.to_string()),
        control_api_seen_secs: None,
        control_api_attempts: None,
        control_api_attempt_dedupe_secs: None,
    });
    assert_eq!(is_enabled(&config), !url.is_empty());
    config
}

fn decided(step: CheckStep) -> Result<Option<String>, String> {
    match step {
        CheckStep::Done(outcome) => outcome,
        CheckStep::Verify(..) => panic!("the control API was to be asked"),
    }
}

fn asked(step: CheckStep) -> (PendingCheck, HttpRequest) {
    match step {
        CheckStep::Done(outcome) => panic!("decided: {outcome:?}"),
        CheckStep::Verify(pending, request) => (pending, request),
    }
}

fn answer(status: u16, body: &str) -> VerifyReply {
    VerifyReply::Answered { status, body: Some(body.as_bytes().to_vec()) }
}

#[test]
fn off_lets_everyone_pass() {
    let cache = TokenCache::new();
    let config = config("", "t", false, 60);
    assert_eq!(decided(check_token(&config, &cache, "", "1.2.3.4", 0)), Ok(None));
    assert_eq!(decided(check_token(&config, &cache, "tok", "1.2.3.4", 0)), Ok(None));
}

#[test]
fn empty_token_is_refused_even_when_failures_pass() {
    let cache = TokenCache::new();
    let config = config("http://a", "", true, 60);
    assert_eq!(
        decided(check_token(&config, &cache, "", "1.2.3.4", 0)),
        Err("Acesso negado: faça login no aplicativo para conectar.".to_owned())
    );
    assert_eq!(MSG_LOGIN_REQUIRED, "Acesso negado: faça login no aplicativo para conectar.");
}

#[test]
fn question_names_token_and_address() {
    let cache = TokenCache::new();
    let tricky = "a\"\\\u{1}\u{2028}é\u{1F600}";
    let (pending, request) = asked(check_token(
        &config("http://a/", "bearer-token", false, 60),
        &cache,
        tricky,
        "200.150.10.20",
        42,
    ));
    assert_eq!(pending.token, tricky);
    assert_eq!(pending.now, 42);
    assert_eq!(request.url, "http://a/tokens/verify");
    assert_eq!(request.bearer.as_deref(), Some("bearer-token"));
    let body: serde_json::Value = serde_json::from_slice(&request.body).unwrap();
    assert_eq!(body.as_object().unwrap().len(), 2);
    assert_eq!(body["token"], tricky);
    assert_eq!(body["ip"], "200.150.10.20");

    let (_, request) = asked(check_token(&config("http://a", "", false, 60), &cache, "t", "", 0));
    assert_eq!(request.bearer, None);
    assert_eq!(request.body, b"{\"ip\":\"\",\"token\":\"t\"}");
}

#[test]
fn replies_give_verdicts() {
    assert_eq!(
        call_verify(answer(200, "{\"user\": \"douglas\"}")),
        Ok((true, Some("douglas".to_owned())))
    );
    assert_eq!(
        call_verify(answer(200, "{\"x\": {\"user\": 1}, \"user\": \"a\\u00e9\\n\"}")),
        Ok((true, Some("aé\n".to_owned())))
    );
    assert_eq!(
        call_verify(answer(200, "{\"user\": \"first\", \"user\": \"last\"}")),
        Ok((true, Some("last".to_owned())))
    );
    for body in [
        "", "{}", "[\"user\"]", "\"user\"", "not json", "{\"user\": 7}", "{\"user\": null}",
        "{\"user\": [\"a\"]}", "{\"user\": {}}", "{\"user\": true}", "null", "3", "true",
        "{\"User\": \"a\"}", "{\"user\": \"a\"} x",
    ] {
        assert_eq!(call_verify(answer(200, body)), Ok((true, None)), "{body:?}");
    }
    assert_eq!(call_verify(VerifyReply::Answered { status: 200, body: None }), Ok((true, None)));
    assert_eq!(call_verify(answer(403, "{\"user\": \"douglas\"}")), Ok((false, None)));
    assert_eq!(call_verify(answer(500, "")), Err("unexpected status 500".to_owned()));
    assert_eq!(call_verify(answer(201, "{}")), Err("unexpected status 201".to_owned()));
    assert_eq!(call_verify(answer(0, "")), Err("unexpected status 0".to_owned()));
    assert_eq!(call_verify(VerifyReply::NoClient), Err("http client unavailable".to_owned()));
    assert_eq!(
        call_verify(VerifyReply::SendFailed("timed out".to_owned())),
        Err("timed out".to_owned())
    );
    assert!(needs_body(200));
    assert!(!needs_body(403));
    assert!(!needs_body(500));
}

#[test]
fn verdict_stands_for_its_time() {
    let config = config("http://a", "", false, 60);
    let mut cache = TokenCache::new();
    let (pending, _) = asked(check_token(&config, &cache, "tok", "ip", 10));
    let verdict = Ok((true, Some("douglas".to_owned())));
    let outcome = finish_check(&config, &mut cache, pending, verdict);
    assert_eq!(outcome, Ok(Some("douglas".to_owned())));

    let same = decided(check_token(&config, &cache, "tok", "other ip", 10 + 60 * SECOND - 1));
    assert_eq!(same, Ok(Some("douglas".to_owned())));
    // A reading from before the verdict finds it fresh.
    assert!(decided(check_token(&config, &cache, "tok", "ip", 0)).is_ok());
    // Another token is not affected.
    asked(check_token(&config, &cache, "tok2", "ip", 11));

    // Once the time is over the control API decides anew.
    let (pending, _) = asked(check_token(&config, &cache, "tok", "ip", 10 + 60 * SECOND));
    let outcome = finish_check(&config, &mut cache, pending, Ok((false, None)));
    assert_eq!(outcome, Err(MSG_DENIED.to_owned()));
    let kept = decided(check_token(&config, &cache, "tok", "ip", 11 + 60 * SECOND));
    assert_eq!(kept, Err("Acesso negado: usuário não autorizado.".to_owned()));
    assert_eq!(cache.len(), 1);
}

#[test]
fn failure_is_decided_by_the_settings_and_not_kept() {
    let mut cache = TokenCache::new();
    let closed = config("http://a", "", false, 60);
    let (pending, _) = asked(check_token(&closed, &cache, "tok", "ip", 0));
    assert_eq!(
        finish_check(&closed, &mut cache, pending, Err("timed out".to_owned())),
        Err("Servidor de autorização indisponível. Tente novamente em instantes.".to_owned())
    );
    assert_eq!(cache.len(), 0);

    let open = config("http://a", "", true, 60);
    let (pending, _) = asked(check_token(&open, &cache, "tok", "ip", 0));
    assert_eq!(finish_check(&open, &mut cache, pending, Err(String::new())), Ok(None));
    assert_eq!(cache.len(), 0);
    asked(check_token(&open, &cache, "tok", "ip", 0));
    assert!(MSG_API_DOWN.contains("indisponível"));
}

#[test]
fn a_time_of_zero_keeps_nothing_fresh() {
    let config = config("http://a", "", false, 0);
    let mut cache = TokenCache::new();
    let (pending, _) = asked(check_token(&config, &cache, "tok", "ip", 5));
    finish_check(&config, &mut cache, pending, Ok((true, None))).unwrap();
    asked(check_token(&config, &cache, "tok", "ip", 5));
}

#[test]
fn full_ledger_sweeps_what_expired() {
    let mut cache = TokenCache::new();
    let entry = || TokenAnswer { authorized: true, user: None };
    for i in 0..MAX_CACHE_ENTRIES {
        let tm = if i % 2 == 0 { 0 } else { 50 * SECOND };
        cache.put(&format!("t{i}"), entry(), tm, 60);
    }
    assert_eq!(cache.len(), 10_000);

    // A known name does not sweep.
    cache.put("t1", TokenAnswer { authorized: false, user: None }, 70 * SECOND, 60);
    assert_eq!(cache.len(), 10_000);
    assert!(cache.get("t0").is_some());
    assert!(!cache.get("t1").unwrap().value.authorized);

    // A new one does: the even entries are 70 seconds old.
    cache.put("new", entry(), 70 * SECOND, 60);
    assert_eq!(cache.len(), 5_001);
    assert!(cache.get("t0").is_none());
    assert_eq!(cache.get("t3").unwrap().tm, 50 * SECOND);
    assert_eq!(cache.name_at(0), "t1");
    assert_eq!(cache.name_at(5_000), "new");

    // With nothing expired it grows past its limit.
    let mut cache = TokenCache::new();
    for i in 0..=MAX_CACHE_ENTRIES {
        cache.put(&format!("t{i}"), entry(), 0, 60);
    }
    assert_eq!(cache.len(), 10_001);
}
