// Drives the authorization the way a server does: a mock of the control API answers
// the requests, and every attempt is reported with its outcome.
use control_api::{
    call_verify, check_token, finish_check, record_block, report_attempt, Args, Attempt, AttemptKind,
    AttemptLog, BlockLog, CheckStep, Config, ConnType, HttpRequest, TokenCache, VerifyReply, Via,
};

const TARGET_ID: &str = "999888777";
const CLIENT_IP: &str = "127.0.0.1";
const NOON: i64 = 1_785_501_296;
const SECOND: u64 = 1_000_000_000;

#[derive(Debug, PartialEq)]
enum Failure {
    Unset,
    IdNotExist,
}

#[derive(Debug)]
struct PunchHoleResponse {
    other_failure: String,
    failure: Failure,
}

struct Server {
    config: Config,
    api_up: bool,
    now: u64,
    tokens: TokenCache,
    blocks: BlockLog,
    attempts: AttemptLog,
    verify_calls: usize,
    events: Vec<serde_json::Value>,
    lost_events: usize,
}

fn args(api_url: Option<&str>) -> Args {
    Args {
        control_api_url: api_url.map(|s| s.to_owned()),
        control_api_token: None,
        control_api_fail_open: None,
        control_api_timeout_ms: None,
        control_api_cache_secs: None,
        control_api_seen_secs: None,
        control_api_attempts: None,
        control_api_attempt_dedupe_secs: None,
    }
}

impl Server {
    fn new(api_url: Option<&str>) -> Server {
        Server {
            config: Config::from_args(&args(api_url)),
            api_up: true,
            now: 5 * SECOND,
            tokens: TokenCache::new(),
            blocks: BlockLog::new(),
            attempts: AttemptLog::new(),
            verify_calls: 0,
            events: Vec::new(),
            lost_events: 0,
        }
    }

    // The mock control API: knows one token.
    fn verify(&mut self, request: &HttpRequest) -> VerifyReply {
        if !self.api_up {
            return VerifyReply::SendFailed("connection refused".to_owned());
        }
        self.verify_calls += 1;
        let body: serde_json::Value = serde_json::from_slice(&request.body).unwrap();
        assert!(request.url.ends_with("/tokens/verify"));
        assert_eq!(body["ip"], CLIENT_IP);
        if body["token"] == "tok-aprovado" {
            VerifyReply::Answered { status: 200, body: Some(b"{\"user\": \"douglas\"}".to_vec()) }
        } else {
            VerifyReply::Answered { status: 403, body: None }
        }
    }

    fn authorize(&mut self, kind: AttemptKind, token: &str, target: &str) -> Result<Option<String>, String> {
        let outcome = match check_token(&self.config, &self.tokens, token, CLIENT_IP, self.now) {
            CheckStep::Done(outcome) => outcome,
            CheckStep::Verify(pending, request) => {
                let verdict = call_verify(self.verify(&request));
                finish_check(&self.config, &mut self.tokens, pending, verdict)
            }
        };
        if let Err(reason) = &outcome {
            record_block(&mut self.blocks, CLIENT_IP, target, reason, self.now);
        }
        let attempt = Attempt {
            target_id: target.to_owned(),
            ip: CLIENT_IP.to_owned(),
            token: token.to_owned(),
            kind,
            conn_type: ConnType::DefaultConn,
            version: "1.4.1".to_owned(),
            via: Via::Tcp,
        };
        if let Some(event) =
            report_attempt(&self.config, &mut self.attempts, &attempt, &outcome, self.now, NOON)
        {
            if self.api_up {
                assert!(event.url.ends_with("/connections/attempt"));
                self.events.push(serde_json::from_slice(&event.body).unwrap());
            } else {
                self.lost_events += 1;
            }
        }
        self.now += SECOND / 10;
        outcome
    }

    fn punch_to(&mut self, token: &str, target: &str) -> PunchHoleResponse {
        match self.authorize(AttemptKind::PunchHole, token, target) {
            // The target is not registered.
            Ok(_) => PunchHoleResponse { other_failure: String::new(), failure: Failure::IdNotExist },
            Err(message) => PunchHoleResponse { other_failure: message, failure: Failure::Unset },
        }
    }

    fn punch(&mut self, token: &str) -> PunchHoleResponse {
        self.punch_to(token, TARGET_ID)
    }

    // The refusal, or nothing: the target is not registered.
    fn request_relay(&mut self, token: &str) -> Option<String> {
        self.authorize(AttemptKind::Relay, token, TARGET_ID).err()
    }

    fn has_event(&self, member: &str, value: &str) -> bool {
        self.events.iter().any(|event| event[member] == value)
    }
}

#[test]
fn gate_blocks_and_allows_by_token() {
    let mut server = Server::new(Some("http://127.0.0.1:41999"));

    // Not logged in: refused with the request to log in.
    let resp = server.punch("");
    assert!(resp.other_failure.contains("login"), "expected login-required message, got: {resp:?}");
    assert_eq!(server.verify_calls, 0);

    // Unknown token: refused as not authorized.
    let resp = server.punch("tok-invalido");
    assert!(
        resp.other_failure.contains("não autorizado"),
        "expected denied message, got: {resp:?}"
    );

    // Approved token: passes.
    let resp = server.punch("tok-aprovado");
    assert!(resp.other_failure.is_empty(), "should not block: {resp:?}");
    assert_eq!(resp.failure, Failure::IdNotExist, "expected ID_NOT_EXIST after passing: {resp:?}");

    let rr = server.request_relay("tok-invalido2").expect("expected a relay refusal response");
    assert!(!rr.is_empty(), "expected refuse_reason, got: {rr:?}");

    let rr = server.request_relay("tok-aprovado");
    assert!(rr.is_none(), "approved relay must not be refused: {rr:?}");

    assert!(server.has_event("result", "allowed"));
    assert!(server.has_event("result", "login_required"), "expected a login_required attempt event");
    assert!(server.has_event("result", "denied"), "expected a denied attempt event");
    assert!(server.has_event("target_id", TARGET_ID), "attempt events must carry the target id");
    assert!(server.has_event("kind", "punch_hole"), "expected punch_hole events");
    assert!(
        !server.has_event("kind", "relay"),
        "relay attempts duplicating a punch hole must be deduped"
    );
    assert_eq!(server.events.len(), 3);

    // The control API is down and the token is not cached: refused.
    server.api_up = false;
    let resp = server.punch("tok-novo-sem-cache");
    assert!(
        resp.other_failure.contains("indisponível"),
        "expected fail-closed message, got: {resp:?}"
    );
    assert_eq!(server.blocks.len(), 4);
}

#[test]
fn attempt_post_failure_does_not_block() {
    let mut server = Server::new(Some("http://127.0.0.1:43999"));

    let resp = server.punch("tok-aprovado");
    assert!(resp.other_failure.is_empty(), "should not block: {resp:?}");

    // The verdict stands while the API is gone, and a lost event changes nothing.
    server.api_up = false;
    let resp = server.punch_to("tok-aprovado", "111222333");
    assert!(
        resp.other_failure.is_empty(),
        "a failing audit post must not refuse the connection: {resp:?}"
    );
    assert_eq!(resp.failure, Failure::IdNotExist, "expected the normal ID_NOT_EXIST: {resp:?}");
    assert_eq!(server.lost_events, 1);
}

#[test]
fn vanilla_without_api_url_does_not_block() {
    let mut server = Server::new(None);

    let resp = server.punch("");
    assert!(resp.other_failure.is_empty(), "vanilla must not block: {resp:?}");
    assert_eq!(resp.failure, Failure::IdNotExist, "expected plain ID_NOT_EXIST: {resp:?}");
    assert_eq!(server.verify_calls, 0);
    assert!(server.events.is_empty());
}
