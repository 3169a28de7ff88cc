//! Audit events: one for each attempt of a controller to connect, whatever came
//! of it.

use crate::check::{
    outcome_view, passes, refused, verdict_outcome, OutcomeView, MSG_API_DOWN, MSG_DENIED,
    MSG_LOGIN_REQUIRED,
};
use crate::clock::{age_secs, is_dated, nanos_since, rfc3339, rfc3339_text, NANOS_PER_SEC};
use crate::config::{enabled, is_enabled, Config, ConfigView};
use crate::json::{
    distinct_names, fields_view, json_members, law_written_fields_are_members, written_field, written_members,
    FieldView,
};
use crate::ledger::{
    entries_after_put, fresh_entry, law_fresh_entry_is_the_kept_one, law_put_changes_one_entry,
    law_put_is_fresh_for_its_time, law_put_keeps_other_fresh_entries, names_after_put, Ledger, Stamped,
};
use crate::request::{post, post_request, HttpRequest, RequestView};
use crate::text::{
    copy_opt_text, decimal, decimal_text, is_digit, lemma_decimal_text, same_text,
};
use crate::verify::VerdictView;
use vstd::prelude::*;

verus! {

/// What came of an attempt.
#[derive(Clone, Copy, PartialEq, Eq, Structural, Debug)]
pub enum AttemptResult {
    Allowed,
    LoginRequired,
    Denied,
    ApiDown,
}

/// How the connection was to be made.
#[derive(Clone, Copy, PartialEq, Eq, Structural, Debug)]
pub enum AttemptKind {
    PunchHole,
    Relay,
}

/// What the connection was for.
#[derive(Clone, Copy, PartialEq, Eq, Structural, Debug)]
pub enum ConnType {
    DefaultConn,
    FileTransfer,
    PortForward,
    Rdp,
    ViewCamera,
    Terminal,
}

/// How the controller reached the server.
#[derive(Clone, Copy, PartialEq, Eq, Structural, Debug)]
pub enum Via {
    Tcp,
    Ws,
}

/// An attempt to connect.
pub struct Attempt {
    pub target_id: String,
    pub ip: String,
    /// Empty where the controller is not logged in.
    pub token: String,
    pub kind: AttemptKind,
    pub conn_type: ConnType,
    /// The controller's version, which only a punch hole carries.
    pub version: String,
    pub via: Via,
}

/// An attempt, with texts as their characters.
pub struct AttemptView {
    pub target_id: Seq<char>,
    pub ip: Seq<char>,
    pub token: Seq<char>,
    pub kind: AttemptKind,
    pub conn_type: ConnType,
    pub version: Seq<char>,
    pub via: Via,
}

impl View for Attempt {
    type V = AttemptView;

    open spec fn view(&self) -> AttemptView {
        AttemptView {
            target_id: self.target_id@,
            ip: self.ip@,
            token: self.token@,
            kind: self.kind,
            conn_type: self.conn_type,
            version: self.version@,
            via: self.via,
        }
    }
}

impl AttemptResult {
    /// The name under which the result is reported.
    pub open spec fn name_text(self) -> Seq<char> {
        match self {
            AttemptResult::Allowed => "allowed"@,
            AttemptResult::LoginRequired => "login_required"@,
            AttemptResult::Denied => "denied"@,
            AttemptResult::ApiDown => "api_down"@,
        }
    }

    /// Names the result.
    pub fn name(self) -> (name: &'static str)
        ensures
            name@ == self.name_text(),
    {
        match self {
            AttemptResult::Allowed => "allowed",
            AttemptResult::LoginRequired => "login_required",
            AttemptResult::Denied => "denied",
            AttemptResult::ApiDown => "api_down",
        }
    }

    /// The mark of the result in the name of an entry.
    pub open spec fn mark_text(self) -> Seq<char> {
        match self {
            AttemptResult::Allowed => "A"@,
            AttemptResult::LoginRequired => "L"@,
            AttemptResult::Denied => "D"@,
            AttemptResult::ApiDown => "U"@,
        }
    }

    fn mark(self) -> (mark: &'static str)
        ensures
            mark@ == self.mark_text(),
    {
        match self {
            AttemptResult::Allowed => "A",
            AttemptResult::LoginRequired => "L",
            AttemptResult::Denied => "D",
            AttemptResult::ApiDown => "U",
        }
    }
}

impl AttemptKind {
    /// The name under which the kind is reported.
    pub open spec fn name_text(self) -> Seq<char> {
        match self {
            AttemptKind::PunchHole => "punch_hole"@,
            AttemptKind::Relay => "relay"@,
        }
    }

    /// Names the kind.
    pub fn name(self) -> (name: &'static str)
        ensures
            name@ == self.name_text(),
    {
        match self {
            AttemptKind::PunchHole => "punch_hole",
            AttemptKind::Relay => "relay",
        }
    }
}

impl ConnType {
    /// The name under which the purpose is reported.
    pub open spec fn name_text(self) -> Seq<char> {
        match self {
            ConnType::DefaultConn => "DEFAULT_CONN"@,
            ConnType::FileTransfer => "FILE_TRANSFER"@,
            ConnType::PortForward => "PORT_FORWARD"@,
            ConnType::Rdp => "RDP"@,
            ConnType::ViewCamera => "VIEW_CAMERA"@,
            ConnType::Terminal => "TERMINAL"@,
        }
    }

    /// Names the purpose.
    pub fn name(self) -> (name: &'static str)
        ensures
            name@ == self.name_text(),
    {
        match self {
            ConnType::DefaultConn => "DEFAULT_CONN",
            ConnType::FileTransfer => "FILE_TRANSFER",
            ConnType::PortForward => "PORT_FORWARD",
            ConnType::Rdp => "RDP",
            ConnType::ViewCamera => "VIEW_CAMERA",
            ConnType::Terminal => "TERMINAL",
        }
    }
}

impl Via {
    /// The name under which the way is reported.
    pub open spec fn name_text(self) -> Seq<char> {
        match self {
            Via::Tcp => "tcp"@,
            Via::Ws => "ws"@,
        }
    }

    /// Names the way.
    pub fn name(self) -> (name: &'static str)
        ensures
            name@ == self.name_text(),
    {
        match self {
            Via::Tcp => "tcp",
            Via::Ws => "ws",
        }
    }
}

/// What an outcome is reported as: a pass as allowed, a refusal by its message.
pub open spec fn result_of(outcome: OutcomeView) -> AttemptResult {
    match outcome {
        Ok(_) => AttemptResult::Allowed,
        Err(message) => if message == MSG_LOGIN_REQUIRED@ {
            AttemptResult::LoginRequired
        } else if message == MSG_DENIED@ {
            AttemptResult::Denied
        } else {
            AttemptResult::ApiDown
        },
    }
}

/// Classes an outcome.
pub fn attempt_result(outcome: &Result<Option<String>, String>) -> (result: AttemptResult)
    ensures
        result == result_of(outcome_view(*outcome)),
{
    match outcome {
        Ok(_) => AttemptResult::Allowed,
        Err(message) => if same_text(message.as_str(), MSG_LOGIN_REQUIRED) {
            AttemptResult::LoginRequired
        } else if same_text(message.as_str(), MSG_DENIED) {
            AttemptResult::Denied
        } else {
            AttemptResult::ApiDown
        },
    }
}

/// When each kind of attempt was last reported.
pub type AttemptLog = Ledger<()>;

/// When each kind of attempt was last reported, as a map.
pub type AttemptLogView = Map<Seq<char>, Stamped<()>>;

/// The name of the entry that stands for all attempts from `ip` on `target_id` with
/// one result.
pub open spec fn attempt_key(ip: Seq<char>, target_id: Seq<char>, result: AttemptResult) -> Seq<char> {
    result.mark_text() + decimal_text(ip.len()) + ":"@ + ip + target_id
}

fn key_of(ip: &str, target_id: &str, result: AttemptResult) -> (key: String)
    ensures
        key@ == attempt_key(ip@, target_id@, result),
{
    let mut key = result.mark().to_owned();
    key.append(decimal(ip.unicode_len() as u64).as_str());
    key.append(":");
    key.append(ip);
    key.append(target_id);
    key
}

/// Whether an attempt is to be reported: authorization and reports are on, and no
/// attempt with the same address, target and result was reported within the
/// configured time.
pub open spec fn attempt_is_due(
    config: ConfigView,
    log: AttemptLogView,
    ip: Seq<char>,
    target_id: Seq<char>,
    result: AttemptResult,
    now: u64,
) -> bool {
    &&& enabled(config)
    &&& config.attempts
    &&& fresh_entry(
        log,
        attempt_key(ip, target_id, result),
        now,
        config.attempt_dedupe_secs,
    ) is None
}

/// When each kind of attempt was last reported, after an attempt.
pub open spec fn attempts_after(
    config: ConfigView,
    log: AttemptLogView,
    ip: Seq<char>,
    target_id: Seq<char>,
    result: AttemptResult,
    now: u64,
) -> AttemptLogView {
    if attempt_is_due(config, log, ip, target_id, result, now) {
        entries_after_put(
            log,
            attempt_key(ip, target_id, result),
            (),
            now,
            config.attempt_dedupe_secs,
        )
    } else {
        log
    }
}

/// The user that an outcome names.
pub open spec fn outcome_user(outcome: OutcomeView) -> Option<Seq<char>> {
    match outcome {
        Ok(user) => user,
        Err(_) => None,
    }
}

/// The message that an outcome refuses with.
pub open spec fn outcome_reason(outcome: OutcomeView) -> Option<Seq<char>> {
    match outcome {
        Ok(_) => None,
        Err(message) => Some(message),
    }
}

/// The version that is reported of an attempt.
pub open spec fn reported_version(attempt: AttemptView) -> Option<Seq<char>> {
    match attempt.kind {
        AttemptKind::PunchHole => Some(attempt.version),
        AttemptKind::Relay => None,
    }
}

/// The fields of an event.
pub open spec fn attempt_fields(attempt: AttemptView, outcome: OutcomeView, second: int) -> Seq<
    (Seq<char>, Option<Seq<char>>),
> {
    seq![
        ("target_id"@, Some(attempt.target_id)),
        ("ip"@, Some(attempt.ip)),
        ("token"@, Some(attempt.token)),
        ("user"@, outcome_user(outcome)),
        ("result"@, Some(result_of(outcome).name_text())),
        ("reason"@, outcome_reason(outcome)),
        ("kind"@, Some(attempt.kind.name_text())),
        ("conn_type"@, Some(attempt.conn_type.name_text())),
        ("version"@, reported_version(attempt)),
        ("via"@, Some(attempt.via.name_text())),
        ("at"@, Some(rfc3339_text(second))),
    ]
}

/// The event of an attempt with its outcome, at a second since the Unix epoch.
pub open spec fn attempt_request(
    config: ConfigView,
    attempt: AttemptView,
    outcome: OutcomeView,
    second: int,
) -> RequestView {
    post_request(config, "/connections/attempt"@, attempt_fields(attempt, outcome, second))
}

fn event_fields(attempt: &Attempt, outcome: &Result<Option<String>, String>, second: i64) -> (fields:
    Vec<(String, Option<String>)>)
    requires
        is_dated(second as int),
    ensures
        fields_view(fields@) == attempt_fields(attempt@, outcome_view(*outcome), second as int),
        rfc3339_text(second as int).last() == 'Z',
{
    let result = attempt_result(outcome);
    let user: Option<String> = match outcome {
        Ok(user) => copy_opt_text(user),
        Err(_) => None,
    };
    let reason: Option<String> = match outcome {
        Ok(_) => None,
        Err(message) => Some(message.clone()),
    };
    let version: Option<String> = match attempt.kind {
        AttemptKind::PunchHole => Some(attempt.version.clone()),
        AttemptKind::Relay => None,
    };
    let fields: Vec<(String, Option<String>)> = vec![
        ("target_id".to_owned(), Some(attempt.target_id.clone())),
        ("ip".to_owned(), Some(attempt.ip.clone())),
        ("token".to_owned(), Some(attempt.token.clone())),
        ("user".to_owned(), user),
        ("result".to_owned(), Some(result.name().to_owned())),
        ("reason".to_owned(), reason),
        ("kind".to_owned(), Some(attempt.kind.name().to_owned())),
        ("conn_type".to_owned(), Some(attempt.conn_type.name().to_owned())),
        ("version".to_owned(), version),
        ("via".to_owned(), Some(attempt.via.name().to_owned())),
        ("at".to_owned(), Some(rfc3339(second))),
    ];
    assert(fields_view(fields@) =~= attempt_fields(
        attempt@,
        outcome_view(*outcome),
        second as int,
    ));
    fields
}

/// Reports an attempt with its outcome, unless one like it was just reported: the
/// result is the event to send, if any. `second` is the wall clock's.
pub fn report_attempt(
    config: &Config,
    log: &mut AttemptLog,
    attempt: &Attempt,
    outcome: &Result<Option<String>, String>,
    now: u64,
    second: i64,
) -> (request: Option<HttpRequest>)
    requires
        old(log).wf(),
        is_dated(second as int),
    ensures
        final(log).wf(),
        final(log)@ == attempts_after(
            config@,
            old(log)@,
            attempt.ip@,
            attempt.target_id@,
            result_of(outcome_view(*outcome)),
            now,
        ),
        final(log).names() == (if attempt_is_due(
            config@,
            old(log)@,
            attempt.ip@,
            attempt.target_id@,
            result_of(outcome_view(*outcome)),
            now,
        ) {
            names_after_put(
                old(log).names(),
                old(log)@,
                attempt_key(
                    attempt.ip@,
                    attempt.target_id@,
                    result_of(outcome_view(*outcome)),
                ),
                now,
                config@.attempt_dedupe_secs,
            )
        } else {
            old(log).names()
        }),
        ({
            let due = attempt_is_due(
                config@,
                old(log)@,
                attempt.ip@,
                attempt.target_id@,
                result_of(outcome_view(*outcome)),
                now,
            );
            match request {
                Some(r) => {
                    &&& due
                    &&& r@ == attempt_request(
                        config@,
                        attempt@,
                        outcome_view(*outcome),
                        second as int,
                    )
                    &&& r.url@ == config.url@ + "/connections/attempt"@
                    &&& json_members(r.body@) == Some(
                        written_members(
                            attempt_fields(attempt@, outcome_view(*outcome), second as int),
                        ),
                    )
                    &&& rfc3339_text(second as int).last() == 'Z'
                },
                None => !due,
            }
        }),
{
    if !is_enabled(config) || !config.attempts {
        return None;
    }
    let result = attempt_result(outcome);
    let key = key_of(attempt.ip.as_str(), attempt.target_id.as_str(), result);
    if let Some(entry) = log.get(key.as_str()) {
        if age_secs(now, entry.tm) < config.attempt_dedupe_secs {
            return None;
        }
    }
    log.put(key.as_str(), (), now, config.attempt_dedupe_secs);
    proof {
        lemma_field_names_differ(attempt@, outcome_view(*outcome), second as int);
    }
    Some(post(config, "/connections/attempt", event_fields(attempt, outcome, second)))
}

proof fn lemma_marks(a: AttemptResult, b: AttemptResult)
    ensures
        a.mark_text().len() == 1,
        a.mark_text()[0] == b.mark_text()[0] ==> a == b,
{
    reveal_strlit("A");
    reveal_strlit("L");
    reveal_strlit("D");
    reveal_strlit("U");
}

/// Attempts share an entry only where address, target and result all agree.
pub proof fn law_key_tells_attempts_apart(
    ip1: Seq<char>,
    target1: Seq<char>,
    result1: AttemptResult,
    ip2: Seq<char>,
    target2: Seq<char>,
    result2: AttemptResult,
)
    requires
        attempt_key(ip1, target1, result1) == attempt_key(ip2, target2, result2),
    ensures
        ip1 == ip2,
        target1 == target2,
        result1 == result2,
{
    let k1 = attempt_key(ip1, target1, result1);
    let k2 = attempt_key(ip2, target2, result2);
    let d1 = decimal_text(ip1.len());
    let d2 = decimal_text(ip2.len());
    let n1 = d1.len() as int;
    let n2 = d2.len() as int;
    lemma_marks(result1, result2);
    lemma_marks(result2, result1);
    lemma_decimal_text(ip1.len());
    lemma_decimal_text(ip2.len());
    reveal_strlit(":");
    assert(k1[0] == result1.mark_text()[0]);
    assert(k2[0] == result2.mark_text()[0]);
    assert(k1[1 + n1] == ':');
    assert(k2[1 + n2] == ':');
    // A shorter number would put its colon where the longer one has a digit.
    if n1 < n2 {
        assert(is_digit(d2[n1]));
    }
    if n2 < n1 {
        assert(is_digit(d1[n2]));
    }
    assert(d1 =~= k1.subrange(1, 1 + n1));
    assert(d2 =~= k2.subrange(1, 1 + n1));
    let m = ip1.len() as int;
    assert(ip1 =~= k1.subrange(2 + n1, 2 + n1 + m));
    assert(ip2 =~= k2.subrange(2 + n1, 2 + n1 + m));
    assert(target1 =~= k1.skip(2 + n1 + m));
    assert(target2 =~= k2.skip(2 + n1 + m));
}

/// An attempt that was just reported stands for its repeats, of whatever kind and
/// with whatever token, until the configured time has passed.
pub proof fn law_repeats_are_reported_once(
    config: ConfigView,
    log: AttemptLogView,
    ip: Seq<char>,
    target_id: Seq<char>,
    result: AttemptResult,
    now: u64,
    later: u64,
)
    requires
        attempt_is_due(config, log, ip, target_id, result, now),
    ensures
        attempt_is_due(
            config,
            attempts_after(config, log, ip, target_id, result, now),
            ip,
            target_id,
            result,
            later,
        ) <==> nanos_since(later, now) >= config.attempt_dedupe_secs * NANOS_PER_SEC,
{
    law_put_is_fresh_for_its_time(
        log,
        attempt_key(ip, target_id, result),
        (),
        now,
        config.attempt_dedupe_secs,
        later,
    );
}

/// An attempt silences no other: where address, target or result differs, what is
/// due stays due. So a change of the result is always reported.
pub proof fn law_a_new_result_is_reported(
    config: ConfigView,
    log: AttemptLogView,
    ip: Seq<char>,
    target_id: Seq<char>,
    result: AttemptResult,
    now: u64,
    other_ip: Seq<char>,
    other_target_id: Seq<char>,
    other_result: AttemptResult,
    later: u64,
)
    requires
        ip != other_ip || target_id != other_target_id || result != other_result,
        now <= later,
    ensures
        attempt_is_due(
            config,
            attempts_after(config, log, ip, target_id, result, now),
            other_ip,
            other_target_id,
            other_result,
            later,
        ) == attempt_is_due(config, log, other_ip, other_target_id, other_result, later),
{
    let key = attempt_key(ip, target_id, result);
    let other = attempt_key(other_ip, other_target_id, other_result);
    if key == other {
        law_key_tells_attempts_apart(
            ip,
            target_id,
            result,
            other_ip,
            other_target_id,
            other_result,
        );
    }
    law_put_keeps_other_fresh_entries(
        log,
        key,
        (),
        now,
        config.attempt_dedupe_secs,
        other,
        later,
    );
}

/// No attempt is reported while authorization or its reports are off.
pub proof fn law_attempts_can_be_switched_off(
    config: ConfigView,
    log: AttemptLogView,
    ip: Seq<char>,
    target_id: Seq<char>,
    result: AttemptResult,
    now: u64,
)
    requires
        !enabled(config) || !config.attempts,
    ensures
        !attempt_is_due(config, log, ip, target_id, result, now),
        attempts_after(config, log, ip, target_id, result, now) == log,
{
}

/// Every outcome that a check can have is reported under its own result: a pass, a
/// missing login, a token that is not authorized, a control API that is down.
pub proof fn law_outcomes_have_their_results(user: Option<Seq<char>>)
    ensures
        result_of(passes(user)) == AttemptResult::Allowed,
        result_of(refused(MSG_LOGIN_REQUIRED@)) == AttemptResult::LoginRequired,
        result_of(refused(MSG_DENIED@)) == AttemptResult::Denied,
        result_of(refused(MSG_API_DOWN@)) == AttemptResult::ApiDown,
{
    reveal_strlit("Acesso negado: faça login no aplicativo para conectar.");
    reveal_strlit("Acesso negado: usuário não autorizado.");
    reveal_strlit("Servidor de autorização indisponível. Tente novamente em instantes.");
    assert(MSG_LOGIN_REQUIRED@.len() != MSG_DENIED@.len());
    assert(MSG_LOGIN_REQUIRED@.len() != MSG_API_DOWN@.len());
    assert(MSG_DENIED@.len() != MSG_API_DOWN@.len());
}

proof fn lemma_field_names_differ(attempt: AttemptView, outcome: OutcomeView, second: int)
    ensures
        distinct_names(attempt_fields(attempt, outcome, second)),
{
    let fields = attempt_fields(attempt, outcome, second);
    reveal_strlit("target_id");
    reveal_strlit("ip");
    reveal_strlit("token");
    reveal_strlit("user");
    reveal_strlit("result");
    reveal_strlit("reason");
    reveal_strlit("kind");
    reveal_strlit("conn_type");
    reveal_strlit("version");
    reveal_strlit("via");
    reveal_strlit("at");
    // Names of one length differ in a character.
    assert("target_id"@[0] != "conn_type"@[0]);
    assert("ip"@[0] != "at"@[0]);
    assert("user"@[0] != "kind"@[0]);
    assert("result"@[2] != "reason"@[2]);
    assert(fields.map_values(|field: (Seq<char>, Option<Seq<char>>)| field.0.len()) =~= seq![
        9nat,
        2,
        5,
        4,
        6,
        6,
        4,
        9,
        7,
        3,
        2,
    ]);
    assert forall|i: int, j: int| 0 <= i < j < fields.len() implies (#[trigger] fields[i]).0 != (
    #[trigger] fields[j]).0 by {}
}

/// An event has exactly the fields of the attempt as its members, each under its
/// name.
pub proof fn law_event_has_its_fields(attempt: AttemptView, outcome: OutcomeView, second: int)
    ensures
        ({
            let fields = attempt_fields(attempt, outcome, second);
            let members = written_members(fields);
            &&& forall|i: int|
                0 <= i < fields.len() ==> members.contains_pair(
                    (#[trigger] fields[i]).0,
                    written_field(fields[i].1),
                )
            &&& forall|name: Seq<char>| #[trigger]
                members.contains_key(name) ==> exists|i: int|
                    0 <= i < fields.len() && (#[trigger] fields[i]).0 == name
        }),
{
    lemma_field_names_differ(attempt, outcome, second);
    law_written_fields_are_members(attempt_fields(attempt, outcome, second));
}

/// A check is reported under the result that its verdict gives: allowed where the
/// token is authorized or a failure lets it pass, denied where it is not authorized,
/// and down where there is no verdict and a failure refuses. The user is the
/// verdict's, and a reason is given for every refusal.
pub proof fn law_verdicts_have_their_results(config: ConfigView, verdict: VerdictView)
    ensures
        result_of(verdict_outcome(config, verdict)) == match verdict {
            Ok((true, _)) => AttemptResult::Allowed,
            Ok((false, _)) => AttemptResult::Denied,
            Err(_) => if config.fail_open {
                AttemptResult::Allowed
            } else {
                AttemptResult::ApiDown
            },
        },
        outcome_user(verdict_outcome(config, verdict)) == match verdict {
            Ok((true, user)) => user,
            _ => None,
        },
        outcome_reason(verdict_outcome(config, verdict)) is None <==> result_of(
            verdict_outcome(config, verdict),
        ) == AttemptResult::Allowed,
{
    law_outcomes_have_their_results(None);
}

/// An attempt as far as its repeats are told by it, and when it was made.
pub struct AttemptMade {
    pub ip: Seq<char>,
    pub target_id: Seq<char>,
    pub result: AttemptResult,
    pub now: u64,
}

/// When each kind of attempt was last reported, after a history of attempts.
pub open spec fn attempts_of(config: ConfigView, history: Seq<AttemptMade>) -> AttemptLogView
    decreases history.len(),
{
    if history.len() == 0 {
        Map::empty()
    } else {
        let last = history.last();
        attempts_after(
            config,
            attempts_of(config, history.drop_last()),
            last.ip,
            last.target_id,
            last.result,
            last.now,
        )
    }
}

/// Whether attempt `i` of a history is reported.
pub open spec fn is_event(config: ConfigView, history: Seq<AttemptMade>, i: int) -> bool {
    attempt_is_due(
        config,
        attempts_of(config, history.take(i)),
        history[i].ip,
        history[i].target_id,
        history[i].result,
        history[i].now,
    )
}

/// Whether two attempts are repeats of each other.
pub open spec fn are_repeats(a: AttemptMade, b: AttemptMade) -> bool {
    a.ip == b.ip && a.target_id == b.target_id && a.result == b.result
}

/// Whether the clock readings of a history never go back.
pub open spec fn in_order(history: Seq<AttemptMade>) -> bool {
    forall|i: int, j: int|
        0 <= i <= j < history.len() ==> (#[trigger] history[i]).now <= (#[trigger] history[j]).now
}

proof fn lemma_event_stays_fresh(
    config: ConfigView,
    history: Seq<AttemptMade>,
    i: int,
    end: int,
    later: u64,
)
    requires
        in_order(history),
        0 <= i < end <= history.len(),
        is_event(config, history, i),
        history[end - 1].now <= later,
        later - history[i].now < config.attempt_dedupe_secs * NANOS_PER_SEC,
    ensures
        !attempt_is_due(
            config,
            attempts_of(config, history.take(end)),
            history[i].ip,
            history[i].target_id,
            history[i].result,
            later,
        ),
    decreases end,
{
    let made = history[i];
    let last = history[end - 1];
    let before = attempts_of(config, history.take(end - 1));
    assert(history.take(end).drop_last() =~= history.take(end - 1));
    assert(made.now <= last.now);
    if are_repeats(made, last) && attempt_is_due(
        config,
        before,
        last.ip,
        last.target_id,
        last.result,
        last.now,
    ) {
        law_repeats_are_reported_once(
            config,
            before,
            last.ip,
            last.target_id,
            last.result,
            last.now,
            later,
        );
    } else {
        assert(history[end - 2].now <= last.now);
        lemma_event_stays_fresh(config, history, i, end - 1, later);
        if !are_repeats(made, last) {
            law_a_new_result_is_reported(
                config,
                before,
                last.ip,
                last.target_id,
                last.result,
                last.now,
                made.ip,
                made.target_id,
                made.result,
                later,
            );
        }
    }
}

/// However often an attempt is repeated, two events of it are at least the configured
/// time apart.
pub proof fn law_events_are_spaced(config: ConfigView, history: Seq<AttemptMade>, i: int, j: int)
    requires
        in_order(history),
        0 <= i < j < history.len(),
        are_repeats(history[i], history[j]),
        is_event(config, history, i),
        is_event(config, history, j),
    ensures
        history[j].now - history[i].now >= config.attempt_dedupe_secs * NANOS_PER_SEC,
{
    if history[j].now - history[i].now < config.attempt_dedupe_secs * NANOS_PER_SEC {
        assert(history[j - 1].now <= history[j].now);
        lemma_event_stays_fresh(config, history, i, j, history[j].now);
    }
}

/// An attempt that is the first of its kind is reported, while events are on.
pub proof fn law_first_attempt_is_reported(config: ConfigView, history: Seq<AttemptMade>, i: int)
    requires
        enabled(config),
        config.attempts,
        0 <= i < history.len(),
        forall|j: int| 0 <= j < i ==> !are_repeats(#[trigger] history[j], history[i]),
    ensures
        is_event(config, history, i),
{
    lemma_unmade_has_no_entry(config, history.take(i), history[i]);
}

proof fn lemma_unmade_has_no_entry(
    config: ConfigView,
    history: Seq<AttemptMade>,
    made: AttemptMade,
)
    requires
        forall|j: int| 0 <= j < history.len() ==> !are_repeats(#[trigger] history[j], made),
    ensures
        !attempts_of(config, history).contains_key(
            attempt_key(made.ip, made.target_id, made.result),
        ),
    decreases history.len(),
{
    if history.len() > 0 {
        let last = history.last();
        lemma_unmade_has_no_entry(config, history.drop_last(), made);
        assert(!are_repeats(history[history.len() - 1], made));
        if attempt_key(last.ip, last.target_id, last.result) == attempt_key(
            made.ip,
            made.target_id,
            made.result,
        ) {
            law_key_tells_attempts_apart(
                last.ip,
                last.target_id,
                last.result,
                made.ip,
                made.target_id,
                made.result,
            );
        }
    }
}

/// An attempt as characters is the attempt, whole.
pub proof fn law_attempts_are_whole(attempt: Attempt)
    ensures
        attempt@.target_id == attempt.target_id@,
        attempt@.ip == attempt.ip@,
        attempt@.token == attempt.token@,
        attempt@.kind == attempt.kind,
        attempt@.conn_type == attempt.conn_type,
        attempt@.version == attempt.version@,
        attempt@.via == attempt.via,
{
}

/// Every result, kind, purpose and way has its own name.
pub proof fn law_names_are_their_own(
    a: AttemptResult,
    b: AttemptResult,
    kind: AttemptKind,
    other_kind: AttemptKind,
    conn_type: ConnType,
    other_conn_type: ConnType,
    way: Via,
    other_way: Via,
)
    ensures
        a.name_text() == b.name_text() ==> a == b,
        kind.name_text() == other_kind.name_text() ==> kind == other_kind,
        conn_type.name_text() == other_conn_type.name_text() ==> conn_type == other_conn_type,
        way.name_text() == other_way.name_text() ==> way == other_way,
{
    reveal_strlit("allowed");
    reveal_strlit("login_required");
    reveal_strlit("denied");
    reveal_strlit("api_down");
    reveal_strlit("punch_hole");
    reveal_strlit("relay");
    reveal_strlit("DEFAULT_CONN");
    reveal_strlit("FILE_TRANSFER");
    reveal_strlit("PORT_FORWARD");
    reveal_strlit("RDP");
    reveal_strlit("VIEW_CAMERA");
    reveal_strlit("TERMINAL");
    reveal_strlit("tcp");
    reveal_strlit("ws");
    assert("allowed"@.len() == 7 && "login_required"@.len() == 14 && "denied"@.len() == 6
        && "api_down"@.len() == 8);
    assert("punch_hole"@.len() == 10 && "relay"@.len() == 5);
    assert("DEFAULT_CONN"@.len() == 12 && "FILE_TRANSFER"@.len() == 13 && "PORT_FORWARD"@.len()
        == 12);
    assert("RDP"@.len() == 3 && "VIEW_CAMERA"@.len() == 11 && "TERMINAL"@.len() == 8);
    assert("DEFAULT_CONN"@[0] != "PORT_FORWARD"@[0]);
    assert("tcp"@.len() == 3 && "ws"@.len() == 2);
}

/// The names of results, kinds, purposes and ways.
pub proof fn law_names()
    ensures
        AttemptResult::Allowed.name_text() == "allowed"@,
        AttemptResult::LoginRequired.name_text() == "login_required"@,
        AttemptResult::Denied.name_text() == "denied"@,
        AttemptResult::ApiDown.name_text() == "api_down"@,
        AttemptKind::PunchHole.name_text() == "punch_hole"@,
        AttemptKind::Relay.name_text() == "relay"@,
        ConnType::DefaultConn.name_text() == "DEFAULT_CONN"@,
        ConnType::FileTransfer.name_text() == "FILE_TRANSFER"@,
        ConnType::PortForward.name_text() == "PORT_FORWARD"@,
        ConnType::Rdp.name_text() == "RDP"@,
        ConnType::ViewCamera.name_text() == "VIEW_CAMERA"@,
        ConnType::Terminal.name_text() == "TERMINAL"@,
        Via::Tcp.name_text() == "tcp"@,
        Via::Ws.name_text() == "ws"@,
{
}

/// A pass is allowed, whoever passes. A refusal is classed by its message alone: the request
/// to log in, the refusal of a token that is not authorized, and every other one.
pub proof fn law_messages_class_refusals(user: Option<Seq<char>>, message: Seq<char>)
    ensures
        result_of(Ok(user)) == AttemptResult::Allowed,
        result_of(Err(message)) == AttemptResult::LoginRequired <==> message
            == "Acesso negado: faça login no aplicativo para conectar."@,
        result_of(Err(message)) == AttemptResult::Denied <==> message
            == "Acesso negado: usuário não autorizado."@,
        result_of(Err(message)) == AttemptResult::ApiDown <==> message
            != "Acesso negado: faça login no aplicativo para conectar."@ && message
            != "Acesso negado: usuário não autorizado."@,
{
    law_outcomes_have_their_results(user);
}

/// An event's members are these eleven and no others.
pub proof fn law_event_has_eleven_members(
    attempt: AttemptView,
    outcome: OutcomeView,
    second: int,
    name: Seq<char>,
)
    ensures
        written_members(attempt_fields(attempt, outcome, second)).contains_key(name) <==> {
            ||| name == "target_id"@
            ||| name == "ip"@
            ||| name == "token"@
            ||| name == "user"@
            ||| name == "result"@
            ||| name == "reason"@
            ||| name == "kind"@
            ||| name == "conn_type"@
            ||| name == "version"@
            ||| name == "via"@
            ||| name == "at"@
        },
{
    let fields = attempt_fields(attempt, outcome, second);
    law_event_has_its_fields(attempt, outcome, second);
    assert(fields[0].0 == "target_id"@);
    assert(fields[1].0 == "ip"@);
    assert(fields[2].0 == "token"@);
    assert(fields[3].0 == "user"@);
    assert(fields[4].0 == "result"@);
    assert(fields[5].0 == "reason"@);
    assert(fields[6].0 == "kind"@);
    assert(fields[7].0 == "conn_type"@);
    assert(fields[8].0 == "version"@);
    assert(fields[9].0 == "via"@);
    assert(fields[10].0 == "at"@);
}

/// An event names the attempt's target, address and token, each whole, and the moment. The
/// version is the attempt's where a hole is to be punched, and null for a relay.
pub proof fn law_event_is_about_its_attempt(
    attempt: AttemptView,
    outcome: OutcomeView,
    second: int,
)
    ensures
        ({
            let members = written_members(attempt_fields(attempt, outcome, second));
            &&& members["target_id"@] == FieldView::Text(attempt.target_id)
            &&& members["ip"@] == FieldView::Text(attempt.ip)
            &&& members["token"@] == FieldView::Text(attempt.token)
            &&& members["at"@] == FieldView::Text(rfc3339_text(second))
            &&& attempt.kind == AttemptKind::PunchHole ==> members["version"@] == FieldView::Text(
                attempt.version,
            )
            &&& attempt.kind == AttemptKind::Relay ==> members["version"@] == FieldView::Null
        }),
{
    let fields = attempt_fields(attempt, outcome, second);
    law_event_has_its_fields(attempt, outcome, second);
    assert(fields[0].0 == "target_id"@);
    assert(fields[1].0 == "ip"@);
    assert(fields[2].0 == "token"@);
    assert(fields[8].0 == "version"@);
    assert(fields[10].0 == "at"@);
}

/// An event tells the kind, the purpose and the way of its attempt.
pub proof fn law_event_tells_how(attempt: AttemptView, outcome: OutcomeView, second: int)
    ensures
        ({
            let members = written_members(attempt_fields(attempt, outcome, second));
            &&& members["kind"@] == FieldView::Text(
                match attempt.kind {
                    AttemptKind::PunchHole => "punch_hole"@,
                    AttemptKind::Relay => "relay"@,
                },
            )
            &&& members["conn_type"@] == FieldView::Text(
                match attempt.conn_type {
                    ConnType::DefaultConn => "DEFAULT_CONN"@,
                    ConnType::FileTransfer => "FILE_TRANSFER"@,
                    ConnType::PortForward => "PORT_FORWARD"@,
                    ConnType::Rdp => "RDP"@,
                    ConnType::ViewCamera => "VIEW_CAMERA"@,
                    ConnType::Terminal => "TERMINAL"@,
                },
            )
            &&& members["via"@] == FieldView::Text(
                match attempt.via {
                    Via::Tcp => "tcp"@,
                    Via::Ws => "ws"@,
                },
            )
        }),
{
    let fields = attempt_fields(attempt, outcome, second);
    law_event_has_its_fields(attempt, outcome, second);
    assert(fields[6].0 == "kind"@);
    assert(fields[7].0 == "conn_type"@);
    assert(fields[9].0 == "via"@);
}

/// The event of a pass says so, names the user where the pass is for one, every character of
/// the name, and gives no reason.
pub proof fn law_event_of_a_pass(attempt: AttemptView, user: Option<Seq<char>>, second: int)
    ensures
        ({
            let members = written_members(attempt_fields(attempt, Ok(user), second));
            &&& members["result"@] == FieldView::Text("allowed"@)
            &&& members["reason"@] == FieldView::Null
            &&& user is Some ==> members["user"@] == FieldView::Text(user->0)
            &&& user is None ==> members["user"@] == FieldView::Null
        }),
{
    let fields = attempt_fields(attempt, Ok(user), second);
    law_event_has_its_fields(attempt, Ok(user), second);
    assert(fields[3].0 == "user"@);
    assert(fields[4].0 == "result"@);
    assert(fields[5].0 == "reason"@);
}

/// The event of a refusal names no user and gives the message as its reason, every character
/// of it. The message tells the result: a missing login, a token that is not authorized, and
/// a control API that is down.
pub proof fn law_event_of_a_refusal(attempt: AttemptView, message: Seq<char>, second: int)
    ensures
        ({
            let members = written_members(attempt_fields(attempt, Err(message), second));
            &&& members["user"@] == FieldView::Null
            &&& members["reason"@] == FieldView::Text(message)
            &&& message == "Acesso negado: faça login no aplicativo para conectar."@
                ==> members["result"@] == FieldView::Text("login_required"@)
            &&& message == "Acesso negado: usuário não autorizado."@ ==> members["result"@]
                == FieldView::Text("denied"@)
            &&& message
                == "Servidor de autorização indisponível. Tente novamente em instantes."@
                ==> members["result"@] == FieldView::Text("api_down"@)
            &&& message != "Acesso negado: faça login no aplicativo para conectar."@ && message
                != "Acesso negado: usuário não autorizado."@ ==> members["result"@]
                == FieldView::Text("api_down"@)
        }),
{
    let fields = attempt_fields(attempt, Err(message), second);
    law_event_has_its_fields(attempt, Err(message), second);
    law_outcomes_have_their_results(None);
    assert(fields[3].0 == "user"@);
    assert(fields[4].0 == "result"@);
    assert(fields[5].0 == "reason"@);
}

/// An attempt is due exactly where an address is configured, attempts are reported, and no
/// report of one with its address, target and result is kept whose time has not passed.
pub proof fn law_due_attempts(
    config: ConfigView,
    log: AttemptLogView,
    ip: Seq<char>,
    target_id: Seq<char>,
    result: AttemptResult,
    now: u64,
)
    ensures
        ({
            let key = attempt_key(ip, target_id, result);
            attempt_is_due(config, log, ip, target_id, result, now) <==> {
                &&& config.url.len() > 0
                &&& config.attempts
                &&& !(log.contains_key(key) && if now >= log[key].tm {
                    now - log[key].tm < config.attempt_dedupe_secs * 1_000_000_000
                } else {
                    config.attempt_dedupe_secs > 0
                })
            }
        }),
{
    law_fresh_entry_is_the_kept_one(
        log,
        attempt_key(ip, target_id, result),
        now,
        config.attempt_dedupe_secs,
    );
}

/// A reported attempt is remembered from the moment of the report, and touches no other
/// entry, but that entries whose time has passed leave where ten thousand or more are kept and
/// the entry is a new one. Where nothing is due, nothing changes.
pub proof fn law_attempt_is_remembered(
    config: ConfigView,
    log: AttemptLogView,
    ip: Seq<char>,
    target_id: Seq<char>,
    result: AttemptResult,
    now: u64,
    other: Seq<char>,
)
    ensures
        ({
            let key = attempt_key(ip, target_id, result);
            let after = attempts_after(config, log, ip, target_id, result, now);
            let due = attempt_is_due(config, log, ip, target_id, result, now);
            &&& !due ==> after == log
            &&& due ==> after.contains_key(key) && after[key].tm == now
            &&& due && other != key ==> (after.contains_key(other) <==> log.contains_key(other) && !(
            log.len() >= 10_000 && !log.contains_key(key) && if now >= log[other].tm {
                now - log[other].tm >= config.attempt_dedupe_secs * 1_000_000_000
            } else {
                config.attempt_dedupe_secs == 0
            }))
            &&& due && other != key && after.contains_key(other) ==> after[other] == log[other]
        }),
{
    law_put_changes_one_entry(
        log,
        attempt_key(ip, target_id, result),
        (),
        now,
        config.attempt_dedupe_secs,
        other,
    );
}

proof fn lemma_kept_was_an_event(
    config: ConfigView,
    history: Seq<AttemptMade>,
    made: AttemptMade,
) -> (at: int)
    requires
        attempts_of(config, history).contains_key(
            attempt_key(made.ip, made.target_id, made.result),
        ),
    ensures
        0 <= at < history.len(),
        are_repeats(history[at], made),
        history[at].now == attempts_of(config, history)[attempt_key(
            made.ip,
            made.target_id,
            made.result,
        )].tm,
        is_event(config, history, at),
    decreases history.len(),
{
    let key = attempt_key(made.ip, made.target_id, made.result);
    let last = history.last();
    let before = history.drop_last();
    let end = history.len() - 1;
    assert(before =~= history.take(end));
    let log = attempts_of(config, before);
    let last_key = attempt_key(last.ip, last.target_id, last.result);
    if last_key == key && attempt_is_due(
        config,
        log,
        last.ip,
        last.target_id,
        last.result,
        last.now,
    ) {
        law_key_tells_attempts_apart(
            last.ip,
            last.target_id,
            last.result,
            made.ip,
            made.target_id,
            made.result,
        );
        end
    } else {
        law_attempt_is_remembered(
            config,
            log,
            last.ip,
            last.target_id,
            last.result,
            last.now,
            key,
        );
        let at = lemma_kept_was_an_event(config, before, made);
        assert(before.take(at) =~= history.take(at));
        at
    }
}

/// An attempt is reported exactly where an address is configured, attempts are reported, and
/// every earlier report of an attempt from the same address on the same target with the same
/// result is at least the configured time ago.
pub proof fn law_attempts_are_reported_in_time(
    config: ConfigView,
    history: Seq<AttemptMade>,
    i: int,
)
    requires
        in_order(history),
        0 <= i < history.len(),
    ensures
        is_event(config, history, i) <==> {
            &&& config.url.len() > 0
            &&& config.attempts
            &&& forall|j: int|
                0 <= j < i && (#[trigger] history[j]).ip == history[i].ip && history[j].target_id
                    == history[i].target_id && history[j].result == history[i].result && is_event(
                    config,
                    history,
                    j,
                ) ==> history[i].now - history[j].now >= config.attempt_dedupe_secs * 1_000_000_000
        },
{
    let before = history.take(i);
    let made = history[i];
    law_due_attempts(
        config,
        attempts_of(config, before),
        made.ip,
        made.target_id,
        made.result,
        made.now,
    );
    if is_event(config, history, i) {
        assert forall|j: int|
            0 <= j < i && (#[trigger] history[j]).ip == made.ip && history[j].target_id
                == made.target_id && history[j].result == made.result && is_event(
                config,
                history,
                j,
            ) implies made.now - history[j].now >= config.attempt_dedupe_secs * 1_000_000_000 by {
            law_events_are_spaced(config, history, j, i);
        }
    } else if attempts_of(config, before).contains_key(
        attempt_key(made.ip, made.target_id, made.result),
    ) {
        let at = lemma_kept_was_an_event(config, before, made);
        assert(before[at] == history[at]);
        assert(before.take(at) =~= history.take(at));
        assert(history[at].now <= made.now);
    }
}

} // verus!
