//! Laws that hold of every request, and of whatever the operations answer.

use crate::attempts::{
    attempt_fields, attempt_key, attempt_request, law_due_attempts, law_event_has_eleven_members,
    law_event_is_about_its_attempt, law_event_of_a_pass, law_event_of_a_refusal, report_attempt, result_of,
    Attempt, AttemptLog, AttemptView,
};
use crate::blocks::{record_block, BlockLog};
use crate::check::{
    check_token, finish_check, law_check_is_decided_by_what_is_kept, outcome_view, CheckStep, OutcomeView,
    PendingCheck, TokenCache,
};
use crate::clock::{rfc3339_text, WallTime};
use crate::config::{config_of, is_enabled, law_arguments_switch_on, Args, Config, ConfigView};
use crate::diag::{diag, diag_text, law_no_address_shows_off};
use crate::json::{json_bytes, json_members, opt_members, text_member, FieldView, JsonField};
use crate::request::{HttpRequest, RequestView};
use crate::seen::{law_due_reports, law_report_reads_back, report_seen, seen_request, SeenLog};
use crate::text::{decimal_text, opt_text};
use crate::verify::{
    ask_verify, call_verify, law_question_has_two_members, law_question_reads_back, needs_body, read_verdict,
    verify_request, VerifyReply,
};
use vstd::prelude::*;

verus! {

/// Whether a request goes below the configured address and carries the configured
/// token, and no bearer where there is none.
pub open spec fn is_addressed(config: ConfigView, request: RequestView) -> bool {
    &&& config.url.is_prefix_of(request.url)
    &&& request.bearer == (if config.token.len() > 0 {
        Some(config.token)
    } else {
        None
    })
}

/// Every request to the control API goes below the configured address and carries the
/// configured token as its bearer; with no token configured there is no bearer.
pub proof fn law_every_request_is_addressed(
    config: ConfigView,
    token: Seq<char>,
    id: Seq<char>,
    ip: Seq<char>,
    attempt: AttemptView,
    outcome: OutcomeView,
    second: int,
)
    ensures
        is_addressed(config, verify_request(config, token, ip)),
        is_addressed(config, seen_request(config, id, ip)),
        is_addressed(config, attempt_request(config, attempt, outcome, second)),
{
    assert(config.url =~= verify_request(config, token, ip).url.take(config.url.len() as int));
    assert(config.url =~= seen_request(config, id, ip).url.take(config.url.len() as int));
    assert(config.url =~= attempt_request(config, attempt, outcome, second).url.take(
        config.url.len() as int,
    ));
}

/// Each request goes to its own address, which the bearer and what is asked or reported
/// leave as it is: the question below the configured address at `/tokens/verify`, the report
/// of a peer at `/peers/seen` and the event of an attempt at `/connections/attempt`.
pub proof fn law_every_request_has_its_address(
    config: ConfigView,
    token: Seq<char>,
    id: Seq<char>,
    ip: Seq<char>,
    attempt: AttemptView,
    outcome: OutcomeView,
    second: int,
)
    ensures
        verify_request(config, token, ip).url == config.url + "/tokens/verify"@,
        seen_request(config, id, ip).url == config.url + "/peers/seen"@,
        attempt_request(config, attempt, outcome, second).url == config.url
            + "/connections/attempt"@,
{
}

/// Every request carries the configured token, all of it, where there is one, and no bearer
/// where there is none.
pub proof fn law_every_request_has_its_bearer(
    config: ConfigView,
    token: Seq<char>,
    id: Seq<char>,
    ip: Seq<char>,
    attempt: AttemptView,
    outcome: OutcomeView,
    second: int,
)
    ensures
        config.token.len() > 0 ==> {
            &&& verify_request(config, token, ip).bearer == Some(config.token)
            &&& seen_request(config, id, ip).bearer == Some(config.token)
            &&& attempt_request(config, attempt, outcome, second).bearer == Some(config.token)
        },
        config.token.len() == 0 ==> {
            &&& verify_request(config, token, ip).bearer is None
            &&& seen_request(config, id, ip).bearer is None
            &&& attempt_request(config, attempt, outcome, second).bearer is None
        },
{
}

/// What is asked and reported does not depend on the settings: under any two settings the
/// bodies are the same, written from the token or the peer and the address alone.
pub proof fn law_bodies_are_about_their_subject(
    config: ConfigView,
    other: ConfigView,
    token: Seq<char>,
    id: Seq<char>,
    ip: Seq<char>,
    attempt: AttemptView,
    outcome: OutcomeView,
    second: int,
)
    ensures
        verify_request(config, token, ip).body == json_bytes(
            seq![("token"@, Some(token)), ("ip"@, Some(ip))],
        ),
        seen_request(config, id, ip).body == json_bytes(seq![("id"@, Some(id)), ("ip"@, Some(ip))]),
        attempt_request(config, attempt, outcome, second).body == attempt_request(
            other,
            attempt,
            outcome,
            second,
        ).body,
        attempt_request(config, attempt, outcome, second).body == json_bytes(
            attempt_fields(attempt, outcome, second),
        ),
{
}

/// Whatever `is_enabled` answers, it answers whether the address holds a character.
pub proof fn law_is_enabled_tells_of_an_address(config: Config, on: bool)
    requires
        call_ensures(is_enabled, (&config,), on),
    ensures
        on == (config.url@.len() != 0),
{
}

/// Whatever settings `Config::from_args` reads, they are those that the arguments give, and
/// switch authorization on exactly where an address was given that holds another character
/// than a slash.
pub proof fn law_from_args_switches_on(args: Args, config: Config)
    requires
        call_ensures(Config::from_args, (&args,), config),
    ensures
        config@ == config_of(args),
        config.url@.len() != 0 <==> args.control_api_url is Some && exists|i: int|
            0 <= i < args.control_api_url->0@.len() && (#[trigger] args.control_api_url->0@[i])
                != '/',
{
    law_arguments_switch_on(args);
}

/// A check that waits for the control API is about the token that was presented, from the
/// moment at which it was, and asks at the address for questions.
pub proof fn law_pending_check_is_about_its_token(
    config: Config,
    cache: TokenCache,
    token: &str,
    ip: &str,
    now: u64,
    pending: PendingCheck,
    request: HttpRequest,
)
    requires
        call_ensures(
            check_token,
            (&config, &cache, token, ip, now),
            CheckStep::Verify(pending, request),
        ),
    ensures
        pending.token@ == token@,
        pending.now == now,
        request.url@ == config.url@ + "/tokens/verify"@,
{
}

/// A question that is written goes to the address for questions, with the configured token
/// where there is one, and is about the given token and address alone.
pub proof fn law_written_question(
    config: Config,
    token: &str,
    ip: &str,
    request: HttpRequest,
)
    requires
        call_ensures(ask_verify, (&config, token, ip), request),
    ensures
        request.url@ == config.url@ + "/tokens/verify"@,
        config.token@.len() > 0 ==> request.bearer is Some && request.bearer->0@ == config.token@,
        config.token@.len() == 0 ==> request.bearer is None,
        text_member(json_members(request.body@), "token"@) == Some(token@),
        text_member(json_members(request.body@), "ip"@) == Some(ip@),
        forall|name: Seq<char>| #[trigger]
            json_members(request.body@)->0.contains_key(name) ==> name == "token"@ || name
                == "ip"@,
{
    law_question_reads_back(request.body@, token@, ip@);
    law_question_has_two_members(request.body@, token@, ip@);
}

/// Of all statuses only that of an approval has its body read.
pub proof fn law_needs_body_for_approvals(status: u16, needed: bool)
    requires
        call_ensures(needs_body, (status,), needed),
    ensures
        needed == (status == 200),
{
}

/// An approval that is read is for the user that the members name, every character of the
/// name, and for nobody where they name none.
pub proof fn law_read_approval(
    members: Option<Vec<(String, JsonField)>>,
    verdict: Result<(bool, Option<String>), String>,
    name: Seq<char>,
)
    requires
        call_ensures(read_verdict, (200u16, &members), verdict),
    ensures
        verdict is Ok,
        verdict->Ok_0.0,
        ({
            let listed = opt_members(members);
            let named = listed is Some && listed->0.contains_key("user"@) && listed->0["user"@]
                == FieldView::Text(name);
            let text = listed is Some && listed->0.contains_key("user"@)
                && listed->0["user"@] is Text;
            &&& named ==> verdict->Ok_0.1 is Some && verdict->Ok_0.1->0@ == name
            &&& !text ==> verdict->Ok_0.1 is None
        }),
{
}

/// What is read of any other status: a refusal of status 403, and else the status as the
/// reason why there is no verdict.
pub proof fn law_read_other_statuses(
    status: u16,
    members: Option<Vec<(String, JsonField)>>,
    verdict: Result<(bool, Option<String>), String>,
)
    requires
        status != 200,
        call_ensures(read_verdict, (status, &members), verdict),
    ensures
        status == 403 ==> verdict is Ok && !verdict->Ok_0.0 && verdict->Ok_0.1 is None,
        status != 403 ==> verdict is Err && verdict->Err_0@ == "unexpected status "@ + decimal_text(
            status as nat,
        ),
{
}

/// What is made of a reply: an approval for the user that its body names, every character of
/// the name, or for nobody; a refusal; or the reason why there is no verdict.
pub proof fn law_called_verdict(
    reply: VerifyReply,
    verdict: Result<(bool, Option<String>), String>,
    status: u16,
    bytes: Vec<u8>,
    name: Seq<char>,
    why: String,
)
    requires
        call_ensures(call_verify, (reply,), verdict),
    ensures
        reply == (VerifyReply::Answered { status: 200, body: Some(bytes) }) && text_member(
            json_members(bytes@),
            "user"@,
        ) == Some(name) ==> verdict is Ok && verdict->Ok_0.0 && verdict->Ok_0.1 is Some
            && verdict->Ok_0.1->0@ == name,
        reply == (VerifyReply::Answered { status: 200, body: Some(bytes) }) && text_member(
            json_members(bytes@),
            "user"@,
        ) is None ==> verdict is Ok && verdict->Ok_0.0 && verdict->Ok_0.1 is None,
        reply == (VerifyReply::Answered { status: 200, body: None }) ==> verdict is Ok
            && verdict->Ok_0.0 && verdict->Ok_0.1 is None,
        reply == (VerifyReply::Answered { status: 403, body: Some(bytes) }) ==> verdict is Ok
            && !verdict->Ok_0.0 && verdict->Ok_0.1 is None,
        reply == (VerifyReply::Answered { status: 403, body: None }) ==> verdict is Ok
            && !verdict->Ok_0.0 && verdict->Ok_0.1 is None,
        reply == (VerifyReply::Answered { status, body: None }) && status != 200 && status != 403
            ==> verdict is Err && verdict->Err_0@ == "unexpected status "@ + decimal_text(
            status as nat,
        ),
        reply == (VerifyReply::Answered { status, body: Some(bytes) }) && status != 200 && status
            != 403 ==> verdict is Err && verdict->Err_0@ == "unexpected status "@ + decimal_text(
            status as nat,
        ),
        reply == VerifyReply::NoClient ==> verdict is Err && verdict->Err_0@
            == "http client unavailable"@,
        reply == VerifyReply::SendFailed(why) ==> verdict is Err && verdict->Err_0@ == why@,
{
}

/// What a check answers without the control API: everything passes without an address, an
/// empty token is refused, and a kept verdict stands while its time has not passed.
pub proof fn law_decided_check(
    config: Config,
    cache: TokenCache,
    token: &str,
    ip: &str,
    now: u64,
    step: CheckStep,
)
    requires
        call_ensures(check_token, (&config, &cache, token, ip, now), step),
    ensures
        ({
            let kept = cache@[token@];
            let stands = cache@.contains_key(token@) && if now >= kept.tm {
                now - kept.tm < config.cache_secs * 1_000_000_000
            } else {
                config.cache_secs > 0
            };
            &&& step is Verify <==> config.url@.len() > 0 && token@.len() > 0 && !stands
            &&& config.url@.len() == 0 ==> step->Done_0 is Ok && step->Done_0->Ok_0 is None
            &&& config.url@.len() > 0 && token@.len() == 0 ==> step->Done_0 is Err
                && step->Done_0->Err_0@ == "Acesso negado: faça login no aplicativo para conectar."@
            &&& config.url@.len() > 0 && token@.len() > 0 && stands && kept.value.authorized
                ==> step->Done_0 is Ok && opt_text(step->Done_0->Ok_0) == kept.value.user
            &&& config.url@.len() > 0 && token@.len() > 0 && stands && !kept.value.authorized
                ==> step->Done_0 is Err && step->Done_0->Err_0@
                == "Acesso negado: usuário não autorizado."@
        }),
{
    law_check_is_decided_by_what_is_kept(config@, cache@, token@, now);
}

/// What a check answers with the control API's verdict, and what it keeps of it.
pub proof fn law_finished_check(
    config: Config,
    cache: &mut TokenCache,
    pending: PendingCheck,
    verdict: Result<(bool, Option<String>), String>,
    outcome: Result<Option<String>, String>,
)
    requires
        call_ensures(finish_check, (&config, cache, pending, verdict), outcome),
    ensures
        verdict is Ok && verdict->Ok_0.0 ==> outcome is Ok && opt_text(outcome->Ok_0) == opt_text(
            verdict->Ok_0.1,
        ),
        verdict is Ok && !verdict->Ok_0.0 ==> outcome is Err && outcome->Err_0@
            == "Acesso negado: usuário não autorizado."@,
        verdict is Err && config.fail_open ==> outcome is Ok && outcome->Ok_0 is None,
        verdict is Err && !config.fail_open ==> outcome is Err && outcome->Err_0@
            == "Servidor de autorização indisponível. Tente novamente em instantes."@,
        verdict is Err ==> final(cache)@ == old(cache)@,
        verdict is Ok ==> {
            let kept = final(cache)@[pending.token@];
            &&& final(cache)@.contains_key(pending.token@)
            &&& kept.tm == pending.now
            &&& kept.value.authorized == verdict->Ok_0.0
            &&& kept.value.user == opt_text(verdict->Ok_0.1)
        },
{
}

/// A peer of which no report is kept is reported, whatever its name is, unless that is empty
/// or the self-test peer's: with its name and address, at the address for reports, and the
/// report is remembered.
pub proof fn law_unknown_peer_is_reported(
    config: Config,
    seen: &mut SeenLog,
    id: &str,
    ip: String,
    now: u64,
    request: Option<HttpRequest>,
)
    requires
        call_ensures(report_seen, (&config, seen, id, ip, now), request),
        config.url@.len() > 0,
        id@.len() > 0,
        id@ != "(:test_hbbs:)"@,
        !old(seen)@.contains_key(id@),
    ensures
        request is Some,
        request->0.url@ == config.url@ + "/peers/seen"@,
        text_member(json_members(request->0.body@), "id"@) == Some(id@),
        text_member(json_members(request->0.body@), "ip"@) == Some(ip@),
        final(seen)@.contains_key(id@),
        final(seen)@[id@].tm == now,
{
    law_due_reports(config@, old(seen)@, id@, now);
    law_report_reads_back(request->0.body@, id@, ip@);
}

/// A peer whose report is kept is reported again exactly where the configured time has
/// passed; before that nothing is sent and nothing changes.
pub proof fn law_known_peer_is_reported_in_time(
    config: Config,
    seen: &mut SeenLog,
    id: &str,
    ip: String,
    now: u64,
    request: Option<HttpRequest>,
)
    requires
        call_ensures(report_seen, (&config, seen, id, ip, now), request),
        config.url@.len() > 0,
        id@.len() > 0,
        id@ != "(:test_hbbs:)"@,
        old(seen)@.contains_key(id@),
        old(seen)@[id@].tm <= now,
    ensures
        request is Some <==> now - old(seen)@[id@].tm >= config.seen_secs * 1_000_000_000,
        request is None ==> final(seen)@ == old(seen)@,
        request is Some ==> final(seen)@[id@].tm == now,
{
    law_due_reports(config@, old(seen)@, id@, now);
}

/// An attempt with no like of it kept is reported at the address for attempts, while attempts
/// are reported, and its event tells the result by its name.
pub proof fn law_unknown_attempt_is_reported(
    config: Config,
    log: &mut AttemptLog,
    attempt: Attempt,
    outcome: Result<Option<String>, String>,
    now: u64,
    second: i64,
    request: Option<HttpRequest>,
)
    requires
        call_ensures(
            report_attempt,
            (&config, log, &attempt, &outcome, now, second),
            request,
        ),
        config.url@.len() > 0,
        config.attempts,
        !old(log)@.contains_key(
            attempt_key(attempt.ip@, attempt.target_id@, result_of(outcome_view(outcome))),
        ),
    ensures
        request is Some,
        request->0.url@ == config.url@ + "/connections/attempt"@,
        ({
            let members = json_members(request->0.body@);
            &&& text_member(members, "target_id"@) == Some(attempt.target_id@)
            &&& text_member(members, "ip"@) == Some(attempt.ip@)
            &&& text_member(members, "token"@) == Some(attempt.token@)
            &&& text_member(members, "at"@) == Some(rfc3339_text(second as int))
            &&& outcome is Ok ==> text_member(members, "result"@) == Some("allowed"@)
            &&& outcome is Err && outcome->Err_0@
                == "Acesso negado: faça login no aplicativo para conectar."@ ==> text_member(
                members,
                "result"@,
            ) == Some("login_required"@)
            &&& outcome is Err && outcome->Err_0@ == "Acesso negado: usuário não autorizado."@
                ==> text_member(members, "result"@) == Some("denied"@)
            &&& outcome is Err && outcome->Err_0@
                == "Servidor de autorização indisponível. Tente novamente em instantes."@
                ==> text_member(members, "result"@) == Some("api_down"@)
            &&& outcome is Ok ==> text_member(members, "user"@) == opt_text(outcome->Ok_0)
            &&& outcome is Err ==> text_member(members, "reason"@) == Some(outcome->Err_0@)
        }),
        ({
            let key = attempt_key(
                attempt.ip@,
                attempt.target_id@,
                result_of(outcome_view(outcome)),
            );
            final(log)@.contains_key(key) && final(log)@[key].tm == now
        }),
{
    let o = outcome_view(outcome);
    law_due_attempts(
        config@,
        old(log)@,
        attempt.ip@,
        attempt.target_id@,
        result_of(o),
        now,
    );
    law_event_is_about_its_attempt(attempt@, o, second as int);
    law_event_has_eleven_members(attempt@, o, second as int, "target_id"@);
    law_event_has_eleven_members(attempt@, o, second as int, "ip"@);
    law_event_has_eleven_members(attempt@, o, second as int, "token"@);
    law_event_has_eleven_members(attempt@, o, second as int, "at"@);
    law_event_has_eleven_members(attempt@, o, second as int, "result"@);
    law_event_has_eleven_members(attempt@, o, second as int, "user"@);
    law_event_has_eleven_members(attempt@, o, second as int, "reason"@);
    match o {
        Ok(user) => law_event_of_a_pass(attempt@, user, second as int),
        Err(message) => law_event_of_a_refusal(attempt@, message, second as int),
    }
}

/// A refused connection is recorded last, as it came.
pub proof fn law_recorded_block(
    log: &mut BlockLog,
    from_ip: &str,
    target_id: &str,
    reason: &str,
    now: u64,
)
    requires
        call_ensures(record_block, (log, from_ip, target_id, reason, now), ()),
        old(log)@.len() <= 100,
    ensures
        final(log)@.len() == (if old(log)@.len() < 100 {
            old(log)@.len() + 1
        } else {
            100
        }),
        final(log)@.last().tm == now,
        final(log)@.last().from_ip == from_ip@,
        final(log)@.last().target_id == target_id@,
        final(log)@.last().reason == reason@,
{
}

/// The diagnostics show the tables that they were asked to show, and one line that says so
/// where there is no address.
pub proof fn law_shown_diagnostics(
    config: Config,
    cache: TokenCache,
    seen: SeenLog,
    blocks: BlockLog,
    wall: WallTime,
    now: u64,
    text: String,
)
    requires
        call_ensures(diag, (&config, &cache, &seen, &blocks, wall, now), text),
    ensures
        config.url@.len() == 0 ==> text@ == "enabled: false\n"@,
        config.url@.len() > 0 ==> text@ == diag_text(
            config@,
            cache.names(),
            cache@,
            seen@.len(),
            blocks@,
            wall,
            now,
        ),
{
    if config.url@.len() == 0 {
        law_no_address_shows_off(
            config@,
            cache.names(),
            cache@,
            seen@.len(),
            blocks@,
            wall,
            now,
        );
    }
}

} // verus!
