//! Authorization of a controller by its token.

use crate::clock::{age_secs, nanos_since, secs_since, NANOS_PER_SEC};
use crate::config::{enabled, is_enabled, Config, ConfigView};
use crate::ledger::{
    entries_after_put, fresh_entry, law_fresh_entry_is_the_kept_one, law_put_changes_one_entry,
    law_put_is_fresh_for_its_time, law_put_keeps_other_fresh_entries, law_put_keeps_the_order,
    names_after_put, Ledger, Stamped,
};
use crate::request::HttpRequest;
use crate::text::{copy_opt_text, opt_text};
use crate::verify::{ask_verify, asks_about, verdict_view, verify_request, VerdictView};
use vstd::prelude::*;

verus! {

/// Shown to a controller that is not logged in.
pub const MSG_LOGIN_REQUIRED: &'static str = "Acesso negado: faça login no aplicativo para conectar.";

/// Shown to a controller that is not authorized.
pub const MSG_DENIED: &'static str = "Acesso negado: usuário não autorizado.";

/// Shown to a controller when the control API gives no verdict.
pub const MSG_API_DOWN: &'static str = "Servidor de autorização indisponível. Tente novamente em instantes.";

/// A verdict of the control API on a token.
pub struct TokenAnswer {
    pub authorized: bool,
    pub user: Option<String>,
}

/// A verdict, with the user's name as its characters.
pub struct AnswerView {
    pub authorized: bool,
    pub user: Option<Seq<char>>,
}

impl View for TokenAnswer {
    type V = AnswerView;

    open spec fn view(&self) -> AnswerView {
        AnswerView { authorized: self.authorized, user: opt_text(self.user) }
    }
}

/// The verdicts that are kept, by token.
pub type TokenCache = Ledger<TokenAnswer>;

/// The kept verdicts as a map.
pub type CacheView = Map<Seq<char>, Stamped<AnswerView>>;

/// What a controller is answered: the user's name, where it is known, to let it
/// pass, or the message to refuse it with.
pub type OutcomeView = Result<Option<Seq<char>>, Seq<char>>;

/// An outcome, with texts as their characters.
pub open spec fn outcome_view(outcome: Result<Option<String>, String>) -> OutcomeView {
    match outcome {
        Ok(user) => Ok(opt_text(user)),
        Err(message) => Err(message@),
    }
}

/// The outcome of a controller that passes.
pub open spec fn passes(user: Option<Seq<char>>) -> OutcomeView {
    Ok(user)
}

/// The outcome of a controller that is refused.
pub open spec fn refused(message: Seq<char>) -> OutcomeView {
    Err(message)
}

/// A check that waits for the control API.
pub struct PendingCheck {
    pub token: String,
    /// The monotonic clock reading, in nanoseconds, at which the check began.
    pub now: u64,
}

/// How a check goes on.
pub enum CheckStep {
    /// It is decided.
    Done(Result<Option<String>, String>),
    /// The request is to be sent, and the check finished with the verdict.
    Verify(PendingCheck, HttpRequest),
}

/// The outcome that a verdict gives.
pub open spec fn answer_outcome(answer: AnswerView) -> OutcomeView {
    if answer.authorized {
        Ok(answer.user)
    } else {
        Err(MSG_DENIED@)
    }
}

/// The outcome that stands before the control API is asked, where there is one.
pub open spec fn known_outcome(
    config: ConfigView,
    cache: CacheView,
    token: Seq<char>,
    now: u64,
) -> Option<OutcomeView> {
    if !enabled(config) {
        Some(Ok(None))
    } else if token.len() == 0 {
        Some(Err(MSG_LOGIN_REQUIRED@))
    } else {
        match fresh_entry(cache, token, now, config.cache_secs) {
            Some(entry) => Some(answer_outcome(entry.value)),
            None => None,
        }
    }
}

fn answer(authorized: bool, user: &Option<String>) -> (outcome: Result<Option<String>, String>)
    ensures
        outcome_view(outcome) == answer_outcome(AnswerView { authorized, user: opt_text(*user) }),
{
    if authorized {
        Ok(copy_opt_text(user))
    } else {
        Err(MSG_DENIED.to_owned())
    }
}

/// Checks whether a token belongs to an authorized controller.
///
/// Everything passes while authorization is off; an empty token is refused; a
/// verdict that is kept and fresh stands. Otherwise the control API is to be
/// asked.
pub fn check_token(config: &Config, cache: &TokenCache, token: &str, ip: &str, now: u64) -> (step:
    CheckStep)
    ensures
        match step {
            CheckStep::Done(outcome) => known_outcome(config@, cache@, token@, now) == Some(
                outcome_view(outcome),
            ),
            CheckStep::Verify(pending, request) => {
                &&& known_outcome(config@, cache@, token@, now) is None
                &&& pending.token@ == token@
                &&& pending.now == now
                &&& request@ == verify_request(config@, token@, ip@)
                &&& request.url@ == config.url@ + "/tokens/verify"@
                &&& asks_about(request.body@, token@, ip@)
            },
        },
{
    if !is_enabled(config) {
        return CheckStep::Done(Ok(None));
    }
    if token.is_empty() {
        return CheckStep::Done(Err(MSG_LOGIN_REQUIRED.to_owned()));
    }
    if let Some(entry) = cache.get(token) {
        if age_secs(now, entry.tm) < config.cache_secs {
            return CheckStep::Done(answer(entry.value.authorized, &entry.value.user));
        }
    }
    CheckStep::Verify(
        PendingCheck { token: token.to_owned(), now },
        ask_verify(config, token, ip),
    )
}

/// The outcome of a check that the control API was asked for.
pub open spec fn verdict_outcome(config: ConfigView, verdict: VerdictView) -> OutcomeView {
    match verdict {
        Ok((authorized, user)) => answer_outcome(AnswerView { authorized, user }),
        Err(_) => if config.fail_open {
            Ok(None)
        } else {
            Err(MSG_API_DOWN@)
        },
    }
}

/// The kept verdicts after a check that the control API was asked for: a verdict
/// is kept from the moment that the check began, a failure leaves no trace.
pub open spec fn cache_after(
    config: ConfigView,
    cache: CacheView,
    token: Seq<char>,
    now: u64,
    verdict: VerdictView,
) -> CacheView {
    match verdict {
        Ok((authorized, user)) => entries_after_put(
            cache,
            token,
            AnswerView { authorized, user },
            now,
            config.cache_secs,
        ),
        Err(_) => cache,
    }
}

/// The order of the kept verdicts after such a check.
pub open spec fn cache_names_after(
    config: ConfigView,
    names: Seq<Seq<char>>,
    cache: CacheView,
    token: Seq<char>,
    now: u64,
    verdict: VerdictView,
) -> Seq<Seq<char>> {
    match verdict {
        Ok(_) => names_after_put(names, cache, token, now, config.cache_secs),
        Err(_) => names,
    }
}

/// Finishes a check with the verdict of the control API. Where there is none, the
/// settings decide.
pub fn finish_check(
    config: &Config,
    cache: &mut TokenCache,
    pending: PendingCheck,
    verdict: Result<(bool, Option<String>), String>,
) -> (outcome: Result<Option<String>, String>)
    requires
        old(cache).wf(),
    ensures
        final(cache).wf(),
        outcome_view(outcome) == verdict_outcome(config@, verdict_view(verdict)),
        final(cache)@ == cache_after(
            config@,
            old(cache)@,
            pending.token@,
            pending.now,
            verdict_view(verdict),
        ),
        final(cache).names() == cache_names_after(
            config@,
            old(cache).names(),
            old(cache)@,
            pending.token@,
            pending.now,
            verdict_view(verdict),
        ),
{
    match verdict {
        Ok((authorized, user)) => {
            let outcome = answer(authorized, &user);
            cache.put(
                pending.token.as_str(),
                TokenAnswer { authorized, user },
                pending.now,
                config.cache_secs,
            );
            outcome
        },
        Err(_) => if config.fail_open {
            Ok(None)
        } else {
            Err(MSG_API_DOWN.to_owned())
        },
    }
}

/// While authorization is off every controller passes, and the control API is
/// never asked.
pub proof fn law_off_lets_everyone_pass(
    config: ConfigView,
    cache: CacheView,
    token: Seq<char>,
    now: u64,
)
    requires
        !enabled(config),
    ensures
        known_outcome(config, cache, token, now) == Some(passes(None)),
{
}

/// While authorization is on, an empty token is refused with the request to log
/// in, whatever is kept and whatever happens on a failure; the control API is never
/// asked about it.
pub proof fn law_empty_token_is_refused(config: ConfigView, cache: CacheView, now: u64)
    requires
        enabled(config),
    ensures
        known_outcome(config, cache, Seq::empty(), now) == Some(
            refused(MSG_LOGIN_REQUIRED@),
        ),
{
}

/// A verdict stands for exactly the configured time: until then a check of the
/// token has the same outcome without asking, and from then on it asks again, so a
/// revoked token stops passing.
pub proof fn law_verdict_stands_for_its_time(
    config: ConfigView,
    cache: CacheView,
    token: Seq<char>,
    now: u64,
    verdict: VerdictView,
    later: u64,
)
    requires
        enabled(config),
        token.len() > 0,
        verdict is Ok,
    ensures
        known_outcome(config, cache_after(config, cache, token, now, verdict), token, later) == (
        if nanos_since(later, now) < config.cache_secs * NANOS_PER_SEC {
            Some(verdict_outcome(config, verdict))
        } else {
            None
        }),
{
    let (authorized, user) = verdict->Ok_0;
    law_put_is_fresh_for_its_time(
        cache,
        token,
        AnswerView { authorized, user },
        now,
        config.cache_secs,
        later,
    );
}

/// A verdict on one token changes the outcome for no other token.
pub proof fn law_verdict_is_for_its_token_alone(
    config: ConfigView,
    cache: CacheView,
    token: Seq<char>,
    now: u64,
    verdict: VerdictView,
    other: Seq<char>,
    later: u64,
)
    requires
        other != token,
        now <= later,
    ensures
        known_outcome(config, cache_after(config, cache, token, now, verdict), other, later)
            == known_outcome(config, cache, other, later),
{
    if let Ok((authorized, user)) = verdict {
        law_put_keeps_other_fresh_entries(
            cache,
            token,
            AnswerView { authorized, user },
            now,
            config.cache_secs,
            other,
            later,
        );
    }
}

/// A failure to get a verdict leaves nothing behind, and its outcome is decided by
/// the settings alone: pass without a name, or be refused.
pub proof fn law_failure_leaves_no_trace(
    config: ConfigView,
    cache: CacheView,
    token: Seq<char>,
    now: u64,
    verdict: VerdictView,
)
    requires
        verdict is Err,
    ensures
        cache_after(config, cache, token, now, verdict) == cache,
        verdict_outcome(config, verdict) == (if config.fail_open {
            passes(None)
        } else {
            refused(MSG_API_DOWN@)
        }),
{
}

/// A check that was finished: the token, when the check began, and what the
/// control API said.
pub struct FinishedCheck {
    pub token: Seq<char>,
    pub now: u64,
    pub verdict: VerdictView,
}

/// What is kept after a history of finished checks.
pub open spec fn cache_of(config: ConfigView, history: Seq<FinishedCheck>) -> CacheView
    decreases history.len(),
{
    if history.len() == 0 {
        Map::empty()
    } else {
        let last = history.last();
        cache_after(
            config,
            cache_of(config, history.drop_last()),
            last.token,
            last.now,
            last.verdict,
        )
    }
}

/// Whether check `i` of a history gave the last verdict on `token`.
pub open spec fn is_last_verdict(history: Seq<FinishedCheck>, token: Seq<char>, i: int) -> bool {
    &&& 0 <= i < history.len()
    &&& history[i].token == token
    &&& history[i].verdict is Ok
    &&& forall|j: int|
        i < j < history.len() && (#[trigger] history[j]).token == token ==> history[j].verdict is Err
}

proof fn lemma_kept_is_last_verdict(
    config: ConfigView,
    history: Seq<FinishedCheck>,
    token: Seq<char>,
) -> (at: int)
    requires
        cache_of(config, history).contains_key(token),
    ensures
        is_last_verdict(history, token, at),
        history[at].now == cache_of(config, history)[token].tm,
        history[at].verdict == Ok::<(bool, Option<Seq<char>>), Seq<char>>(
            (
                cache_of(config, history)[token].value.authorized,
                cache_of(config, history)[token].value.user,
            ),
        ),
    decreases history.len(),
{
    let last = history.last();
    if last.token == token && last.verdict is Ok {
        history.len() - 1
    } else {
        let before = history.drop_last();
        let at = lemma_kept_is_last_verdict(config, before, token);
        assert forall|j: int|
            at < j < history.len() && (#[trigger] history[j]).token == token implies history[j].verdict is Err by {
            if j < before.len() {
                assert(before[j] == history[j]);
            }
        }
        at
    }
}

/// A controller passes without the control API being asked only on its approval:
/// the last verdict on the token authorized it, for the user that is reported, and
/// is younger than the configured time.
pub proof fn law_pass_rests_on_last_verdict(
    config: ConfigView,
    history: Seq<FinishedCheck>,
    token: Seq<char>,
    now: u64,
    user: Option<Seq<char>>,
)
    requires
        enabled(config),
        known_outcome(config, cache_of(config, history), token, now) == Some(
            passes(user),
        ),
    ensures
        exists|i: int| #[trigger]
            is_last_verdict(history, token, i) && history[i].verdict == Ok::<_, Seq<char>>(
                (true, user),
            ) && secs_since(now, history[i].now) < config.cache_secs,
{
    let at = lemma_kept_is_last_verdict(config, history, token);
}

/// A check that asked the control API lets a controller pass only where the token
/// was authorized, or where there is no verdict and the settings say so.
pub proof fn law_pass_needs_approval(config: ConfigView, verdict: VerdictView)
    ensures
        verdict_outcome(config, verdict) is Ok <==> match verdict {
            Ok((authorized, _)) => authorized,
            Err(_) => config.fail_open,
        },
{
}

/// A kept verdict, and an outcome, as characters are the verdict and the outcome, whole.
pub proof fn law_outcomes_are_whole(
    answer: TokenAnswer,
    user: Option<String>,
    message: String,
)
    ensures
        answer@.authorized == answer.authorized,
        answer.user is Some ==> answer@.user == Some(answer.user->0@),
        answer.user is None ==> answer@.user is None,
        outcome_view(Ok(user)) is Ok,
        user is Some ==> outcome_view(Ok(user))->Ok_0 == Some(user->0@),
        user is None ==> outcome_view(Ok(user))->Ok_0 is None,
        outcome_view(Err(message)) is Err,
        outcome_view(Err(message))->Err_0 == message@,
{
}

/// A check is decided without the control API in three cases and no others. With no address
/// configured it passes without a name. With one, an empty token is refused with the request
/// to log in. For any other token a kept verdict decides while its time has not passed: an
/// approved token passes under the kept name, all of it, and one that was not approved is
/// refused.
pub proof fn law_check_is_decided_by_what_is_kept(
    config: ConfigView,
    cache: CacheView,
    token: Seq<char>,
    now: u64,
)
    ensures
        ({
            let known = known_outcome(config, cache, token, now);
            let stands = cache.contains_key(token) && if now >= cache[token].tm {
                now - cache[token].tm < config.cache_secs * 1_000_000_000
            } else {
                config.cache_secs > 0
            };
            &&& config.url.len() == 0 ==> known == Some(
                Ok::<Option<Seq<char>>, Seq<char>>(None),
            )
            &&& config.url.len() > 0 && token.len() == 0 ==> known == Some(
                Err::<Option<Seq<char>>, Seq<char>>(
                    "Acesso negado: faça login no aplicativo para conectar."@,
                ),
            )
            &&& config.url.len() > 0 && token.len() > 0 && stands && cache[token].value.authorized
                ==> known == Some(Ok::<Option<Seq<char>>, Seq<char>>(cache[token].value.user))
            &&& config.url.len() > 0 && token.len() > 0 && stands && !cache[token].value.authorized
                ==> known == Some(
                Err::<Option<Seq<char>>, Seq<char>>("Acesso negado: usuário não autorizado."@),
            )
            &&& config.url.len() > 0 && token.len() > 0 && !stands ==> known is None
        }),
{
    law_fresh_entry_is_the_kept_one(cache, token, now, config.cache_secs);
}

/// What the control API says of a token decides: an approved token passes under the name that
/// came with the approval, all of it, and one that was not approved is refused, whatever name
/// came with it. Where there is no verdict the reason plays no part: the controller passes
/// without a name where the settings say so, and is refused elsewhere.
pub proof fn law_verdict_decides(config: ConfigView, user: Option<Seq<char>>, why: Seq<char>)
    ensures
        verdict_outcome(config, Ok((true, user))) == Ok::<Option<Seq<char>>, Seq<char>>(user),
        verdict_outcome(config, Ok((false, user))) == Err::<Option<Seq<char>>, Seq<char>>(
            "Acesso negado: usuário não autorizado."@,
        ),
        config.fail_open ==> verdict_outcome(config, Err(why)) == Ok::<
            Option<Seq<char>>,
            Seq<char>,
        >(None),
        !config.fail_open ==> verdict_outcome(config, Err(why)) == Err::<
            Option<Seq<char>>,
            Seq<char>,
        >("Servidor de autorização indisponível. Tente novamente em instantes."@),
{
}

/// A verdict is kept as it came, from the moment at which its check began, and touches no
/// other token, but that verdicts whose time has passed leave where ten thousand or more are
/// kept and the token is a new one. A failure changes nothing.
pub proof fn law_verdict_is_kept_as_it_came(
    config: ConfigView,
    cache: CacheView,
    token: Seq<char>,
    now: u64,
    authorized: bool,
    user: Option<Seq<char>>,
    why: Seq<char>,
    other: Seq<char>,
)
    ensures
        ({
            let after = cache_after(config, cache, token, now, Ok((authorized, user)));
            &&& after.contains_key(token)
            &&& after[token].tm == now
            &&& after[token].value.authorized == authorized
            &&& after[token].value.user == user
            &&& other != token ==> (after.contains_key(other) <==> cache.contains_key(other) && !(
            cache.len() >= 10_000 && !cache.contains_key(token) && if now >= cache[other].tm {
                now - cache[other].tm >= config.cache_secs * 1_000_000_000
            } else {
                config.cache_secs == 0
            }))
            &&& other != token && after.contains_key(other) ==> after[other] == cache[other]
        }),
        cache_after(config, cache, token, now, Err(why)) == cache,
{
    law_put_changes_one_entry(
        cache,
        token,
        AnswerView { authorized, user },
        now,
        config.cache_secs,
        other,
    );
}

/// The order in which tokens came is kept: a verdict on a token that is kept changes nothing
/// in it, a new token comes last, and a failure leaves it as it is.
pub proof fn law_tokens_stay_in_order(
    config: ConfigView,
    names: Seq<Seq<char>>,
    cache: CacheView,
    token: Seq<char>,
    now: u64,
    verdict: VerdictView,
)
    ensures
        verdict is Err || cache.contains_key(token) ==> cache_names_after(
            config,
            names,
            cache,
            token,
            now,
            verdict,
        ) == names,
        verdict is Ok && !cache.contains_key(token) && cache.len() < 10_000 ==> cache_names_after(
            config,
            names,
            cache,
            token,
            now,
            verdict,
        ) == names.push(token),
        verdict is Ok && !cache.contains_key(token) && cache.len() >= 10_000 ==> cache_names_after(
            config,
            names,
            cache,
            token,
            now,
            verdict,
        ) == names.filter(
            |k: Seq<char>|
                if now >= cache[k].tm {
                    now - cache[k].tm < config.cache_secs * 1_000_000_000
                } else {
                    config.cache_secs > 0
                },
        ).push(token),
{
    law_put_keeps_the_order(names, cache, token, now, config.cache_secs);
}

/// Whether the clock readings of a history never go back.
pub open spec fn in_order(history: Seq<FinishedCheck>) -> bool {
    forall|i: int, j: int|
        0 <= i <= j < history.len() ==> (#[trigger] history[i]).now <= (#[trigger] history[j]).now
}

proof fn lemma_last_verdict_is_kept(
    config: ConfigView,
    history: Seq<FinishedCheck>,
    token: Seq<char>,
    at: int,
    now: u64,
)
    requires
        in_order(history),
        is_last_verdict(history, token, at),
        history.last().now <= now,
        now - history[at].now < config.cache_secs * 1_000_000_000,
    ensures
        cache_of(config, history).contains_key(token),
        cache_of(config, history)[token].tm == history[at].now,
        cache_of(config, history)[token].value.authorized == history[at].verdict->Ok_0.0,
        cache_of(config, history)[token].value.user == history[at].verdict->Ok_0.1,
    decreases history.len(),
{
    let last = history.last();
    let before = history.drop_last();
    assert(history[at].now <= last.now);
    if at < before.len() {
        assert(before.last() == history[history.len() - 2]);
        assert(before.last().now <= last.now);
        assert forall|j: int| at < j < before.len() && (#[trigger] before[j]).token
            == token implies before[j].verdict is Err by {
            assert(before[j] == history[j]);
        }
        lemma_last_verdict_is_kept(config, before, token, at, last.now);
        if let Ok((authorized, user)) = last.verdict {
            assert(history[history.len() - 1].token != token);
            law_put_changes_one_entry(
                cache_of(config, before),
                last.token,
                AnswerView { authorized, user },
                last.now,
                config.cache_secs,
                token,
            );
        }
    }
}

/// However many checks went before, of however many tokens, the last verdict on a token
/// stands for all of its time and decides every check of the token until then.
pub proof fn law_last_verdict_decides(
    config: ConfigView,
    history: Seq<FinishedCheck>,
    token: Seq<char>,
    at: int,
    now: u64,
)
    requires
        config.url.len() > 0,
        token.len() > 0,
        in_order(history),
        is_last_verdict(history, token, at),
        history.last().now <= now,
        now - history[at].now < config.cache_secs * 1_000_000_000,
    ensures
        history[at].verdict->Ok_0.0 ==> known_outcome(
            config,
            cache_of(config, history),
            token,
            now,
        ) == Some(Ok::<Option<Seq<char>>, Seq<char>>(history[at].verdict->Ok_0.1)),
        !history[at].verdict->Ok_0.0 ==> known_outcome(
            config,
            cache_of(config, history),
            token,
            now,
        ) == Some(
            Err::<Option<Seq<char>>, Seq<char>>("Acesso negado: usuário não autorizado."@),
        ),
{
    lemma_last_verdict_is_kept(config, history, token, at, now);
    law_check_is_decided_by_what_is_kept(config, cache_of(config, history), token, now);
    assert(history[at].now <= history[history.len() - 1].now);
}

/// The control API is asked about a token where no verdict on it is younger than the
/// configured time, whatever else is kept.
pub proof fn law_control_api_is_asked_without_a_verdict(
    config: ConfigView,
    history: Seq<FinishedCheck>,
    token: Seq<char>,
    now: u64,
)
    requires
        config.url.len() > 0,
        token.len() > 0,
        forall|i: int|
            0 <= i < history.len() && (#[trigger] history[i]).token == token
                && history[i].verdict is Ok ==> now - history[i].now >= config.cache_secs
                * 1_000_000_000,
    ensures
        known_outcome(config, cache_of(config, history), token, now) is None,
{
    law_check_is_decided_by_what_is_kept(config, cache_of(config, history), token, now);
    if cache_of(config, history).contains_key(token) {
        let at = lemma_kept_is_last_verdict(config, history, token);
        assert(history[at].token == token);
    }
}

} // verus!
