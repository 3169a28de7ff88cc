//! Reports of the peers that registered.

use crate::clock::{age_secs, nanos_since, NANOS_PER_SEC};
use crate::config::{enabled, is_enabled, Config, ConfigView};
use crate::json::{fields_view, json_members, text_member, FieldView};
use crate::ledger::{
    entries_after_put, fresh_entry, law_fresh_entry_is_the_kept_one, law_put_changes_one_entry,
    law_put_is_fresh_for_its_time, law_put_keeps_other_fresh_entries, names_after_put, Ledger, Stamped,
};
use crate::request::{post, post_request, HttpRequest, RequestView};
use crate::text::same_text;
use vstd::prelude::*;

verus! {

/// The server's own self-test peer, which is no real machine.
pub const SELF_TEST_PEER: &'static str = "(:test_hbbs:)";

/// When each peer was last reported.
pub type SeenLog = Ledger<()>;

/// When each peer was last reported, as a map.
pub type SeenView = Map<Seq<char>, Stamped<()>>;

/// Whether a peer is to be reported: authorization is on, the peer has a name, is
/// not the self-test peer and was not reported within the configured time.
pub open spec fn report_is_due(config: ConfigView, seen: SeenView, id: Seq<char>, now: u64) -> bool {
    &&& enabled(config)
    &&& id.len() > 0
    &&& id != SELF_TEST_PEER@
    &&& fresh_entry(seen, id, now, config.seen_secs) is None
}

/// The fields of a report.
pub open spec fn seen_fields(id: Seq<char>, ip: Seq<char>) -> Seq<(Seq<char>, Option<Seq<char>>)> {
    seq![("id"@, Some(id)), ("ip"@, Some(ip))]
}

/// The report that the peer `id` was seen at `ip`.
pub open spec fn seen_request(config: ConfigView, id: Seq<char>, ip: Seq<char>) -> RequestView {
    post_request(config, "/peers/seen"@, seen_fields(id, ip))
}

/// Whether `body` is a JSON object with exactly the members `id` and `ip`.
pub open spec fn reports(body: Seq<u8>, id: Seq<char>, ip: Seq<char>) -> bool {
    json_members(body) == Some(
        Map::<Seq<char>, FieldView>::empty().insert("id"@, FieldView::Text(id)).insert(
            "ip"@,
            FieldView::Text(ip),
        ),
    )
}

/// When each peer was last reported, after `id` was seen.
pub open spec fn seen_after(config: ConfigView, seen: SeenView, id: Seq<char>, now: u64) -> SeenView {
    if report_is_due(config, seen, id, now) {
        entries_after_put(seen, id, (), now, config.seen_secs)
    } else {
        seen
    }
}

/// Reports that a peer was seen, at most once in the configured time: the result
/// is the request to send, if any.
pub fn report_seen(config: &Config, seen: &mut SeenLog, id: &str, ip: String, now: u64) -> (request:
    Option<HttpRequest>)
    requires
        old(seen).wf(),
    ensures
        final(seen).wf(),
        final(seen)@ == seen_after(config@, old(seen)@, id@, now),
        final(seen).names() == (if report_is_due(config@, old(seen)@, id@, now) {
            names_after_put(old(seen).names(), old(seen)@, id@, now, config@.seen_secs)
        } else {
            old(seen).names()
        }),
        match request {
            Some(r) => {
                &&& report_is_due(config@, old(seen)@, id@, now)
                &&& r@ == seen_request(config@, id@, ip@)
                &&& r.url@ == config.url@ + "/peers/seen"@
                &&& reports(r.body@, id@, ip@)
            },
            None => !report_is_due(config@, old(seen)@, id@, now),
        },
{
    if !is_enabled(config) || id.is_empty() || same_text(id, SELF_TEST_PEER) {
        return None;
    }
    if let Some(entry) = seen.get(id) {
        if age_secs(now, entry.tm) < config.seen_secs {
            return None;
        }
    }
    seen.put(id, (), now, config.seen_secs);
    let ghost address = ip@;
    let fields: Vec<(String, Option<String>)> = vec![
        ("id".to_owned(), Some(id.to_owned())),
        ("ip".to_owned(), Some(ip)),
    ];
    proof {
        let f = fields_view(fields@);
        assert(f =~= seen_fields(id@, address));
        reveal_strlit("id");
        reveal_strlit("ip");
        assert("id"@[1] != "ip"@[1]);
        reveal_with_fuel(crate::json::written_members, 3);
    }
    Some(post(config, "/peers/seen", fields))
}

/// Nothing is reported while authorization is off, and the self-test peer never is.
pub proof fn law_unreported(config: ConfigView, seen: SeenView, id: Seq<char>, now: u64)
    requires
        !enabled(config) || id == SELF_TEST_PEER@ || id.len() == 0,
    ensures
        !report_is_due(config, seen, id, now),
        seen_after(config, seen, id, now) == seen,
{
}

/// A peer that was just reported is due again once the configured time has passed,
/// and not before.
pub proof fn law_report_is_throttled(
    config: ConfigView,
    seen: SeenView,
    id: Seq<char>,
    now: u64,
    later: u64,
)
    requires
        report_is_due(config, seen, id, now),
    ensures
        report_is_due(config, seen_after(config, seen, id, now), id, later) <==> nanos_since(
            later,
            now,
        ) >= config.seen_secs * NANOS_PER_SEC,
{
    law_put_is_fresh_for_its_time(seen, id, (), now, config.seen_secs, later);
}

/// Seeing one peer delays the report of no other.
pub proof fn law_throttle_is_per_peer(
    config: ConfigView,
    seen: SeenView,
    id: Seq<char>,
    now: u64,
    other: Seq<char>,
    later: u64,
)
    requires
        other != id,
        now <= later,
    ensures
        report_is_due(config, seen_after(config, seen, id, now), other, later) == report_is_due(
            config,
            seen,
            other,
            later,
        ),
{
    law_put_keeps_other_fresh_entries(seen, id, (), now, config.seen_secs, other, later);
}

/// The report reads back: its body names the peer and the address at which it was
/// seen.
pub proof fn law_report_reads_back(body: Seq<u8>, id: Seq<char>, ip: Seq<char>)
    requires
        reports(body, id, ip),
    ensures
        text_member(json_members(body), "id"@) == Some(id),
        text_member(json_members(body), "ip"@) == Some(ip),
{
    reveal_strlit("id");
    reveal_strlit("ip");
    assert("id"@[1] != "ip"@[1]);
}

/// A peer that was seen, and when.
pub struct Sighting {
    pub id: Seq<char>,
    pub now: u64,
}

/// When each peer was last reported, after a history of sightings.
pub open spec fn seen_of(config: ConfigView, history: Seq<Sighting>) -> SeenView
    decreases history.len(),
{
    if history.len() == 0 {
        Map::empty()
    } else {
        let last = history.last();
        seen_after(config, seen_of(config, history.drop_last()), last.id, last.now)
    }
}

/// Whether sighting `i` of a history is reported.
pub open spec fn is_reported(config: ConfigView, history: Seq<Sighting>, i: int) -> bool {
    report_is_due(config, seen_of(config, history.take(i)), history[i].id, history[i].now)
}

/// Whether the clock readings of a history never go back.
pub open spec fn in_order(history: Seq<Sighting>) -> bool {
    forall|i: int, j: int|
        0 <= i <= j < history.len() ==> (#[trigger] history[i]).now <= (#[trigger] history[j]).now
}

proof fn lemma_reported_stays_fresh(
    config: ConfigView,
    history: Seq<Sighting>,
    i: int,
    end: int,
    later: u64,
)
    requires
        in_order(history),
        0 <= i < end <= history.len(),
        is_reported(config, history, i),
        history[end - 1].now <= later,
        later - history[i].now < config.seen_secs * NANOS_PER_SEC,
    ensures
        fresh_entry(
            seen_of(config, history.take(end)),
            history[i].id,
            later,
            config.seen_secs,
        ) is Some,
    decreases end,
{
    let last = history[end - 1];
    let before = seen_of(config, history.take(end - 1));
    assert(history.take(end).drop_last() =~= history.take(end - 1));
    assert(history[i].now <= last.now);
    if last.id == history[i].id && report_is_due(config, before, last.id, last.now) {
        law_put_is_fresh_for_its_time(before, last.id, (), last.now, config.seen_secs, later);
    } else {
        assert(history[end - 2].now <= last.now);
        lemma_reported_stays_fresh(config, history, i, end - 1, later);
        if last.id != history[i].id {
            law_put_keeps_other_fresh_entries(
                before,
                last.id,
                (),
                last.now,
                config.seen_secs,
                history[i].id,
                later,
            );
        }
    }
}

/// However often a peer is seen, two reports of it are at least the configured time
/// apart.
pub proof fn law_reports_are_spaced(config: ConfigView, history: Seq<Sighting>, i: int, j: int)
    requires
        in_order(history),
        0 <= i < j < history.len(),
        history[i].id == history[j].id,
        is_reported(config, history, i),
        is_reported(config, history, j),
    ensures
        history[j].now - history[i].now >= config.seen_secs * NANOS_PER_SEC,
{
    if history[j].now - history[i].now < config.seen_secs * NANOS_PER_SEC {
        assert(history[j - 1].now <= history[j].now);
        lemma_reported_stays_fresh(config, history, i, j, history[j].now);
    }
}

/// A peer is due exactly where an address is configured, the peer has a name that is not the
/// self-test peer's, and no report of it is kept whose time has not passed. Nothing else
/// about the name plays a part.
pub proof fn law_due_reports(config: ConfigView, seen: SeenView, id: Seq<char>, now: u64)
    ensures
        report_is_due(config, seen, id, now) <==> {
            &&& config.url.len() > 0
            &&& id.len() > 0
            &&& id != "(:test_hbbs:)"@
            &&& !(seen.contains_key(id) && if now >= seen[id].tm {
                now - seen[id].tm < config.seen_secs * 1_000_000_000
            } else {
                config.seen_secs > 0
            })
        },
{
    law_fresh_entry_is_the_kept_one(seen, id, now, config.seen_secs);
}

/// A report is remembered under the peer's name from the moment of the report, and touches
/// no other peer, but that reports whose time has passed leave where ten thousand or more are
/// kept and the peer is a new one. Where nothing is due, nothing changes.
pub proof fn law_report_is_remembered(
    config: ConfigView,
    seen: SeenView,
    id: Seq<char>,
    now: u64,
    other: Seq<char>,
)
    ensures
        ({
            let after = seen_after(config, seen, id, now);
            let due = report_is_due(config, seen, id, now);
            &&& !due ==> after == seen
            &&& due ==> after.contains_key(id) && after[id].tm == now
            &&& due && other != id ==> (after.contains_key(other) <==> seen.contains_key(other) && !(
            seen.len() >= 10_000 && !seen.contains_key(id) && if now >= seen[other].tm {
                now - seen[other].tm >= config.seen_secs * 1_000_000_000
            } else {
                config.seen_secs == 0
            }))
            &&& due && other != id && after.contains_key(other) ==> after[other] == seen[other]
        }),
{
    law_put_changes_one_entry(seen, id, (), now, config.seen_secs, other);
}

/// A report has exactly two members, the peer and the address, each a string with all of its
/// characters.
pub proof fn law_report_has_two_members(body: Seq<u8>, id: Seq<char>, ip: Seq<char>)
    ensures
        reports(body, id, ip) <==> {
            &&& json_members(body) is Some
            &&& forall|name: Seq<char>| #[trigger]
                json_members(body)->0.contains_key(name) <==> name == "id"@ || name == "ip"@
            &&& json_members(body)->0["id"@] == FieldView::Text(id)
            &&& json_members(body)->0["ip"@] == FieldView::Text(ip)
        },
{
    reveal_strlit("id");
    reveal_strlit("ip");
    assert("id"@[1] != "ip"@[1]);
    let reported = Map::<Seq<char>, FieldView>::empty().insert("id"@, FieldView::Text(id)).insert(
        "ip"@,
        FieldView::Text(ip),
    );
    if json_members(body) is Some {
        let members = json_members(body)->0;
        if (forall|name: Seq<char>| #[trigger]
            members.contains_key(name) <==> name == "id"@ || name == "ip"@) && members["id"@]
            == FieldView::Text(id) && members["ip"@] == FieldView::Text(ip) {
            assert(members =~= reported);
        }
    }
}

proof fn lemma_kept_was_reported(config: ConfigView, history: Seq<Sighting>, id: Seq<char>) -> (at:
    int)
    requires
        seen_of(config, history).contains_key(id),
    ensures
        0 <= at < history.len(),
        history[at].id == id,
        history[at].now == seen_of(config, history)[id].tm,
        is_reported(config, history, at),
    decreases history.len(),
{
    let last = history.last();
    let before = history.drop_last();
    let end = history.len() - 1;
    assert(before =~= history.take(end));
    if last.id == id && report_is_due(config, seen_of(config, before), last.id, last.now) {
        end
    } else {
        law_report_is_remembered(config, seen_of(config, before), last.id, last.now, id);
        let at = lemma_kept_was_reported(config, before, id);
        assert(before.take(at) =~= history.take(at));
        at
    }
}

/// While an address is configured, the first sighting of a peer is reported, whatever the
/// peer's name is, unless it is empty or the self-test peer's.
pub proof fn law_first_sighting_is_reported(config: ConfigView, history: Seq<Sighting>, i: int)
    requires
        config.url.len() > 0,
        0 <= i < history.len(),
        history[i].id.len() > 0,
        history[i].id != "(:test_hbbs:)"@,
        forall|j: int| 0 <= j < i ==> (#[trigger] history[j]).id != history[i].id,
    ensures
        is_reported(config, history, i),
{
    let before = history.take(i);
    let id = history[i].id;
    law_due_reports(config, seen_of(config, before), id, history[i].now);
    if seen_of(config, before).contains_key(id) {
        let at = lemma_kept_was_reported(config, before, id);
        assert(before[at] == history[at]);
    }
}

/// A sighting is reported exactly where an address is configured, the peer has a name that is
/// not the self-test peer's, and every earlier report of the peer is at least the configured
/// time ago.
pub proof fn law_sightings_are_reported_in_time(
    config: ConfigView,
    history: Seq<Sighting>,
    i: int,
)
    requires
        in_order(history),
        0 <= i < history.len(),
    ensures
        is_reported(config, history, i) <==> {
            &&& config.url.len() > 0
            &&& history[i].id.len() > 0
            &&& history[i].id != "(:test_hbbs:)"@
            &&& forall|j: int|
                0 <= j < i && (#[trigger] history[j]).id == history[i].id && is_reported(
                    config,
                    history,
                    j,
                ) ==> history[i].now - history[j].now >= config.seen_secs * 1_000_000_000
        },
{
    let before = history.take(i);
    let id = history[i].id;
    law_due_reports(config, seen_of(config, before), id, history[i].now);
    if is_reported(config, history, i) {
        assert forall|j: int|
            0 <= j < i && (#[trigger] history[j]).id == id && is_reported(
                config,
                history,
                j,
            ) implies history[i].now - history[j].now >= config.seen_secs * 1_000_000_000 by {
            law_reports_are_spaced(config, history, j, i);
        }
    } else if seen_of(config, before).contains_key(id) {
        let at = lemma_kept_was_reported(config, before, id);
        assert(before[at] == history[at]);
        assert(before.take(at) =~= history.take(at));
        assert(history[at].now <= history[i].now);
    }
}

} // verus!
