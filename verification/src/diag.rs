//! Diagnostics for the console.

use crate::blocks::{BlockEntry, BlockLog, BlockView};
use crate::check::{CacheView, TokenCache};
use crate::clock::{
    age_secs, event_second, is_dated, nanos_since, rfc3339, rfc3339_text, second_of, secs_since,
    WallTime, FIRST_DATED_SECOND, LAST_DATED_SECOND,
};
use crate::config::{enabled, is_enabled, Config, ConfigView};
use crate::seen::SeenLog;
use crate::text::{
    decimal, decimal_text, first_chars, leading_chars, lemma_decimal_has_no_line_break,
    lemma_line_breaks_concat, lemma_no_line_break, lemma_one_line_break, line_breaks, no_line_break, opt_text,
};
use vstd::prelude::*;

verus! {

/// The number of entries that are listed of the kept verdicts, and of the refused
/// connections.
pub const MAX_LISTED: usize = 20;

/// The number of characters that are shown of a token.
pub const SHOWN_TOKEN_CHARS: usize = 8;

/// A text as `{:?}` writes it: quoted, with escapes.
pub uninterp spec fn debug_text(s: Seq<char>) -> Seq<char>;

/// Quotes a text.
///
/// Calls `format!` with `{:?}` on a `str`. The contract claims that the result
/// depends on the text alone and holds no line break, since that is escaped; which
/// other characters are escaped, and how, is left to the name `debug_text`.
#[verifier::external_body]
fn quote(s: &str) -> (quoted: String)
    ensures
        quoted@ == debug_text(s@),
        no_line_break(quoted@),
{
    format!("{:?}", s)
}

/// `true` or `false`.
pub open spec fn bool_text(b: bool) -> Seq<char> {
    if b {
        "true"@
    } else {
        "false"@
    }
}

proof fn lemma_bool_text(b: bool)
    ensures
        line_breaks(bool_text(b)) == 0,
{
    reveal_strlit("true");
    reveal_strlit("false");
    lemma_no_line_break(bool_text(b));
}

fn bool_name(b: bool) -> (name: &'static str)
    ensures
        name@ == bool_text(b),
{
    if b {
        "true"
    } else {
        "false"
    }
}

/// An optional user as it is shown.
pub open spec fn user_text(user: Option<Seq<char>>) -> Seq<char> {
    match user {
        Some(name) => "Some("@ + debug_text(name) + ")"@,
        None => "None"@,
    }
}

proof fn lemma_user_marks()
    ensures
        line_breaks("Some("@) == 0,
        line_breaks(")"@) == 0,
        line_breaks("None"@) == 0,
{
    reveal_strlit("Some(");
    reveal_strlit(")");
    reveal_strlit("None");
    lemma_no_line_break("Some("@);
    lemma_no_line_break(")"@);
    lemma_no_line_break("None"@);
}

fn show_user(user: &Option<String>) -> (text: String)
    ensures
        text@ == user_text(opt_text(*user)),
        line_breaks(text@) == 0,
{
    broadcast use lemma_line_breaks_concat;

    proof {
        lemma_user_marks();
    }
    match user {
        Some(name) => {
            let mut text = "Some(".to_owned();
            let quoted = quote(name.as_str());
            proof {
                lemma_no_line_break(quoted@);
            }
            text.append(quoted.as_str());
            text.append(")");
            text
        },
        None => "None".to_owned(),
    }
}

/// The line of a kept verdict, with the user as it is shown.
pub open spec fn token_line_text(
    token: Seq<char>,
    authorized: bool,
    user: Seq<char>,
    age: nat,
) -> Seq<char> {
    "  "@ + first_chars(token, SHOWN_TOKEN_CHARS as int) + "... authorized="@ + bool_text(authorized)
        + " user="@ + user + " age="@ + decimal_text(age) + "s\n"@
}

/// The line of a kept verdict is one line, where the shown part of the token and the user
/// as it is shown hold no line break.
pub proof fn law_token_line_is_one_line(
    token: Seq<char>,
    authorized: bool,
    user: Seq<char>,
    age: nat,
)
    requires
        no_line_break(first_chars(token, SHOWN_TOKEN_CHARS as int)),
        line_breaks(user) == 0,
    ensures
        line_breaks(token_line_text(token, authorized, user, age)) == 1,
{
    broadcast use lemma_line_breaks_concat;

    reveal_strlit("  ");
    reveal_strlit("... authorized=");
    reveal_strlit(" user=");
    reveal_strlit(" age=");
    reveal_strlit("s\n");
    lemma_no_line_break("  "@);
    lemma_no_line_break(first_chars(token, SHOWN_TOKEN_CHARS as int));
    lemma_no_line_break("... authorized="@);
    lemma_bool_text(authorized);
    lemma_no_line_break(" user="@);
    lemma_no_line_break(" age="@);
    lemma_decimal_has_no_line_break(age);
    lemma_one_line_break("s\n"@, 1);
}

/// Writes the line of a kept verdict. Of the token only the first characters are
/// shown.
pub fn token_line(token: &str, authorized: bool, user: &str, age: u64) -> (line: String)
    ensures
        line@ == token_line_text(token@, authorized, user@, age as nat),
{
    let mut line = "  ".to_owned();
    line.append(leading_chars(token, SHOWN_TOKEN_CHARS).as_str());
    line.append("... authorized=");
    line.append(bool_name(authorized));
    line.append(" user=");
    line.append(user);
    line.append(" age=");
    line.append(decimal(age).as_str());
    line.append("s\n");
    line
}

/// The line of a refused connection, with the date as it is shown.
pub open spec fn block_line_text(date: Seq<char>, block: BlockView) -> Seq<char> {
    "  "@ + date + " "@ + block.from_ip + " -> "@ + block.target_id + ": "@ + block.reason + "\n"@
}

/// Whether nothing that is shown of a refused connection holds a line break.
pub open spec fn block_is_plain(block: BlockView) -> bool {
    &&& no_line_break(block.from_ip)
    &&& no_line_break(block.target_id)
    &&& no_line_break(block.reason)
}

/// The line of a refused connection is one line, where nothing that is shown in it holds a
/// line break.
pub proof fn law_block_line_is_one_line(date: Seq<char>, block: BlockView)
    requires
        no_line_break(date),
        block_is_plain(block),
    ensures
        line_breaks(block_line_text(date, block)) == 1,
{
    broadcast use lemma_line_breaks_concat;

    reveal_strlit("  ");
    reveal_strlit(" ");
    reveal_strlit(" -> ");
    reveal_strlit(": ");
    reveal_strlit("\n");
    lemma_no_line_break("  "@);
    lemma_no_line_break(date);
    lemma_no_line_break(" "@);
    lemma_no_line_break(block.from_ip);
    lemma_no_line_break(" -> "@);
    lemma_no_line_break(block.target_id);
    lemma_no_line_break(": "@);
    lemma_no_line_break(block.reason);
    lemma_one_line_break("\n"@, 0);
}

/// Writes the line of a refused connection.
pub fn block_line(date: &str, block: &BlockEntry) -> (line: String)
    ensures
        line@ == block_line_text(date@, block@),
{
    let mut line = "  ".to_owned();
    line.append(date);
    line.append(" ");
    line.append(block.from_ip.as_str());
    line.append(" -> ");
    line.append(block.target_id.as_str());
    line.append(": ");
    line.append(block.reason.as_str());
    line.append("\n");
    line
}

/// The head of the diagnostics: the settings.
pub open spec fn settings_text(config: ConfigView) -> Seq<char> {
    "url: "@ + config.url + "\nfail_open: "@ + bool_text(config.fail_open) + "\ntimeout_ms: "@
        + decimal_text(config.timeout_ms as nat) + " cache_secs: "@ + decimal_text(
        config.cache_secs as nat,
    ) + " seen_secs: "@ + decimal_text(config.seen_secs as nat) + "\n"@
}

proof fn lemma_settings_lines(config: ConfigView)
    requires
        no_line_break(config.url),
    ensures
        line_breaks(settings_text(config)) == 3,
{
    broadcast use lemma_line_breaks_concat;

    reveal_strlit("url: ");
    reveal_strlit("\nfail_open: ");
    reveal_strlit("\ntimeout_ms: ");
    reveal_strlit(" cache_secs: ");
    reveal_strlit(" seen_secs: ");
    reveal_strlit("\n");
    lemma_no_line_break("url: "@);
    lemma_no_line_break(config.url);
    lemma_one_line_break("\nfail_open: "@, 0);
    lemma_bool_text(config.fail_open);
    lemma_one_line_break("\ntimeout_ms: "@, 0);
    lemma_decimal_has_no_line_break(config.timeout_ms as nat);
    lemma_no_line_break(" cache_secs: "@);
    lemma_decimal_has_no_line_break(config.cache_secs as nat);
    lemma_no_line_break(" seen_secs: "@);
    lemma_decimal_has_no_line_break(config.seen_secs as nat);
    lemma_one_line_break("\n"@, 0);
}

fn settings(config: &Config) -> (text: String)
    ensures
        text@ == settings_text(config@),
{
    let mut text = "url: ".to_owned();
    text.append(config.url.as_str());
    text.append("\nfail_open: ");
    text.append(bool_name(config.fail_open));
    text.append("\ntimeout_ms: ");
    text.append(decimal(config.timeout_ms).as_str());
    text.append(" cache_secs: ");
    text.append(decimal(config.cache_secs).as_str());
    text.append(" seen_secs: ");
    text.append(decimal(config.seen_secs).as_str());
    text.append("\n");
    text
}

/// The lines of the first `count` kept verdicts, in the order in which their tokens
/// came.
pub open spec fn token_lines_text(
    names: Seq<Seq<char>>,
    cache: CacheView,
    now: u64,
    count: nat,
) -> Seq<char>
    decreases count,
{
    if count == 0 {
        Seq::empty()
    } else {
        let name = names[count - 1];
        let entry = cache[name];
        token_lines_text(names, cache, now, (count - 1) as nat) + token_line_text(
            name,
            entry.value.authorized,
            user_text(entry.value.user),
            secs_since(now, entry.tm),
        )
    }
}

/// How many of `len` entries are listed.
pub open spec fn listed(len: nat) -> nat {
    if len <= MAX_LISTED {
        len
    } else {
        MAX_LISTED as nat
    }
}

/// Whether the shown part of no listed token holds a line break.
pub open spec fn tokens_are_plain(names: Seq<Seq<char>>) -> bool {
    forall|i: int|
        0 <= i < listed(names.len()) ==> no_line_break(
            first_chars(#[trigger] names[i], SHOWN_TOKEN_CHARS as int),
        )
}

fn token_lines(cache: &TokenCache, now: u64) -> (text: String)
    requires
        cache.wf(),
    ensures
        text@ == token_lines_text(cache.names(), cache@, now, listed(cache@.len())),
        tokens_are_plain(cache.names()) ==> line_breaks(text@) == listed(cache@.len()),
{
    let len: usize = cache.len();
    let count: usize = if len <= MAX_LISTED {
        len
    } else {
        MAX_LISTED
    };
    let mut text = String::new();
    let mut i: usize = 0;
    while i < count
        invariant
            i <= count,
            count == listed(cache.names().len()),
            cache.wf(),
            text@ == token_lines_text(cache.names(), cache@, now, i as nat),
            tokens_are_plain(cache.names()) ==> line_breaks(text@) == i,
        decreases count - i,
    {
        let name = cache.name_at(i);
        proof {
            cache.lemma_names();
        }
        if let Some(entry) = cache.get(name) {
            let user = show_user(&entry.value.user);
            let line = token_line(
                name,
                entry.value.authorized,
                user.as_str(),
                age_secs(now, entry.tm),
            );
            proof {
                lemma_line_breaks_concat(text@, line@);
                if tokens_are_plain(cache.names()) {
                    assert(no_line_break(
                        first_chars(cache.names()[i as int], SHOWN_TOKEN_CHARS as int),
                    ));
                    law_token_line_is_one_line(
                        name@,
                        entry.value.authorized,
                        user@,
                        secs_since(now, entry.tm),
                    );
                }
            }
            text.append(line.as_str());
        }
        i = i + 1;
    }
    text
}

/// The second at which a connection was refused.
pub open spec fn block_second(block: BlockView, wall: WallTime, now: u64) -> int {
    event_second(wall, nanos_since(now, block.tm))
}

/// The lines of the last `count` refused connections, the last one first.
pub open spec fn block_lines_text(
    blocks: Seq<BlockView>,
    wall: WallTime,
    now: u64,
    count: nat,
) -> Seq<char>
    decreases count,
{
    if count == 0 {
        Seq::empty()
    } else {
        let block = blocks[blocks.len() - count];
        block_lines_text(blocks, wall, now, (count - 1) as nat) + block_line_text(
            rfc3339_text(block_second(block, wall, now)),
            block,
        )
    }
}

/// Whether all refused connections that are listed have a date text.
pub open spec fn listed_are_dated(blocks: Seq<BlockView>, wall: WallTime, now: u64) -> bool {
    forall|i: int|
        blocks.len() - listed(blocks.len()) <= i < blocks.len() ==> is_dated(
            block_second(#[trigger] blocks[i], wall, now),
        )
}

/// Tells whether all refused connections that are listed have a date text.
pub fn blocks_are_dated(blocks: &BlockLog, wall: WallTime, now: u64) -> (dated: bool)
    requires
        wall.wf(),
    ensures
        dated == listed_are_dated(blocks@, wall, now),
{
    let len: usize = blocks.len();
    let first: usize = if len <= MAX_LISTED {
        0
    } else {
        len - MAX_LISTED
    };
    let mut i: usize = first;
    while i < len
        invariant
            first <= i <= len,
            len == blocks@.len(),
            first == len - listed(blocks@.len()),
            wall.wf(),
            forall|j: int|
                first <= j < i ==> is_dated(block_second(#[trigger] blocks@[j], wall, now)),
        decreases len - i,
    {
        if second_of(wall, now, blocks.entry_at(i).tm).is_none() {
            return false;
        }
        i = i + 1;
    }
    true
}

/// Whether nothing that is shown of the listed refused connections holds a line break.
pub open spec fn listed_are_plain(blocks: Seq<BlockView>) -> bool {
    forall|i: int|
        blocks.len() - listed(blocks.len()) <= i < blocks.len() ==> block_is_plain(
            #[trigger] blocks[i],
        )
}

fn block_lines(blocks: &BlockLog, wall: WallTime, now: u64) -> (text: String)
    requires
        wall.wf(),
        listed_are_dated(blocks@, wall, now),
    ensures
        text@ == block_lines_text(blocks@, wall, now, listed(blocks@.len())),
        listed_are_plain(blocks@) ==> line_breaks(text@) == listed(blocks@.len()),
{
    let len: usize = blocks.len();
    let count: usize = if len <= MAX_LISTED {
        len
    } else {
        MAX_LISTED
    };
    let mut text = String::new();
    let mut i: usize = 0;
    while i < count
        invariant
            i <= count <= len,
            len == blocks@.len(),
            count == listed(blocks@.len()),
            wall.wf(),
            listed_are_dated(blocks@, wall, now),
            text@ == block_lines_text(blocks@, wall, now, i as nat),
            listed_are_plain(blocks@) ==> line_breaks(text@) == i,
        decreases count - i,
    {
        let block = blocks.entry_at(len - 1 - i);
        if let Some(second) = second_of(wall, now, block.tm) {
            let date = rfc3339(second);
            let line = block_line(date.as_str(), block);
            proof {
                lemma_line_breaks_concat(text@, line@);
                if listed_are_plain(blocks@) {
                    law_block_line_is_one_line(date@, blocks@[len - 1 - i]);
                }
            }
            text.append(line.as_str());
        }
        i = i + 1;
    }
    text
}

/// The diagnostics.
pub open spec fn diag_text(
    config: ConfigView,
    names: Seq<Seq<char>>,
    cache: CacheView,
    seen: nat,
    blocks: Seq<BlockView>,
    wall: WallTime,
    now: u64,
) -> Seq<char> {
    let head = "enabled: "@ + bool_text(enabled(config)) + "\n"@;
    if !enabled(config) {
        head
    } else {
        head + settings_text(config) + "token cache: "@ + decimal_text(cache.len()) + " entries\n"@
            + token_lines_text(names, cache, now, listed(cache.len())) + "seen throttle: "@
            + decimal_text(seen) + " ids\nrecent blocks: "@ + decimal_text(blocks.len()) + "\n"@
            + block_lines_text(blocks, wall, now, listed(blocks.len()))
    }
}

/// Writes the diagnostics: the settings, the kept verdicts, the number of throttled
/// peers and the refused connections. `now` and `wall` are read at the same moment.
///
/// Each listed entry takes one line, unless what is shown of it breaks a line itself. The
/// tables are only read: none of them changes, and nothing is sent.
pub fn diag(
    config: &Config,
    cache: &TokenCache,
    seen: &SeenLog,
    blocks: &BlockLog,
    wall: WallTime,
    now: u64,
) -> (text: String)
    requires
        cache.wf(),
        seen.wf(),
        wall.wf(),
        enabled(config@) ==> listed_are_dated(blocks@, wall, now),
    ensures
        text@ == diag_text(config@, cache.names(), cache@, seen@.len(), blocks@, wall, now),
        enabled(config@) && no_line_break(config@.url) && tokens_are_plain(cache.names())
            && listed_are_plain(blocks@) ==> line_breaks(text@) == 7 + listed(cache@.len())
            + listed(blocks@.len()),
{
    broadcast use lemma_line_breaks_concat;

    let mut text = "enabled: ".to_owned();
    text.append(bool_name(is_enabled(config)));
    text.append("\n");
    if !is_enabled(config) {
        return text;
    }
    proof {
        lemma_heading_lines(enabled(config@), cache@.len(), seen@.len(), blocks@.len());
        if no_line_break(config@.url) {
            lemma_settings_lines(config@);
        }
    }
    text.append(settings(config).as_str());
    text.append("token cache: ");
    text.append(decimal(cache.len() as u64).as_str());
    text.append(" entries\n");
    text.append(token_lines(cache, now).as_str());
    text.append("seen throttle: ");
    text.append(decimal(seen.len() as u64).as_str());
    text.append(" ids\nrecent blocks: ");
    text.append(decimal(blocks.len() as u64).as_str());
    text.append("\n");
    text.append(block_lines(blocks, wall, now).as_str());
    text
}

proof fn lemma_heading_lines(on: bool, tokens: nat, seen: nat, blocks: nat)
    ensures
        line_breaks("enabled: "@ + bool_text(on) + "\n"@) == 1,
        line_breaks("token cache: "@) == 0,
        line_breaks(decimal_text(tokens)) == 0,
        line_breaks(" entries\n"@) == 1,
        line_breaks("seen throttle: "@) == 0,
        line_breaks(decimal_text(seen)) == 0,
        line_breaks(" ids\nrecent blocks: "@) == 1,
        line_breaks(decimal_text(blocks)) == 0,
        line_breaks("\n"@) == 1,
{
    broadcast use lemma_line_breaks_concat;

    reveal_strlit("enabled: ");
    reveal_strlit("token cache: ");
    reveal_strlit(" entries\n");
    reveal_strlit("seen throttle: ");
    reveal_strlit(" ids\nrecent blocks: ");
    reveal_strlit("\n");
    lemma_no_line_break("enabled: "@);
    lemma_bool_text(on);
    lemma_no_line_break("token cache: "@);
    lemma_decimal_has_no_line_break(tokens);
    lemma_one_line_break(" entries\n"@, 8);
    lemma_no_line_break("seen throttle: "@);
    lemma_decimal_has_no_line_break(seen);
    lemma_one_line_break(" ids\nrecent blocks: "@, 4);
    lemma_decimal_has_no_line_break(blocks);
    lemma_one_line_break("\n"@, 0);
}

/// While authorization is off, the diagnostics say so and nothing else.
pub proof fn law_off_shows_nothing_else(
    config: ConfigView,
    names: Seq<Seq<char>>,
    cache: CacheView,
    seen: nat,
    blocks: Seq<BlockView>,
    wall: WallTime,
    now: u64,
)
    requires
        !enabled(config),
    ensures
        diag_text(config, names, cache, seen, blocks, wall, now) == "enabled: false\n"@,
{
    reveal_strlit("enabled: false\n");
    reveal_strlit("enabled: ");
    reveal_strlit("false");
    reveal_strlit("\n");
}

/// A wall clock that reads a dated second dates every refused connection that is listed,
/// unless it is so near the first dated second that an age could reach behind it.
pub proof fn law_ordinary_clocks_date_every_block(
    blocks: Seq<BlockView>,
    wall: WallTime,
    now: u64,
)
    requires
        wall.wf(),
        FIRST_DATED_SECOND + 20_000_000_000 <= wall.secs <= LAST_DATED_SECOND,
    ensures
        listed_are_dated(blocks, wall, now),
{
}

/// At most twenty entries are listed, and all of them where there are no more.
pub proof fn law_twenty_are_listed(len: nat)
    ensures
        len <= 20 ==> listed(len) == len,
        len > 20 ==> listed(len) == 20,
{
}

/// Each kept verdict adds a line to those before it: the first eight characters of the token,
/// or all of a shorter one, whether it is authorized, the user quoted where there is one, and
/// the whole seconds since the verdict.
pub proof fn law_token_lines_add_up(
    names: Seq<Seq<char>>,
    cache: CacheView,
    now: u64,
    count: nat,
    shown: Seq<char>,
)
    requires
        count < names.len(),
        shown == (if names[count as int].len() <= 8 {
            names[count as int]
        } else {
            names[count as int].take(8)
        }),
    ensures
        token_lines_text(names, cache, now, 0) == Seq::<char>::empty(),
        token_lines_text(names, cache, now, count + 1) == token_lines_text(names, cache, now, count)
            + ("  "@ + shown + "... authorized="@ + (
        if cache[names[count as int]].value.authorized {
            "true"@
        } else {
            "false"@
        }) + " user="@ + (match cache[names[count as int]].value.user {
            Some(name) => "Some("@ + debug_text(name) + ")"@,
            None => "None"@,
        }) + " age="@ + decimal_text(secs_since(now, cache[names[count as int]].tm)) + "s\n"@),
{
}

/// Each refused connection adds a line to those after it: when it was refused, from where,
/// on what target and why, each whole.
pub proof fn law_block_lines_add_up(
    blocks: Seq<BlockView>,
    wall: WallTime,
    now: u64,
    count: nat,
    second: int,
)
    requires
        count < blocks.len(),
        second * 1_000_000_000 <= wall.secs * 1_000_000_000 + wall.nanos - nanos_since(
            now,
            blocks[blocks.len() - 1 - count].tm,
        ) < (second + 1) * 1_000_000_000,
    ensures
        block_lines_text(blocks, wall, now, 0) == Seq::<char>::empty(),
        ({
            let block = blocks[blocks.len() - 1 - count];
            block_lines_text(blocks, wall, now, count + 1) == block_lines_text(
                blocks,
                wall,
                now,
                count,
            ) + ("  "@ + rfc3339_text(second) + " "@ + block.from_ip + " -> "@ + block.target_id
                + ": "@ + block.reason + "\n"@)
        }),
{
    crate::clock::law_events_happened_their_age_ago(
        wall,
        nanos_since(now, blocks[blocks.len() - 1 - count].tm),
    );
}

/// While there is an address, the diagnostics show that authorization is on, the settings,
/// how many verdicts are kept and the first of them, how many peers are throttled, how many
/// refused connections are kept and the last of them.
pub proof fn law_on_shows_everything(
    config: ConfigView,
    names: Seq<Seq<char>>,
    cache: CacheView,
    seen: nat,
    blocks: Seq<BlockView>,
    wall: WallTime,
    now: u64,
)
    requires
        config.url.len() > 0,
    ensures
        diag_text(config, names, cache, seen, blocks, wall, now) == ("enabled: "@ + "true"@ + "\n"@)
            + ("url: "@ + config.url + "\nfail_open: "@ + (if config.fail_open {
            "true"@
        } else {
            "false"@
        }) + "\ntimeout_ms: "@ + decimal_text(config.timeout_ms as nat) + " cache_secs: "@
            + decimal_text(config.cache_secs as nat) + " seen_secs: "@ + decimal_text(
            config.seen_secs as nat,
        ) + "\n"@) + "token cache: "@ + decimal_text(cache.len()) + " entries\n"@
            + token_lines_text(
            names,
            cache,
            now,
            if cache.len() <= 20 {
                cache.len()
            } else {
                20
            },
        ) + "seen throttle: "@ + decimal_text(seen) + " ids\nrecent blocks: "@ + decimal_text(
            blocks.len(),
        ) + "\n"@ + block_lines_text(
            blocks,
            wall,
            now,
            if blocks.len() <= 20 {
                blocks.len()
            } else {
                20
            },
        ),
{
}

/// While there is no address, the diagnostics are one line that says so.
pub proof fn law_no_address_shows_off(
    config: ConfigView,
    names: Seq<Seq<char>>,
    cache: CacheView,
    seen: nat,
    blocks: Seq<BlockView>,
    wall: WallTime,
    now: u64,
)
    requires
        config.url.len() == 0,
    ensures
        diag_text(config, names, cache, seen, blocks, wall, now) == "enabled: false\n"@,
{
    law_off_shows_nothing_else(config, names, cache, seen, blocks, wall, now);
}

/// The line of a kept verdict and that of a refused connection hold all that they are
/// written from, but for what a token has behind its first eight characters.
pub proof fn law_lines(
    token: Seq<char>,
    shown: Seq<char>,
    authorized: bool,
    user: Seq<char>,
    age: nat,
    date: Seq<char>,
    block: BlockView,
)
    requires
        shown == (if token.len() <= 8 {
            token
        } else {
            token.take(8)
        }),
    ensures
        token_line_text(token, authorized, user, age) == "  "@ + shown + "... authorized="@ + (
        if authorized {
            "true"@
        } else {
            "false"@
        }) + " user="@ + user + " age="@ + decimal_text(age) + "s\n"@,
        block_line_text(date, block) == "  "@ + date + " "@ + block.from_ip + " -> "@
            + block.target_id + ": "@ + block.reason + "\n"@,
{
}

/// A listed entry is plain exactly where no character that is shown of it is a line break.
pub proof fn law_plain_entries(names: Seq<Seq<char>>, blocks: Seq<BlockView>, block: BlockView)
    ensures
        tokens_are_plain(names) <==> forall|i: int, j: int|
            0 <= i < names.len() && i < 20 && 0 <= j < names[i].len() && j < 8
                ==> (#[trigger] names[i][j]) as int != 10,
        listed_are_plain(blocks) <==> forall|i: int|
            0 <= i < blocks.len() && blocks.len() - 20 <= i ==> block_is_plain(
                #[trigger] blocks[i],
            ),
        block_is_plain(block) <==> {
            &&& forall|i: int| 0 <= i < block.from_ip.len() ==> #[trigger] block.from_ip[i] != '\n'
            &&& forall|i: int|
                0 <= i < block.target_id.len() ==> #[trigger] block.target_id[i] != '\n'
            &&& forall|i: int| 0 <= i < block.reason.len() ==> #[trigger] block.reason[i] != '\n'
        },
{
    if tokens_are_plain(names) {
        assert forall|i: int, j: int|
            0 <= i < names.len() && i < 20 && 0 <= j < names[i].len() && j < 8 implies (
        #[trigger] names[i][j]) as int != 10 by {
            assert(no_line_break(first_chars(names[i], 8)));
            assert(first_chars(names[i], 8)[j] == names[i][j]);
        }
    }
    if forall|i: int, j: int|
        0 <= i < names.len() && i < 20 && 0 <= j < names[i].len() && j < 8
            ==> (#[trigger] names[i][j]) as int != 10 {
        assert forall|i: int| 0 <= i < listed(names.len()) implies no_line_break(
            first_chars(#[trigger] names[i], SHOWN_TOKEN_CHARS as int),
        ) by {
            assert forall|j: int|
                0 <= j < first_chars(names[i], 8).len() implies #[trigger] first_chars(
                names[i],
                8,
            )[j] != '\n' by {
                assert(first_chars(names[i], 8)[j] == names[i][j]);
            }
        }
    }
}

/// The refused connections that are listed are dated exactly where each of the last twenty
/// happened in a second that has a date text.
pub proof fn law_dated_blocks(blocks: Seq<BlockView>, wall: WallTime, now: u64)
    ensures
        listed_are_dated(blocks, wall, now) <==> forall|i: int|
            0 <= i < blocks.len() && blocks.len() - 20 <= i ==> -8_334_601_228_800 <= event_second(
                wall,
                nanos_since(now, (#[trigger] blocks[i]).tm),
            ) <= 8_210_266_876_799,
{
}

} // verus!
