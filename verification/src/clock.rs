//! Clock readings: ages on the monotonic clock, moments on the wall clock.

use crate::text::no_line_break;
use vstd::prelude::*;

verus! {

/// Nanoseconds in a second.
pub const NANOS_PER_SEC: u64 = 1_000_000_000;

/// The first second, counted from the Unix epoch, that has a date text.
pub const FIRST_DATED_SECOND: i64 = -8_334_601_228_800;

/// The last second, counted from the Unix epoch, that has a date text.
pub const LAST_DATED_SECOND: i64 = 8_210_266_876_799;

/// A reading of the wall clock: the whole seconds since the Unix epoch, rounded
/// down, and the nanoseconds since then.
#[derive(Clone, Copy)]
pub struct WallTime {
    pub secs: i64,
    pub nanos: u32,
}

impl WallTime {
    /// The nanoseconds make up less than a second.
    pub open spec fn wf(self) -> bool {
        self.nanos < NANOS_PER_SEC
    }

    /// Nanoseconds since the Unix epoch.
    pub open spec fn total_nanos(self) -> int {
        self.secs * NANOS_PER_SEC + self.nanos
    }
}

/// Nanoseconds from `then` to `now`, both read from the monotonic clock in
/// nanoseconds; none where `then` is later.
pub open spec fn nanos_since(now: u64, then: u64) -> nat {
    if now >= then {
        (now - then) as nat
    } else {
        0
    }
}

/// Whole seconds from `then` to `now`.
pub open spec fn secs_since(now: u64, then: u64) -> nat {
    nanos_since(now, then) / NANOS_PER_SEC as nat
}

/// Counts the whole seconds from `then` to `now`.
pub fn age_secs(now: u64, then: u64) -> (secs: u64)
    ensures
        secs == secs_since(now, then),
{
    if now >= then {
        (now - then) / NANOS_PER_SEC
    } else {
        0
    }
}

/// The second since the Unix epoch, rounded down, at which something happened
/// that is `age` nanoseconds old when the wall clock reads `wall`.
pub open spec fn event_second(wall: WallTime, age: nat) -> int {
    (wall.total_nanos() - age) / (NANOS_PER_SEC as int)
}

/// Whether a second since the Unix epoch has a date text.
pub open spec fn is_dated(second: int) -> bool {
    FIRST_DATED_SECOND <= second <= LAST_DATED_SECOND
}

/// Finds the second at which something happened at the monotonic reading `then`,
/// when the monotonic clock reads `now` and the wall clock `wall`; `None` where it
/// has no date text.
pub fn second_of(wall: WallTime, now: u64, then: u64) -> (second: Option<i64>)
    requires
        wall.wf(),
    ensures
        match second {
            Some(s) => s == event_second(wall, nanos_since(now, then)) && is_dated(s as int),
            None => !is_dated(event_second(wall, nanos_since(now, then))),
        },
{
    let age: u64 = if now >= then {
        now - then
    } else {
        0
    };
    let age_whole: u64 = age / NANOS_PER_SEC;
    let age_rest: u64 = age % NANOS_PER_SEC;
    let borrow: i128 = if wall.nanos as u64 >= age_rest {
        0
    } else {
        1
    };
    let second: i128 = wall.secs as i128 - age_whole as i128 - borrow;
    proof {
        let n = NANOS_PER_SEC as int;
        let rest = wall.nanos - age_rest + borrow * n;
        assert(wall.total_nanos() - age == second * n + rest) by (nonlinear_arith)
            requires
                n == 1_000_000_000,
                wall.total_nanos() == wall.secs * n + wall.nanos,
                age == age_whole * n + age_rest,
                second == wall.secs - age_whole - borrow,
                rest == wall.nanos - age_rest + borrow * n,
        ;
        vstd::arithmetic::div_mod::lemma_fundamental_div_mod_converse(
            second * n + rest,
            n,
            second as int,
            rest,
        );
    }
    if FIRST_DATED_SECOND as i128 <= second && second <= LAST_DATED_SECOND as i128 {
        Some(second as i64)
    } else {
        None
    }
}

/// The RFC 3339 text, in UTC and to the second, of a second since the Unix epoch.
pub uninterp spec fn rfc3339_text(second: int) -> Seq<char>;

/// Writes the date and time of a second since the Unix epoch.
///
/// Calls `chrono::DateTime::<Utc>::from_timestamp` and `to_rfc3339_opts` with
/// whole seconds and `Z`. The contract claims that the text depends on the
/// second alone, holds no line break and ends in `Z`; how the calendar fields are
/// written is left to the name `rfc3339_text`.
#[verifier::external_body]
pub(crate) fn rfc3339(second: i64) -> (text: String)
    requires
        is_dated(second as int),
    ensures
        text@ == rfc3339_text(second as int),
        no_line_break(text@),
        text@.len() > 0,
        text@.last() == 'Z',
{
    chrono::DateTime::<chrono::Utc>::from_timestamp(second, 0)
        .expect("a dated second")
        .to_rfc3339_opts(chrono::SecondsFormat::Secs, true)
}

/// The time between two readings is their difference, and none where the clock went back;
/// its whole seconds are the most that fit in it.
pub proof fn law_ages_are_differences(now: u64, then: u64)
    ensures
        now >= then ==> nanos_since(now, then) == now - then,
        now < then ==> nanos_since(now, then) == 0,
        secs_since(now, then) * 1_000_000_000 <= nanos_since(now, then),
        nanos_since(now, then) < (secs_since(now, then) + 1) * 1_000_000_000,
{
}

/// What is `age` nanoseconds old happened in the second that held the moment so long before
/// the wall clock's reading.
pub proof fn law_events_happened_their_age_ago(wall: WallTime, age: nat)
    ensures
        wall.wf() <==> wall.nanos < 1_000_000_000,
        event_second(wall, age) * 1_000_000_000 <= wall.secs * 1_000_000_000 + wall.nanos - age,
        wall.secs * 1_000_000_000 + wall.nanos - age < (event_second(wall, age) + 1)
            * 1_000_000_000,
{
}

/// The dated seconds are those from the first of the year -262143 to the last of the year
/// 262142.
pub proof fn law_dated_seconds(second: int)
    ensures
        is_dated(second) <==> -8_334_601_228_800 <= second <= 8_210_266_876_799,
{
}

} // verus!
