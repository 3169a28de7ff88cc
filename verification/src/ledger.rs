//! A table of stamped entries by name, swept of what has expired when it is full.

use crate::clock::{age_secs, nanos_since, secs_since, NANOS_PER_SEC};
use vstd::hash_map::StringHashMap;
use vstd::prelude::*;

verus! {

/// The number of entries from which on a new name makes a ledger sweep first.
pub const MAX_CACHE_ENTRIES: usize = 10_000;

/// A value with the monotonic clock reading, in nanoseconds, at which it was put
/// down.
pub struct Stamped<V> {
    pub value: V,
    pub tm: u64,
}

/// Entries by name.
#[verifier::reject_recursive_types(V)]
pub struct Ledger<V: View> {
    names: Vec<String>,
    entries: StringHashMap<Stamped<V>>,
}

/// Whether an entry is younger than `ttl` whole seconds.
pub open spec fn is_fresh<T>(entry: Stamped<T>, now: u64, ttl: u64) -> bool {
    secs_since(now, entry.tm) < ttl
}

/// The fresh entries of `m`.
pub open spec fn fresh_entries<T>(m: Map<Seq<char>, Stamped<T>>, now: u64, ttl: u64) -> Map<
    Seq<char>,
    Stamped<T>,
> {
    Map::new(|k: Seq<char>| m.contains_key(k) && is_fresh(m[k], now, ttl), |k: Seq<char>| m[k])
}

/// Whether putting down `name` sweeps first: the ledger is full and the name new.
pub open spec fn sweeps<T>(m: Map<Seq<char>, Stamped<T>>, name: Seq<char>) -> bool {
    m.len() >= MAX_CACHE_ENTRIES && !m.contains_key(name)
}

/// The entries after `value` is put down under `name`.
pub open spec fn entries_after_put<T>(
    m: Map<Seq<char>, Stamped<T>>,
    name: Seq<char>,
    value: T,
    now: u64,
    ttl: u64,
) -> Map<Seq<char>, Stamped<T>> {
    let kept = if sweeps(m, name) {
        fresh_entries(m, now, ttl)
    } else {
        m
    };
    kept.insert(name, Stamped { value, tm: now })
}

/// The order of the names after `name` is put down: the names that are kept stay
/// in order, and a new one comes last.
pub open spec fn names_after_put<T>(
    names: Seq<Seq<char>>,
    m: Map<Seq<char>, Stamped<T>>,
    name: Seq<char>,
    now: u64,
    ttl: u64,
) -> Seq<Seq<char>> {
    if sweeps(m, name) {
        names.filter(|k: Seq<char>| is_fresh(m[k], now, ttl)).push(name)
    } else if m.contains_key(name) {
        names
    } else {
        names.push(name)
    }
}

impl<V: View> View for Ledger<V> {
    type V = Map<Seq<char>, Stamped<V::V>>;

    closed spec fn view(&self) -> Map<Seq<char>, Stamped<V::V>> {
        self.entries@.map_values(
            |entry: Stamped<V>| Stamped { value: entry.value@, tm: entry.tm },
        )
    }
}

impl<V: View> Ledger<V> {
    /// The names, from the one that came first to the one that came last.
    pub closed spec fn names(&self) -> Seq<Seq<char>> {
        self.names@.map_values(|name: String| name@)
    }

    /// Every entry's name is listed, once.
    pub closed spec fn wf(&self) -> bool {
        &&& self.names().no_duplicates()
        &&& forall|k: Seq<char>| #[trigger]
            self.entries@.contains_key(k) <==> self.names().contains(k)
    }

    /// The listed names are the names of the entries, each listed once.
    pub proof fn lemma_names(&self)
        requires
            self.wf(),
        ensures
            self.names().no_duplicates(),
            forall|k: Seq<char>| #[trigger] self@.contains_key(k) <==> self.names().contains(k),
            self@.dom().finite(),
            self@.len() == self.names().len(),
    {
        assert(self@.dom() =~= self.names().to_set());
        self.names().unique_seq_to_set();
    }

    /// An empty ledger.
    pub fn new() -> (ledger: Self)
        ensures
            ledger.wf(),
            ledger@ == Map::<Seq<char>, Stamped<V::V>>::empty(),
            ledger.names() == Seq::<Seq<char>>::empty(),
    {
        let ledger = Ledger { names: Vec::new(), entries: StringHashMap::new() };
        ledger
    }

    /// The number of entries.
    pub fn len(&self) -> (len: usize)
        requires
            self.wf(),
        ensures
            len == self@.len(),
            len == self.names().len(),
    {
        proof {
            self.lemma_names();
        }
        self.names.len()
    }

    /// The name at a place in the order.
    pub fn name_at(&self, i: usize) -> (name: &str)
        requires
            i < self.names().len(),
        ensures
            name@ == self.names()[i as int],
    {
        self.names[i].as_str()
    }

    /// Looks up the entry of a name.
    pub fn get(&self, name: &str) -> (entry: Option<&Stamped<V>>)
        ensures
            match entry {
                Some(e) => self@.contains_key(name@) && self@[name@].value == e.value@
                    && self@[name@].tm == e.tm,
                None => !self@.contains_key(name@),
            },
    {
        self.entries.get(name)
    }

    /// Drops every entry that is not fresh.
    fn sweep(&mut self, now: u64, ttl: u64)
        requires
            old(self).wf(),
        ensures
            final(self).wf(),
            final(self)@ == fresh_entries(old(self)@, now, ttl),
            final(self).names() == old(self).names().filter(
                |k: Seq<char>| is_fresh(old(self)@[k], now, ttl),
            ),
    {
        let ghost m = self@;
        let ghost all = self.names();
        let ghost before = self.entries@;
        let ghost fresh = |k: Seq<char>| is_fresh(m[k], now, ttl);
        let mut kept: Vec<String> = Vec::new();
        let mut i: usize = 0;
        while i < self.names.len()
            invariant
                i <= self.names.len(),
                all == self.names(),
                all == old(self).names(),
                old(self).wf(),
                m == old(self)@,
                before == old(self).entries@,
                fresh == |k: Seq<char>| is_fresh(m[k], now, ttl),
                kept@.map_values(|name: String| name@) == all.take(i as int).filter(fresh),
                forall|k: Seq<char>| #[trigger]
                    self.entries@.contains_key(k) <==> before.contains_key(k) && (
                    !all.take(i as int).contains(k) || fresh(k)),
                forall|k: Seq<char>| #[trigger]
                    self.entries@.contains_key(k) ==> self.entries@[k] == before[k],
            decreases self.names.len() - i,
        {
            let ghost seen = all.take(i as int);
            let ghost more = all.take(i + 1);
            let name = self.names[i].clone();
            proof {
                assert(more.drop_last() =~= seen);
                assert(more.last() == name@);
                assert(!seen.contains(name@));
                reveal_with_fuel(Seq::filter, 2);
                assert forall|k: Seq<char>| #[trigger] more.contains(k) <==> seen.contains(k) || k
                    == name@ by {
                    lemma_contains_last(more, k);
                }
            }
            let tm: u64 = match self.entries.get(name.as_str()) {
                Some(entry) => entry.tm,
                None => now,
            };
            if age_secs(now, tm) < ttl {
                let ghost held = kept@;
                kept.push(name);
                assert(kept@.map_values(|name: String| name@) =~= held.map_values(
                    |name: String| name@,
                ).push(name@));
            } else {
                self.entries.remove(name.as_str());
            }
            i = i + 1;
        }
        assert(all.take(i as int) =~= all);
        self.names = kept;
        proof {
            lemma_filter_unique(all, fresh);
            assert forall|k: Seq<char>| #[trigger]
                self.entries@.contains_key(k) <==> self.names().contains(k) by {
                lemma_filter_members(all, fresh, k);
            }
        }
    }

    /// Puts `value` down under `name`, stamped with `now`. When the ledger is
    /// full and the name new, what is not younger than `ttl` seconds is dropped
    /// first.
    pub fn put(&mut self, name: &str, value: V, now: u64, ttl: u64)
        requires
            old(self).wf(),
        ensures
            final(self).wf(),
            final(self)@ == entries_after_put(old(self)@, name@, value@, now, ttl),
            final(self).names() == names_after_put(
                old(self).names(),
                old(self)@,
                name@,
                now,
                ttl,
            ),
    {
        let known = self.entries.contains_key(name);
        if self.len() >= MAX_CACHE_ENTRIES && !known {
            self.sweep(now, ttl);
        }
        let ghost base = self.names();
        let ghost held = self@;
        if !known {
            assert(!held.contains_key(name@));
            self.names.push(name.to_owned());
            assert(self.names() =~= base.push(name@));
        }
        self.entries.insert(name.to_owned(), Stamped { value, tm: now });
        proof {
            assert forall|k: Seq<char>| #[trigger]
                self.entries@.contains_key(k) <==> self.names().contains(k) by {
                if !known {
                    lemma_contains_last(self.names(), k);
                    assert(self.names().drop_last() =~= base);
                }
            }
        }
    }
}

proof fn lemma_contains_last<A>(s: Seq<A>, a: A)
    requires
        s.len() > 0,
    ensures
        s.contains(a) <==> s.drop_last().contains(a) || s.last() == a,
{
    let rest = s.drop_last();
    if s.contains(a) {
        let j = choose|j: int| 0 <= j < s.len() && s[j] == a;
        assert(j < rest.len() ==> rest[j] == a);
    }
    if rest.contains(a) {
        let j = choose|j: int| 0 <= j < rest.len() && rest[j] == a;
        assert(s[j] == a);
    }
}

proof fn lemma_filter_members<A>(s: Seq<A>, pred: spec_fn(A) -> bool, a: A)
    ensures
        s.filter(pred).contains(a) <==> s.contains(a) && pred(a),
    decreases s.len(),
{
    reveal_with_fuel(Seq::filter, 2);
    if s.len() > 0 {
        let rest = s.drop_last();
        let kept = rest.filter(pred);
        lemma_filter_members(rest, pred, a);
        lemma_contains_last(s, a);
        lemma_contains_last(kept.push(s.last()), a);
        assert(kept.push(s.last()).drop_last() =~= kept);
    }
}

proof fn lemma_filter_unique<A>(s: Seq<A>, pred: spec_fn(A) -> bool)
    requires
        s.no_duplicates(),
    ensures
        s.filter(pred).no_duplicates(),
    decreases s.len(),
{
    reveal_with_fuel(Seq::filter, 2);
    if s.len() > 0 {
        lemma_filter_unique(s.drop_last(), pred);
        lemma_filter_members(s.drop_last(), pred, s.last());
    }
}

/// The entry of `name`, where there is a fresh one.
pub open spec fn fresh_entry<T>(
    m: Map<Seq<char>, Stamped<T>>,
    name: Seq<char>,
    now: u64,
    ttl: u64,
) -> Option<Stamped<T>> {
    if m.contains_key(name) && is_fresh(m[name], now, ttl) {
        Some(m[name])
    } else {
        None
    }
}

/// Putting an entry down is seen, from then on, under its own name alone: every
/// other name has the fresh entry that it had, sweep or no sweep.
pub proof fn law_put_keeps_other_fresh_entries<T>(
    m: Map<Seq<char>, Stamped<T>>,
    name: Seq<char>,
    value: T,
    now: u64,
    ttl: u64,
    other: Seq<char>,
    later: u64,
)
    requires
        other != name,
        now <= later,
    ensures
        fresh_entry(entries_after_put(m, name, value, now, ttl), other, later, ttl) == fresh_entry(
            m,
            other,
            later,
            ttl,
        ),
{
    if m.contains_key(other) {
        let tm = m[other].tm;
        vstd::arithmetic::div_mod::lemma_div_is_ordered(
            nanos_since(now, tm) as int,
            nanos_since(later, tm) as int,
            NANOS_PER_SEC as int,
        );
    }
}

/// An entry that was put down is fresh for exactly `ttl` seconds, and to a reading from
/// before it was put down as if it were new.
pub proof fn law_put_is_fresh_for_its_time<T>(
    m: Map<Seq<char>, Stamped<T>>,
    name: Seq<char>,
    value: T,
    now: u64,
    ttl: u64,
    later: u64,
)
    ensures
        fresh_entry(entries_after_put(m, name, value, now, ttl), name, later, ttl) == (
        if nanos_since(later, now) < ttl * NANOS_PER_SEC {
            Some(Stamped { value, tm: now })
        } else {
            None
        }),
{
    let n = NANOS_PER_SEC as int;
    let d = nanos_since(later, now) as int;
    vstd::arithmetic::div_mod::lemma_fundamental_div_mod(d, n);
    assert(d / n < ttl <==> d < ttl * n) by (nonlinear_arith)
        requires
            n == 1_000_000_000,
            d == n * (d / n) + d % n,
            0 <= d % n < n,
    ;
}

/// A ledger outgrows its limit only by entries that are all fresh: where it held
/// no more than the limit, or an entry past its time, it ends within the limit,
/// or holds nothing that has expired, or has not grown.
pub proof fn law_put_outgrows_only_by_fresh_entries<T>(
    m: Map<Seq<char>, Stamped<T>>,
    name: Seq<char>,
    value: T,
    now: u64,
    ttl: u64,
)
    requires
        m.dom().finite(),
    ensures
        ({
            let after = entries_after_put(m, name, value, now, ttl);
            ||| after.len() <= MAX_CACHE_ENTRIES
            ||| after.len() <= m.len()
            ||| forall|k: Seq<char>| #[trigger] m.contains_key(k) ==> is_fresh(m[k], now, ttl)
        }),
{
    let kept = fresh_entries(m, now, ttl);
    if sweeps(m, name) {
        vstd::set_lib::lemma_len_subset(kept.dom(), m.dom());
        if exists|k: Seq<char>| #[trigger] m.contains_key(k) && !is_fresh(m[k], now, ttl) {
            let k = choose|k: Seq<char>| #[trigger]
                m.contains_key(k) && !is_fresh(m[k], now, ttl);
            vstd::set_lib::lemma_len_subset(kept.dom(), m.dom().remove(k));
        }
    }
}

/// An entry is fresh exactly while less time has passed since it was put down than the
/// given number of seconds; where the clock went back no time has passed.
pub proof fn law_entries_are_fresh_for_their_time<T>(entry: Stamped<T>, now: u64, ttl: u64)
    ensures
        is_fresh(entry, now, ttl) <==> if now >= entry.tm {
            now - entry.tm < ttl * 1_000_000_000
        } else {
            ttl > 0
        },
{
    let d = nanos_since(now, entry.tm) as int;
    vstd::arithmetic::div_mod::lemma_fundamental_div_mod(d, 1_000_000_000);
}

/// The fresh entry of a name is the entry that is kept under the name, unchanged, and is
/// there exactly where one is kept and its time has not passed.
pub proof fn law_fresh_entry_is_the_kept_one<T>(
    m: Map<Seq<char>, Stamped<T>>,
    name: Seq<char>,
    now: u64,
    ttl: u64,
)
    ensures
        fresh_entry(m, name, now, ttl) is Some <==> m.contains_key(name) && if now >= m[name].tm {
            now - m[name].tm < ttl * 1_000_000_000
        } else {
            ttl > 0
        },
        fresh_entry(m, name, now, ttl) is Some ==> fresh_entry(m, name, now, ttl) == Some(m[name]),
{
    law_entries_are_fresh_for_their_time(m[name], now, ttl);
}

/// What is put down is kept under its name with the moment at which it was put down. Nothing
/// new appears under another name, and what is kept there is unchanged or has left; it leaves
/// exactly where ten thousand entries or more are kept, the name is a new one and the time of
/// what leaves has passed.
pub proof fn law_put_changes_one_entry<T>(
    m: Map<Seq<char>, Stamped<T>>,
    name: Seq<char>,
    value: T,
    now: u64,
    ttl: u64,
    other: Seq<char>,
)
    ensures
        ({
            let after = entries_after_put(m, name, value, now, ttl);
            &&& after.contains_key(name)
            &&& after[name].value == value
            &&& after[name].tm == now
            &&& other != name ==> (after.contains_key(other) <==> m.contains_key(other) && !(
            m.len() >= 10_000 && !m.contains_key(name) && if now >= m[other].tm {
                now - m[other].tm >= ttl * 1_000_000_000
            } else {
                ttl == 0
            }))
            &&& other != name && after.contains_key(other) ==> after[other] == m[other]
        }),
{
    law_entries_are_fresh_for_their_time(m[other], now, ttl);
}

/// The order of the names changes only by the new name, which comes last, and by the names
/// whose entries leave.
pub proof fn law_put_keeps_the_order<T>(
    names: Seq<Seq<char>>,
    m: Map<Seq<char>, Stamped<T>>,
    name: Seq<char>,
    now: u64,
    ttl: u64,
)
    ensures
        m.contains_key(name) ==> names_after_put(names, m, name, now, ttl) == names,
        !m.contains_key(name) && m.len() < 10_000 ==> names_after_put(names, m, name, now, ttl)
            == names.push(name),
        !m.contains_key(name) && m.len() >= 10_000 ==> names_after_put(names, m, name, now, ttl)
            == names.filter(
            |k: Seq<char>|
                if now >= m[k].tm {
                    now - m[k].tm < ttl * 1_000_000_000
                } else {
                    ttl > 0
                },
        ).push(name),
{
    let young = |k: Seq<char>|
        if now >= m[k].tm {
            now - m[k].tm < ttl * 1_000_000_000
        } else {
            ttl > 0
        };
    let fresh = |k: Seq<char>| is_fresh(m[k], now, ttl);
    assert forall|k: Seq<char>| #[trigger] fresh(k) == young(k) by {
        law_entries_are_fresh_for_their_time(m[k], now, ttl);
    }
    assert(fresh =~= young);
}

} // verus!
