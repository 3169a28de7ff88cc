//! The last refused connections, for the console.

use vstd::prelude::*;

verus! {

/// The number of refused connections that are kept.
pub const MAX_BLOCK_ENTRIES: usize = 100;

/// A refused connection.
pub struct BlockEntry {
    /// The monotonic clock reading, in nanoseconds, at which it was refused.
    pub tm: u64,
    pub from_ip: String,
    pub target_id: String,
    pub reason: String,
}

/// A refused connection, with texts as their characters.
pub struct BlockView {
    pub tm: u64,
    pub from_ip: Seq<char>,
    pub target_id: Seq<char>,
    pub reason: Seq<char>,
}

impl View for BlockEntry {
    type V = BlockView;

    open spec fn view(&self) -> BlockView {
        BlockView {
            tm: self.tm,
            from_ip: self.from_ip@,
            target_id: self.target_id@,
            reason: self.reason@,
        }
    }
}

/// The last refused connections, the oldest first.
pub struct BlockLog {
    entries: Vec<BlockEntry>,
}

impl View for BlockLog {
    type V = Seq<BlockView>;

    closed spec fn view(&self) -> Seq<BlockView> {
        self.entries@.map_values(|entry: BlockEntry| entry@)
    }
}

/// The last entries of `all`, as many as are kept.
pub open spec fn last_blocks(all: Seq<BlockView>) -> Seq<BlockView> {
    if all.len() <= MAX_BLOCK_ENTRIES {
        all
    } else {
        all.skip(all.len() - MAX_BLOCK_ENTRIES)
    }
}

impl BlockLog {
    /// No more is kept than the limit.
    pub open spec fn wf(&self) -> bool {
        self@.len() <= MAX_BLOCK_ENTRIES
    }

    /// An empty log.
    pub fn new() -> (log: BlockLog)
        ensures
            log.wf(),
            log@ == Seq::<BlockView>::empty(),
    {
        let log = BlockLog { entries: Vec::new() };
        log
    }

    /// The number of entries.
    pub fn len(&self) -> (len: usize)
        ensures
            len == self@.len(),
    {
        self.entries.len()
    }

    /// The entry at a place in the order.
    pub fn entry_at(&self, i: usize) -> (entry: &BlockEntry)
        requires
            i < self@.len(),
        ensures
            entry@ == self@[i as int],
    {
        &self.entries[i]
    }

    fn push(&mut self, entry: BlockEntry)
        requires
            old(self).wf(),
        ensures
            final(self).wf(),
            final(self)@ == last_blocks(old(self)@.push(entry@)),
    {
        if self.entries.len() >= MAX_BLOCK_ENTRIES {
            let _ = self.entries.remove(0);
        }
        self.entries.push(entry);
    }
}

/// What the log holds after a refused connection is recorded.
pub open spec fn log_after(
    log: Seq<BlockView>,
    from_ip: Seq<char>,
    target_id: Seq<char>,
    reason: Seq<char>,
    now: u64,
) -> Seq<BlockView> {
    last_blocks(log.push(BlockView { tm: now, from_ip, target_id, reason }))
}

/// Records a refused connection; the oldest one makes room where the log is full.
pub fn record_block(log: &mut BlockLog, from_ip: &str, target_id: &str, reason: &str, now: u64)
    requires
        old(log).wf(),
    ensures
        final(log).wf(),
        final(log)@ == last_blocks(
            old(log)@.push(
                BlockView { tm: now, from_ip: from_ip@, target_id: target_id@, reason: reason@ },
            ),
        ),
        final(log)@ == log_after(old(log)@, from_ip@, target_id@, reason@, now),
{
    log.push(
        BlockEntry {
            tm: now,
            from_ip: from_ip.to_owned(),
            target_id: target_id.to_owned(),
            reason: reason.to_owned(),
        },
    );
}

/// What the log holds after a history of refused connections.
pub open spec fn log_of(history: Seq<BlockView>) -> Seq<BlockView>
    decreases history.len(),
{
    if history.len() == 0 {
        Seq::empty()
    } else {
        last_blocks(log_of(history.drop_last()).push(history.last()))
    }
}

/// The log holds the last refused connections of all that were recorded, in order,
/// up to its limit.
pub proof fn law_log_holds_the_last_blocks(history: Seq<BlockView>)
    ensures
        log_of(history) == last_blocks(history),
    decreases history.len(),
{
    if history.len() > 0 {
        law_log_holds_the_last_blocks(history.drop_last());
    }
}

/// Whether the clock readings of a sequence of refused connections never go back.
pub open spec fn in_order(blocks: Seq<BlockView>) -> bool {
    forall|i: int, j: int|
        0 <= i <= j < blocks.len() ==> (#[trigger] blocks[i]).tm <= (#[trigger] blocks[j]).tm
}

/// The log is sorted by time, the oldest first, where the connections are recorded in the
/// order of their clock readings.
pub proof fn law_log_is_in_order(history: Seq<BlockView>)
    requires
        in_order(history),
    ensures
        in_order(log_of(history)),
{
    law_log_holds_the_last_blocks(history);
}

/// What leaves a full log is no younger than anything that stays, where the connections
/// are recorded in the order of their clock readings.
pub proof fn law_the_oldest_block_leaves(history: Seq<BlockView>, block: BlockView)
    requires
        in_order(history.push(block)),
        log_of(history).len() == MAX_BLOCK_ENTRIES,
    ensures
        log_of(history.push(block)) == log_of(history).skip(1).push(block),
        forall|i: int|
            0 <= i < log_of(history.push(block)).len() ==> log_of(history)[0].tm <= (
            #[trigger] log_of(history.push(block))[i]).tm,
{
    let all = history.push(block);
    law_log_holds_the_last_blocks(history);
    law_log_holds_the_last_blocks(all);
    assert(log_of(all) =~= log_of(history).skip(1).push(block));
    let first = history.len() - MAX_BLOCK_ENTRIES;
    assert forall|i: int| 0 <= i < log_of(all).len() implies log_of(history)[0].tm <= (
    #[trigger] log_of(all)[i]).tm by {
        assert(all[first].tm <= all[first + 1 + i].tm);
    }
}

/// A refused connection as characters is the connection, whole.
pub proof fn law_blocks_are_whole(entry: BlockEntry)
    ensures
        entry@.tm == entry.tm,
        entry@.from_ip == entry.from_ip@,
        entry@.target_id == entry.target_id@,
        entry@.reason == entry.reason@,
{
}

/// A refused connection is recorded as it came, behind the others, which stay as they are;
/// only where a hundred are kept the first of them leaves.
pub proof fn law_block_is_recorded_as_it_came(
    log: Seq<BlockView>,
    from_ip: Seq<char>,
    target_id: Seq<char>,
    reason: Seq<char>,
    now: u64,
)
    requires
        log.len() <= 100,
    ensures
        ({
            let after = log_after(log, from_ip, target_id, reason, now);
            &&& log.len() < 100 ==> after.len() == log.len() + 1 && forall|i: int|
                0 <= i < log.len() ==> #[trigger] after[i] == log[i]
            &&& log.len() == 100 ==> after.len() == 100 && forall|i: int|
                0 <= i < 99 ==> #[trigger] after[i] == log[i + 1]
            &&& after[after.len() - 1].tm == now
            &&& after[after.len() - 1].from_ip == from_ip
            &&& after[after.len() - 1].target_id == target_id
            &&& after[after.len() - 1].reason == reason
        }),
{
}

/// The log keeps the last hundred refused connections, or all where there were fewer, the
/// oldest first.
pub proof fn law_log_keeps_a_hundred(history: Seq<BlockView>)
    ensures
        history.len() <= 100 ==> log_of(history) == history,
        history.len() > 100 ==> {
            &&& log_of(history).len() == 100
            &&& forall|i: int|
                0 <= i < 100 ==> #[trigger] log_of(history)[i] == history[history.len() - 100 + i]
        },
{
    law_log_holds_the_last_blocks(history);
}

} // verus!
