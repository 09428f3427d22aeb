//! The durable shard-scoped store: a write-ahead log of encoded chain events
//! with per-worker cursors and atomic multi-worker cursor commits.
//!
//! Every record is scoped to one shard; one `ShardStore` value models one
//! shard's state.  Appends assign sequences contiguously from 1: the entry
//! appended to a log holding `n` entries is assigned sequence `n + 1`, so a
//! log reached by appends alone holds exactly the sequences `1..=n` — no
//! gaps.  Cursors never exceed the log's highest sequence and move only
//! through atomic updates, which advance every staged worker or none.
//!
//! The database that persists this state performs the same transitions; the
//! single-writer discipline of the shard leader keeps the two aligned.

use vstd::prelude::*;
use vstd::string::StringExecFns;
use crate::codec::{LogEntry, LogEntryView, encode_entry, encode_entry_spec, decode_entry,
    decode_entry_spec, seq_views};
use crate::errors::StoreError;
use crate::strmap::StrMap;

verus! {

/// One shard's write-ahead log and worker cursors.
pub struct ShardStore {
    wal: Vec<Vec<u8>>,
    cursors: StrMap<u64>,
}

/// The cursor change a committed atomic update makes: every staged worker's
/// cursor is bound to `seq`, every other binding is untouched.
pub open spec fn commit_applied(
    pre: Map<Seq<char>, u64>,
    post: Map<Seq<char>, u64>,
    staged: Set<Seq<char>>,
    seq: u64,
) -> bool {
    &&& forall|k: Seq<char>|
        #[trigger] post.contains_key(k) <==> (pre.contains_key(k) || staged.contains(k))
    &&& forall|k: Seq<char>| staged.contains(k) ==> #[trigger] post[k] == seq
    &&& forall|k: Seq<char>|
        !staged.contains(k) && pre.contains_key(k) ==> #[trigger] post[k] == pre[k]
}

impl ShardStore {
    /// The encoded entries of the write-ahead log; the entry at index `i`
    /// holds sequence `i + 1`.
    pub closed spec fn wal_entries(&self) -> Seq<Seq<u8>> {
        seq_views(self.wal@)
    }

    /// The worker cursors: worker name to the highest consumed sequence.
    pub closed spec fn cursor_map(&self) -> Map<Seq<char>, u64> {
        self.cursors.view()
    }

    /// Does the log hold an entry with sequence `q`?
    pub open spec fn has_entry(&self, q: u64) -> bool {
        1 <= q && q <= self.wal_entries().len()
    }

    /// The store invariant: cursors are well formed and never exceed the
    /// log's highest sequence.
    pub closed spec fn wf(&self) -> bool {
        &&& self.cursors.wf()
        &&& self.wal_entries().len() <= u64::MAX
        &&& forall|k: Seq<char>|
            self.cursor_map().contains_key(k) ==> #[trigger] self.cursor_map()[k]
                <= self.wal_entries().len()
    }

    /// A fresh store: empty log, no cursors.
    pub fn new() -> (r: Self)
        ensures
            r.wf(),
            r.wal_entries() == Seq::<Seq<u8>>::empty(),
            r.cursor_map() == Map::<Seq<char>, u64>::empty(),
    {
        let r = ShardStore { wal: Vec::new(), cursors: StrMap::new() };
        proof {
            assert(r.wal_entries() =~= Seq::<Seq<u8>>::empty());
        }
        r
    }

    /// Appends an entry built from the undo blocks and the next block,
    /// returning its assigned sequence: one past the previous highest, so
    /// consecutive appends assign contiguous sequences.
    pub fn write_ahead(&mut self, undo_blocks: Vec<Vec<u8>>, next_block: Vec<u8>) -> (seq: u64)
        requires
            old(self).wf(),
            old(self).wal_entries().len() < u64::MAX,
        ensures
            final(self).wf(),
            seq == old(self).wal_entries().len() + 1,
            final(self).wal_entries() == old(self).wal_entries().push(
                encode_entry_spec(
                    LogEntryView {
                        next_block: next_block@,
                        undo_blocks: seq_views(undo_blocks@),
                    },
                ),
            ),
            final(self).cursor_map() == old(self).cursor_map(),
            final(self).has_entry(seq),
            forall|q: u64| final(self).has_entry(q) <==> old(self).has_entry(q) || q == seq,
    {
        let entry = LogEntry { next_block, undo_blocks };
        let encoded = encode_entry(&entry);
        self.wal.push(encoded);
        proof {
            assert(self.wal_entries() =~= old(self).wal_entries().push(
                encode_entry_spec(entry@),
            ));
            assert forall|k: Seq<char>| self.cursor_map().contains_key(k) implies
                #[trigger] self.cursor_map()[k] <= self.wal_entries().len() by {
                assert(old(self).cursor_map()[k] <= old(self).wal_entries().len());
            }
        }
        self.wal.len() as u64
    }

    /// The block bytes from which the chain point at sequence `seq` is
    /// derived: the decoded entry's next block.  `Ok(None)` when the log
    /// holds no such sequence; an error exactly when the stored bytes do not
    /// decode.
    pub fn find_chain_point(&self, seq: u64) -> (r: Result<Option<Vec<u8>>, StoreError>)
        requires
            self.wf(),
        ensures
            match r {
                Ok(Some(b)) => self.has_entry(seq) && (decode_entry_spec(
                    self.wal_entries()[seq - 1],
                ) matches Some(e) && b@ == e.next_block),
                Ok(None) => !self.has_entry(seq),
                Err(_) => self.has_entry(seq) && decode_entry_spec(
                    self.wal_entries()[seq - 1],
                ) is None,
            },
    {
        if seq == 0 || seq > self.wal.len() as u64 {
            return Ok(None);
        }
        let idx: usize = (seq - 1) as usize;
        match decode_entry(&self.wal[idx]) {
            Some(entry) => Ok(Some(entry.next_block)),
            None => Err(
                StoreError { message: String::from_str("failed to decode log entry") },
            ),
        }
    }

    /// The worker's cursor, if it has one.
    pub fn get_worker_cursor(&self, id: &str) -> (r: Option<u64>)
        requires
            self.wf(),
        ensures
            match r {
                Some(s) => self.cursor_map().contains_key(id@) && s == self.cursor_map()[id@],
                None => !self.cursor_map().contains_key(id@),
            },
    {
        match self.cursors.get(id) {
            Some(v) => Some(*v),
            None => None,
        }
    }

    /// Opens an atomic update bound to `log_seq`, with nothing staged yet.
    pub fn start_atomic_update(&self, log_seq: u64) -> (au: AtomicUpdate)
        ensures
            au.bound_seq() == log_seq,
            au.staged_set() == Set::<Seq<char>>::empty(),
    {
        let au = AtomicUpdate { log_seq, staged: Vec::new() };
        proof {
            assert(au.staged_set() =~= Set::<Seq<char>>::empty());
        }
        au
    }

    /// Applies the outcome of an atomic update's transaction.  A committed
    /// transaction binds every staged worker's cursor to the bound sequence
    /// and touches nothing else; a failed one leaves every cursor unchanged.
    pub fn apply_commit(&mut self, au: &AtomicUpdate, committed: bool)
        requires
            old(self).wf(),
            au.bound_seq() <= old(self).wal_entries().len(),
        ensures
            final(self).wf(),
            final(self).wal_entries() == old(self).wal_entries(),
            committed ==> commit_applied(
                old(self).cursor_map(),
                final(self).cursor_map(),
                au.staged_set(),
                au.bound_seq(),
            ),
            !committed ==> final(self).cursor_map() == old(self).cursor_map(),
    {
        if !committed {
            return;
        }
        let mut i: usize = 0;
        while i < au.staged.len()
            invariant
                0 <= i <= au.staged@.len(),
                self.cursors.wf(),
                self.wal == old(self).wal,
                old(self).wf(),
                au.bound_seq() <= old(self).wal_entries().len(),
                commit_applied(
                    old(self).cursor_map(),
                    self.cursor_map(),
                    staged_workers(au.staged@.take(i as int)),
                    au.bound_seq(),
                ),
            decreases au.staged@.len() - i,
        {
            let ghost prev: Map<Seq<char>, u64> = self.cursor_map();
            self.cursors.insert(au.staged[i].as_str(), au.log_seq);
            proof {
                assert(staged_workers(au.staged@.take(i + 1)) =~= staged_workers(
                    au.staged@.take(i as int),
                ).insert(au.staged@[i as int]@)) by {
                    let before = staged_workers(au.staged@.take(i as int));
                    let after = staged_workers(au.staged@.take(i + 1));
                    assert forall|k: Seq<char>| after.contains(k) implies before.insert(
                        au.staged@[i as int]@,
                    ).contains(k) by {
                        let j = choose|j: int|
                            0 <= j < au.staged@.take(i + 1).len() && #[trigger] au.staged@.take(
                                i + 1,
                            )[j]@ == k;
                        if j < i {
                            assert(au.staged@.take(i as int)[j]@ == k);
                        }
                    }
                    assert forall|k: Seq<char>|
                        before.insert(au.staged@[i as int]@).contains(k) implies after.contains(
                        k,
                    ) by {
                        if before.contains(k) {
                            let j = choose|j: int|
                                0 <= j < au.staged@.take(i as int).len()
                                    && #[trigger] au.staged@.take(i as int)[j]@ == k;
                            assert(au.staged@.take(i + 1)[j]@ == k);
                        } else {
                            assert(au.staged@.take(i + 1)[i as int]@ == k);
                        }
                    }
                }
            }
            i = i + 1;
        }
        proof {
            assert(au.staged@.take(au.staged@.len() as int) =~= au.staged@);
        }
    }
}

/// The set of worker names staged in order of staging; duplicates coalesce.
pub open spec fn staged_workers(s: Seq<String>) -> Set<Seq<char>> {
    Set::new(|k: Seq<char>| exists|i: int| 0 <= i < s.len() && #[trigger] s[i]@ == k)
}

/// A staging buffer for advancing a set of workers' cursors to one bound
/// sequence, transactionally.
pub struct AtomicUpdate {
    log_seq: u64,
    staged: Vec<String>,
}

impl AtomicUpdate {
    /// The sequence every staged worker will be advanced to.
    pub closed spec fn bound_seq(&self) -> u64 {
        self.log_seq
    }

    /// The workers staged so far.
    pub closed spec fn staged_set(&self) -> Set<Seq<char>> {
        staged_workers(self.staged@)
    }

    /// Stages a worker; staging the same worker again coalesces, and the
    /// staging order is irrelevant to the committed outcome.
    pub fn update_worker_cursor(&mut self, id: &str)
        ensures
            final(self).bound_seq() == old(self).bound_seq(),
            final(self).staged_set() == old(self).staged_set().insert(id@),
    {
        self.staged.push(String::from_str(id));
        proof {
            let before = old(self).staged@;
            let after = self.staged@;
            assert(staged_workers(after) =~= staged_workers(before).insert(id@)) by {
                assert forall|k: Seq<char>| staged_workers(after).contains(k) implies
                    staged_workers(before).insert(id@).contains(k) by {
                    let j = choose|j: int| 0 <= j < after.len() && #[trigger] after[j]@ == k;
                    if j < before.len() {
                        assert(before[j]@ == k);
                    }
                }
                assert forall|k: Seq<char>| staged_workers(before).insert(id@).contains(
                    k,
                ) implies staged_workers(after).contains(k) by {
                    if staged_workers(before).contains(k) {
                        let j = choose|j: int| 0 <= j < before.len() && #[trigger] before[j]@ == k;
                        assert(after[j]@ == k);
                    } else {
                        assert(after[before.len() as int]@ == k);
                    }
                }
            }
        }
    }
}

/// One `write_ahead` call as the log sees it: the assigned sequence is one
/// past the previous highest, and the log grows by one entry.
pub open spec fn append_step(pre: ShardStore, post: ShardStore, seq: u64) -> bool {
    seq == pre.wal_entries().len() + 1 && post.wal_entries().len() == pre.wal_entries().len() + 1
}

/// Law: replaying `write_ahead` N times from an empty log assigns exactly
/// the contiguous sequences 1..=N — the k-th append is assigned k, and the
/// final log holds an entry for a sequence exactly when it lies in 1..=N.
pub proof fn lemma_replay_contiguous(states: Seq<ShardStore>, seqs: Seq<u64>)
    requires
        states.len() == seqs.len() + 1,
        states[0].wal_entries().len() == 0,
        forall|i: int|
            0 <= i < seqs.len() ==> #[trigger] append_step(states[i], states[i + 1], seqs[i]),
    ensures
        forall|i: int| 0 <= i < seqs.len() ==> #[trigger] seqs[i] == i + 1,
        forall|q: u64| states.last().has_entry(q) <==> 1 <= q <= seqs.len(),
{
    assert forall|k: int| 0 <= k < states.len() implies #[trigger] states[k].wal_entries().len()
        == k by {
        lemma_replay_len(states, seqs, k);
    }
    assert forall|i: int| 0 <= i < seqs.len() implies #[trigger] seqs[i] == i + 1 by {
        assert(append_step(states[i], states[i + 1], seqs[i]));
    }
}

proof fn lemma_replay_len(states: Seq<ShardStore>, seqs: Seq<u64>, k: int)
    requires
        states.len() == seqs.len() + 1,
        states[0].wal_entries().len() == 0,
        forall|i: int|
            0 <= i < seqs.len() ==> #[trigger] append_step(states[i], states[i + 1], seqs[i]),
        0 <= k < states.len(),
    ensures
        states[k].wal_entries().len() == k,
    decreases k,
{
    if k > 0 {
        lemma_replay_len(states, seqs, k - 1);
        assert(append_step(states[k - 1], states[k], seqs[k - 1]));
    }
}

/// Law: an atomic update is all or nothing.  After a committed update every
/// staged worker's cursor reads the bound sequence; after a failed one every
/// cursor reads what it read before; in neither case does any other
/// worker's cursor move.
pub proof fn lemma_atomic_update_all_or_nothing(
    pre: Map<Seq<char>, u64>,
    post: Map<Seq<char>, u64>,
    staged: Set<Seq<char>>,
    seq: u64,
    w1: Seq<char>,
    w2: Seq<char>,
)
    requires
        commit_applied(pre, post, staged, seq),
        staged.contains(w1),
        staged.contains(w2),
    ensures
        post.contains_key(w1) && post[w1] == seq,
        post.contains_key(w2) && post[w2] == seq,
        forall|k: Seq<char>|
            !staged.contains(k) ==> (#[trigger] post.contains_key(k) <==> pre.contains_key(k))
                && (pre.contains_key(k) ==> post[k] == pre[k]),
{
}

/// Law: every worker's cursor stays within the log — it never exceeds the
/// highest appended sequence.
pub proof fn lemma_cursor_bounded(s: ShardStore, w: Seq<char>)
    requires
        s.wf(),
        s.cursor_map().contains_key(w),
    ensures
        s.cursor_map()[w] <= s.wal_entries().len(),
{
}

} // verus!
