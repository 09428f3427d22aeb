//! Per-worker key-value storage.
//!
//! One `KvStore` value holds one worker's bindings from keys to opaque byte
//! values; keys are the bytes of UTF-8 strings.  `set` is an upsert — last
//! writer wins, and writing the same value again changes nothing; `get`
//! returns exactly the bytes last set; `list` returns exactly the keys
//! starting with a given prefix, in ascending byte order.  The table keeps
//! its entries strictly sorted by key, which is the invariant `list` leans
//! on.

use vstd::prelude::*;
use crate::errors::KvError;

verus! {

/// Strict lexicographic order on byte strings: the order `list` promises.
pub open spec fn bytes_lt(a: Seq<u8>, b: Seq<u8>) -> bool
    decreases a.len(),
{
    if b.len() == 0 {
        false
    } else if a.len() == 0 {
        true
    } else if a[0] < b[0] {
        true
    } else if a[0] > b[0] {
        false
    } else {
        bytes_lt(a.drop_first(), b.drop_first())
    }
}

/// Does `k` start with `p`?
pub open spec fn bytes_prefix(p: Seq<u8>, k: Seq<u8>) -> bool {
    p.len() <= k.len() && k.take(p.len() as int) == p
}

/// Any two byte strings are ordered or equal.
pub proof fn lemma_bytes_lt_connex(a: Seq<u8>, b: Seq<u8>)
    ensures
        bytes_lt(a, b) || bytes_lt(b, a) || a == b,
    decreases a.len(),
{
    if a.len() == 0 && b.len() == 0 {
        assert(a =~= b);
    } else if a.len() > 0 && b.len() > 0 && a[0] == b[0] {
        lemma_bytes_lt_connex(a.drop_first(), b.drop_first());
        if !bytes_lt(a, b) && !bytes_lt(b, a) {
            assert(a =~= seq![a[0]] + a.drop_first());
            assert(b =~= seq![b[0]] + b.drop_first());
        }
    }
}

/// The order is strict: two ordered byte strings differ.
pub proof fn lemma_bytes_lt_ne(a: Seq<u8>, b: Seq<u8>)
    requires
        bytes_lt(a, b),
    ensures
        a != b,
    decreases a.len(),
{
    if a.len() > 0 && b.len() > 0 && a[0] == b[0] {
        lemma_bytes_lt_ne(a.drop_first(), b.drop_first());
        assert(a == b ==> a.drop_first() =~= b.drop_first());
    }
}

/// The order is transitive.
pub proof fn lemma_bytes_lt_trans(a: Seq<u8>, b: Seq<u8>, c: Seq<u8>)
    requires
        bytes_lt(a, b),
        bytes_lt(b, c),
    ensures
        bytes_lt(a, c),
    decreases a.len(),
{
    if a.len() > 0 && b.len() > 0 && a[0] == b[0] && c.len() > 0 && b[0] == c[0] {
        lemma_bytes_lt_trans(a.drop_first(), b.drop_first(), c.drop_first());
    }
}

/// The map held by a key/value table; later entries win, though with
/// distinct keys every entry is visible.
pub open spec fn kv_map(entries: Seq<(Vec<u8>, Vec<u8>)>) -> Map<Seq<u8>, Seq<u8>>
    decreases entries.len(),
{
    if entries.len() == 0 {
        Map::empty()
    } else {
        kv_map(entries.drop_last()).insert(entries.last().0@, entries.last().1@)
    }
}

/// Keys strictly ascending, hence pairwise distinct.
pub open spec fn kv_sorted(entries: Seq<(Vec<u8>, Vec<u8>)>) -> bool {
    forall|i: int, j: int|
        0 <= i < j < entries.len() ==> bytes_lt(
            #[trigger] entries[i].0@,
            #[trigger] entries[j].0@,
        )
}

proof fn lemma_kv_found(entries: Seq<(Vec<u8>, Vec<u8>)>, i: int)
    requires
        kv_sorted(entries),
        0 <= i < entries.len(),
    ensures
        kv_map(entries).contains_key(entries[i].0@),
        kv_map(entries)[entries[i].0@] == entries[i].1@,
    decreases entries.len(),
{
    if i == entries.len() - 1 {
    } else {
        assert(kv_sorted(entries.drop_last()));
        lemma_kv_found(entries.drop_last(), i);
        lemma_bytes_lt_ne(entries[i].0@, entries[entries.len() - 1].0@);
    }
}

proof fn lemma_kv_absent(entries: Seq<(Vec<u8>, Vec<u8>)>, k: Seq<u8>)
    requires
        forall|i: int| 0 <= i < entries.len() ==> #[trigger] entries[i].0@ != k,
    ensures
        !kv_map(entries).contains_key(k),
    decreases entries.len(),
{
    if entries.len() > 0 {
        lemma_kv_absent(entries.drop_last(), k);
    }
}

proof fn lemma_kv_update(entries: Seq<(Vec<u8>, Vec<u8>)>, i: int, p: (Vec<u8>, Vec<u8>))
    requires
        kv_sorted(entries),
        0 <= i < entries.len(),
        p.0@ == entries[i].0@,
    ensures
        kv_map(entries.update(i, p)) == kv_map(entries).insert(p.0@, p.1@),
    decreases entries.len(),
{
    let updated = entries.update(i, p);
    if i == entries.len() - 1 {
        assert(updated.drop_last() =~= entries.drop_last());
        assert(kv_map(entries.drop_last()).insert(entries.last().0@, entries.last().1@).insert(
            p.0@,
            p.1@,
        ) =~= kv_map(entries.drop_last()).insert(p.0@, p.1@));
    } else {
        assert(updated.drop_last() =~= entries.drop_last().update(i, p));
        assert(kv_sorted(entries.drop_last()));
        lemma_kv_update(entries.drop_last(), i, p);
        assert(updated.last() == entries.last());
        let l = entries.last();
        lemma_bytes_lt_ne(entries[i].0@, l.0@);
        assert(kv_map(entries.drop_last()).insert(p.0@, p.1@).insert(l.0@, l.1@)
            =~= kv_map(entries.drop_last()).insert(l.0@, l.1@).insert(p.0@, p.1@));
    }
}

proof fn lemma_kv_insert_at(entries: Seq<(Vec<u8>, Vec<u8>)>, i: int, p: (Vec<u8>, Vec<u8>))
    requires
        0 <= i <= entries.len(),
        forall|j: int| 0 <= j < entries.len() ==> #[trigger] entries[j].0@ != p.0@,
    ensures
        kv_map(entries.insert(i, p)) == kv_map(entries).insert(p.0@, p.1@),
    decreases entries.len(),
{
    let inserted = entries.insert(i, p);
    if i == entries.len() {
        assert(inserted.drop_last() =~= entries);
        assert(inserted.last() == p);
    } else {
        assert(inserted.drop_last() =~= entries.drop_last().insert(i, p));
        assert(inserted.last() == entries.last());
        lemma_kv_insert_at(entries.drop_last(), i, p);
        let l = entries.last();
        assert(l.0@ != p.0@);
        assert(kv_map(entries.drop_last()).insert(p.0@, p.1@).insert(l.0@, l.1@)
            =~= kv_map(entries.drop_last()).insert(l.0@, l.1@).insert(p.0@, p.1@));
    }
}

/// Byte-string equality.
fn bytes_eq(a: &Vec<u8>, b: &Vec<u8>) -> (r: bool)
    ensures
        r == (a@ == b@),
{
    if a.len() != b.len() {
        return false;
    }
    let mut i: usize = 0;
    while i < a.len()
        invariant
            0 <= i <= a@.len(),
            a@.len() == b@.len(),
            forall|j: int| 0 <= j < i ==> a@[j] == b@[j],
        decreases a@.len() - i,
    {
        if a[i] != b[i] {
            return false;
        }
        i = i + 1;
    }
    proof {
        assert(a@ =~= b@);
    }
    true
}

/// Is `a` strictly below `b` in byte order?
fn bytes_lt_exec(a: &[u8], b: &[u8]) -> (r: bool)
    ensures
        r == bytes_lt(a@, b@),
    decreases a@.len(),
{
    if b.len() == 0 {
        false
    } else if a.len() == 0 {
        true
    } else if a[0] < b[0] {
        true
    } else if a[0] > b[0] {
        false
    } else {
        let a_rest = vstd::slice::slice_subrange(a, 1, a.len());
        let b_rest = vstd::slice::slice_subrange(b, 1, b.len());
        proof {
            assert(a_rest@ =~= a@.drop_first());
            assert(b_rest@ =~= b@.drop_first());
        }
        bytes_lt_exec(a_rest, b_rest)
    }
}

/// Does `k` start with `p`, byte for byte?
fn bytes_prefix_exec(p: &Vec<u8>, k: &Vec<u8>) -> (r: bool)
    ensures
        r == bytes_prefix(p@, k@),
{
    if p.len() > k.len() {
        return false;
    }
    let mut i: usize = 0;
    while i < p.len()
        invariant
            0 <= i <= p@.len(),
            p@.len() <= k@.len(),
            forall|j: int| 0 <= j < i ==> k@[j] == p@[j],
        decreases p@.len() - i,
    {
        if k[i] != p[i] {
            assert(k@.take(p@.len() as int)[i as int] != p@[i as int]);
            return false;
        }
        i = i + 1;
    }
    proof {
        assert(k@.take(p@.len() as int) =~= p@);
    }
    true
}

/// Copies a byte string.
fn copy_bytes(src: &Vec<u8>) -> (r: Vec<u8>)
    ensures
        r@ == src@,
{
    let mut out: Vec<u8> = Vec::new();
    let mut i: usize = 0;
    while i < src.len()
        invariant
            0 <= i <= src@.len(),
            out@ == src@.take(i as int),
        decreases src@.len() - i,
    {
        out.push(src[i]);
        proof {
            assert(src@.take(i as int).push(src@[i as int]) =~= src@.take(i + 1));
        }
        i = i + 1;
    }
    proof {
        assert(src@.take(src@.len() as int) =~= src@);
    }
    out
}

/// The index of the first entry whose key is not below `key`: where `key`
/// itself sits or would be inserted.
fn lower_bound(entries: &Vec<(Vec<u8>, Vec<u8>)>, key: &Vec<u8>) -> (i: usize)
    ensures
        i <= entries@.len(),
        forall|j: int| 0 <= j < i ==> bytes_lt(#[trigger] entries@[j].0@, key@),
        i < entries@.len() ==> !bytes_lt(entries@[i as int].0@, key@),
{
    let mut i: usize = 0;
    while i < entries.len()
        invariant
            0 <= i <= entries@.len(),
            forall|j: int| 0 <= j < i ==> bytes_lt(#[trigger] entries@[j].0@, key@),
        decreases entries@.len() - i,
    {
        if !bytes_lt_exec(entries[i].0.as_slice(), key.as_slice()) {
            return i;
        }
        i = i + 1;
    }
    i
}

/// One worker's key-value bindings, kept strictly sorted by key.
pub struct KvStore {
    entries: Vec<(Vec<u8>, Vec<u8>)>,
}

impl KvStore {
    /// The map of bindings this table holds.
    pub closed spec fn view(&self) -> Map<Seq<u8>, Seq<u8>> {
        kv_map(self.entries@)
    }

    /// Entries are strictly sorted by key.
    pub closed spec fn wf(&self) -> bool {
        kv_sorted(self.entries@)
    }

    /// An empty table.
    pub fn new() -> (r: Self)
        ensures
            r.wf(),
            r.view() == Map::<Seq<u8>, Seq<u8>>::empty(),
    {
        KvStore { entries: Vec::new() }
    }

    /// The value bound to `key`: exactly the bytes last set.  `NotFound`,
    /// carrying the key, exactly when the key is unbound.
    pub fn get(&self, key: &Vec<u8>) -> (r: Result<Vec<u8>, KvError>)
        requires
            self.wf(),
        ensures
            match r {
                Ok(v) => self.view().contains_key(key@) && v@ == self.view()[key@],
                Err(e) => !self.view().contains_key(key@) && (e matches KvError::NotFound(k)
                    && k@ == key@),
            },
    {
        let mut i: usize = 0;
        while i < self.entries.len()
            invariant
                0 <= i <= self.entries@.len(),
                self.wf(),
                forall|j: int| 0 <= j < i ==> #[trigger] self.entries@[j].0@ != key@,
            decreases self.entries@.len() - i,
        {
            if bytes_eq(&self.entries[i].0, key) {
                proof {
                    lemma_kv_found(self.entries@, i as int);
                }
                return Ok(copy_bytes(&self.entries[i].1));
            }
            i = i + 1;
        }
        proof {
            lemma_kv_absent(self.entries@, key@);
        }
        Err(KvError::NotFound(copy_bytes(key)))
    }

    /// Binds `key` to `value`: an upsert, last writer wins.  Rebinding the
    /// same value changes nothing.
    pub fn set(&mut self, key: &Vec<u8>, value: Vec<u8>)
        requires
            old(self).wf(),
        ensures
            final(self).wf(),
            final(self).view() == old(self).view().insert(key@, value@),
    {
        let i = lower_bound(&self.entries, key);
        let pair = (copy_bytes(key), value);
        if i < self.entries.len() && bytes_eq(&self.entries[i].0, key) {
            proof {
                lemma_kv_update(self.entries@, i as int, pair);
                let updated = self.entries@.update(i as int, pair);
                assert forall|a: int, b: int| 0 <= a < b < updated.len() implies bytes_lt(
                    #[trigger] updated[a].0@,
                    #[trigger] updated[b].0@,
                ) by {
                    assert(bytes_lt(self.entries@[a].0@, self.entries@[b].0@));
                }
            }
            self.entries[i] = pair;
        } else {
            proof {
                let entries = self.entries@;
                if i < entries.len() {
                    lemma_bytes_lt_connex(entries[i as int].0@, key@);
                }
                assert forall|j: int| 0 <= j < entries.len() implies #[trigger] entries[j].0@
                    != key@ by {
                    if j < i {
                        lemma_bytes_lt_ne(entries[j].0@, key@);
                    } else {
                        assert(bytes_lt(key@, entries[i as int].0@));
                        if j > i {
                            lemma_bytes_lt_trans(key@, entries[i as int].0@, entries[j].0@);
                        }
                        lemma_bytes_lt_ne(key@, entries[j].0@);
                    }
                }
                lemma_kv_insert_at(entries, i as int, pair);
                let ins = entries.insert(i as int, pair);
                assert forall|a: int, b: int| 0 <= a < b < ins.len() implies bytes_lt(
                    #[trigger] ins[a].0@,
                    #[trigger] ins[b].0@,
                ) by {
                    if b < i {
                        assert(ins[a] == entries[a] && ins[b] == entries[b]);
                    } else if b == i {
                        assert(ins[a] == entries[a] && ins[b] == pair);
                    } else if a < i {
                        assert(ins[a] == entries[a] && ins[b] == entries[b - 1]);
                        if b - 1 == i {
                            assert(ins[b].0@ == entries[i as int].0@);
                        }
                    } else if a == i {
                        assert(ins[a] == pair && ins[b] == entries[b - 1]);
                        assert(bytes_lt(key@, entries[i as int].0@));
                        if b - 1 > i {
                            lemma_bytes_lt_trans(key@, entries[i as int].0@, entries[b - 1].0@);
                        }
                    } else {
                        assert(ins[a] == entries[a - 1] && ins[b] == entries[b - 1]);
                    }
                }
            }
            self.entries.insert(i, pair);
        }
    }

    /// The keys starting with `prefix`: each is bound and has the prefix,
    /// they come in strictly ascending byte order, and every bound key with
    /// the prefix appears.
    #[verifier::rlimit(40)]
    pub fn list(&self, prefix: &Vec<u8>) -> (r: Vec<Vec<u8>>)
        requires
            self.wf(),
        ensures
            forall|j: int|
                0 <= j < r@.len() ==> bytes_prefix(prefix@, #[trigger] r@[j]@)
                    && self.view().contains_key(r@[j]@),
            forall|a: int, b: int|
                0 <= a < b < r@.len() ==> bytes_lt(#[trigger] r@[a]@, #[trigger] r@[b]@),
            forall|k: Seq<u8>|
                self.view().contains_key(k) && bytes_prefix(prefix@, k) ==> exists|j: int|
                    0 <= j < r@.len() && #[trigger] r@[j]@ == k,
    {
        let mut out: Vec<Vec<u8>> = Vec::new();
        let mut i: usize = 0;
        while i < self.entries.len()
            invariant
                0 <= i <= self.entries@.len(),
                self.wf(),
                forall|j: int|
                    0 <= j < out@.len() ==> bytes_prefix(prefix@, #[trigger] out@[j]@)
                        && self.view().contains_key(out@[j]@),
                forall|j: int|
                    0 <= j < out@.len() ==> exists|m: int|
                        0 <= m < i && #[trigger] out@[j]@ == self.entries@[m].0@,
                forall|a: int, b: int|
                    0 <= a < b < out@.len() ==> bytes_lt(#[trigger] out@[a]@, #[trigger] out@[b]@),
                forall|m: int|
                    0 <= m < i && bytes_prefix(prefix@, #[trigger] self.entries@[m].0@)
                        ==> exists|j: int| 0 <= j < out@.len() && #[trigger] out@[j]@
                        == self.entries@[m].0@,
            decreases self.entries@.len() - i,
        {
            let ghost prev_out: Seq<Vec<u8>> = out@;
            if bytes_prefix_exec(prefix, &self.entries[i].0) {
                proof {
                    lemma_kv_found(self.entries@, i as int);
                    assert forall|j: int| 0 <= j < out@.len() implies bytes_lt(
                        #[trigger] out@[j]@,
                        self.entries@[i as int].0@,
                    ) by {
                        let m = choose|m: int|
                            0 <= m < i && #[trigger] out@[j]@ == self.entries@[m].0@;
                        assert(bytes_lt(self.entries@[m].0@, self.entries@[i as int].0@));
                    }
                }
                out.push(copy_bytes(&self.entries[i].0));
            }
            proof {
                assert forall|m: int|
                    0 <= m < i + 1 && bytes_prefix(
                        prefix@,
                        #[trigger] self.entries@[m].0@,
                    ) implies exists|j: int|
                    0 <= j < out@.len() && #[trigger] out@[j]@ == self.entries@[m].0@ by {
                    if m < i {
                        let j = choose|j: int|
                            0 <= j < prev_out.len() && #[trigger] prev_out[j]@
                                == self.entries@[m].0@;
                        assert(out@[j]@ == self.entries@[m].0@);
                    } else {
                        assert(out@[out@.len() - 1]@ == self.entries@[m].0@);
                    }
                }
            }
            i = i + 1;
        }
        proof {
            assert forall|k: Seq<u8>|
                self.view().contains_key(k) && bytes_prefix(prefix@, k) implies exists|j: int|
                0 <= j < out@.len() && #[trigger] out@[j]@ == k by {
                if forall|m: int|
                    0 <= m < self.entries@.len() ==> #[trigger] self.entries@[m].0@ != k {
                    lemma_kv_absent(self.entries@, k);
                } else {
                    let m = choose|m: int|
                        0 <= m < self.entries@.len() && #[trigger] self.entries@[m].0@ == k;
                }
            }
        }
        out
    }
}

/// Law: what `set` binds, `get` returns — rebinding a key and reading it
/// gives back exactly the bytes written, and no other binding moves.
pub proof fn lemma_set_get_roundtrip(
    m: Map<Seq<u8>, Seq<u8>>,
    key: Seq<u8>,
    value: Seq<u8>,
    other: Seq<u8>,
)
    requires
        other != key,
    ensures
        m.insert(key, value).contains_key(key),
        m.insert(key, value)[key] == value,
        m.insert(key, value).contains_key(other) == m.contains_key(other),
        m.contains_key(other) ==> m.insert(key, value)[other] == m[other],
{
}

} // verus!
