//! Binary codec for write-ahead-log entries.
//!
//! An entry holds the bytes of the next block to apply and the bytes of the
//! blocks to undo.  Entries are persisted as opaque byte strings in a stable
//! schema: each field is a tag byte followed by a base-128 length prefix and
//! the raw bytes, the wire layout used by Protocol Buffers for
//! length-delimited fields (`next_block` is field 1, `undo_blocks` field 2).
//! Decoding an encoded entry gives the entry back; the round trip is proved
//! below.

use vstd::prelude::*;

verus! {

/// Wire tag of the `next_block` field: field number 1, length-delimited.
pub const TAG_NEXT_BLOCK: u8 = 0x0A;

/// Wire tag of one `undo_blocks` element: field number 2, length-delimited.
pub const TAG_UNDO_BLOCK: u8 = 0x12;

/// Base-128 encoding of `n`, least significant group first, the high bit of
/// a byte marking that more bytes follow.
pub open spec fn varint_bytes(n: nat) -> Seq<u8>
    decreases n,
{
    if n < 128 {
        seq![n as u8]
    } else {
        seq![(n % 128 + 128) as u8] + varint_bytes(n / 128)
    }
}

/// Reads one base-128 integer from the front of `bytes`; gives the value and
/// the number of bytes consumed.  Values that do not fit in 64 bits are
/// rejected.
pub open spec fn varint_decode_spec(bytes: Seq<u8>) -> Option<(nat, nat)>
    decreases bytes.len(),
{
    if bytes.len() == 0 {
        None
    } else if bytes[0] < 128 {
        Some((bytes[0] as nat, 1nat))
    } else {
        match varint_decode_spec(bytes.skip(1)) {
            Some(vc) => {
                let value = vc.0 * 128 + (bytes[0] - 128);
                if value <= u64::MAX {
                    Some((value as nat, vc.1 + 1))
                } else {
                    None
                }
            },
            None => None,
        }
    }
}

/// Decoding inverts encoding, with any trailing bytes left untouched.
pub proof fn lemma_varint_roundtrip(n: nat, rest: Seq<u8>)
    requires
        n <= u64::MAX,
    ensures
        varint_decode_spec(varint_bytes(n) + rest) == Some((n, varint_bytes(n).len())),
    decreases n,
{
    let enc = varint_bytes(n) + rest;
    if n < 128 {
        assert(enc[0] == n as u8);
    } else {
        let b0: u8 = (n % 128 + 128) as u8;
        assert(enc[0] == b0);
        assert(enc.skip(1) =~= varint_bytes(n / 128) + rest);
        lemma_varint_roundtrip(n / 128, rest);
        assert((n / 128) * 128 + (b0 - 128) == n) by (nonlinear_arith)
            requires
                b0 == (n % 128 + 128) as u8,
                n >= 128,
        ;
    }
}

/// Writes the base-128 encoding of `n` onto the end of `out`.
pub fn varint_write(n: u64, out: &mut Vec<u8>)
    ensures
        final(out)@ == old(out)@ + varint_bytes(n as nat),
    decreases n,
{
    if n < 128 {
        out.push(n as u8);
        proof {
            assert(out@ =~= old(out)@ + varint_bytes(n as nat));
        }
    } else {
        out.push((n % 128 + 128) as u8);
        varint_write(n / 128, out);
        proof {
            assert(out@ =~= old(out)@ + varint_bytes(n as nat));
        }
    }
}

/// Reads one base-128 integer from `bytes` starting at `pos`.
pub fn varint_read(bytes: &Vec<u8>, pos: usize) -> (r: Option<(u64, usize)>)
    requires
        pos <= bytes@.len(),
    ensures
        match r {
            Some(vc) => {
                &&& varint_decode_spec(bytes@.skip(pos as int)) == Some(
                    (vc.0 as nat, vc.1 as nat),
                )
                &&& pos + vc.1 <= bytes@.len()
                &&& vc.1 >= 1
            },
            None => varint_decode_spec(bytes@.skip(pos as int)) is None,
        },
    decreases bytes@.len() - pos,
{
    if pos >= bytes.len() {
        assert(bytes@.skip(pos as int).len() == 0);
        return None;
    }
    let b: u8 = bytes[pos];
    proof {
        assert(bytes@.skip(pos as int)[0] == bytes@[pos as int]);
    }
    if b < 128 {
        Some((b as u64, 1))
    } else {
        proof {
            assert(bytes@.skip(pos as int).skip(1) =~= bytes@.skip(pos as int + 1));
        }
        match varint_read(bytes, pos + 1) {
            Some((v, c)) => {
                if v <= (u64::MAX - ((b - 128) as u64)) / 128 {
                    proof {
                        assert(v * 128 + (b - 128) <= u64::MAX) by (nonlinear_arith)
                            requires
                                v <= (u64::MAX - ((b - 128) as u64)) / 128,
                                b >= 128,
                        ;
                    }
                    Some((v * 128 + ((b - 128) as u64), c + 1))
                } else {
                    proof {
                        assert(v * 128 + (b - 128) > u64::MAX) by (nonlinear_arith)
                            requires
                                v > (u64::MAX - ((b - 128) as u64)) / 128,
                                b >= 128,
                        ;
                    }
                    None
                }
            },
            None => None,
        }
    }
}

/// One write-ahead-log entry: the next block to apply and the blocks to undo
/// first, all held as opaque byte strings.
pub struct LogEntry {
    pub next_block: Vec<u8>,
    pub undo_blocks: Vec<Vec<u8>>,
}

/// The mathematical shape of a log entry.
#[verifier::ext_equal]
pub struct LogEntryView {
    pub next_block: Seq<u8>,
    pub undo_blocks: Seq<Seq<u8>>,
}

/// The byte sequences held by a sequence of byte vectors.
pub open spec fn seq_views(v: Seq<Vec<u8>>) -> Seq<Seq<u8>> {
    Seq::new(v.len(), |i: int| v[i]@)
}

impl View for LogEntry {
    type V = LogEntryView;

    open spec fn view(&self) -> LogEntryView {
        LogEntryView { next_block: self.next_block@, undo_blocks: seq_views(self.undo_blocks@) }
    }
}

/// One length-delimited field: tag byte, base-128 length, payload.
pub open spec fn field_bytes(tag: u8, payload: Seq<u8>) -> Seq<u8> {
    seq![tag] + varint_bytes(payload.len()) + payload
}

/// The encoding of the undo blocks, one field per block, in order.
pub open spec fn undo_fields(us: Seq<Seq<u8>>) -> Seq<u8>
    decreases us.len(),
{
    if us.len() == 0 {
        Seq::empty()
    } else {
        field_bytes(TAG_UNDO_BLOCK, us[0]) + undo_fields(us.drop_first())
    }
}

/// The wire encoding of an entry.  An empty `next_block` is omitted, as the
/// wire format omits fields holding their default value.
pub open spec fn encode_entry_spec(e: LogEntryView) -> Seq<u8> {
    (if e.next_block.len() == 0 {
        Seq::empty()
    } else {
        field_bytes(TAG_NEXT_BLOCK, e.next_block)
    }) + undo_fields(e.undo_blocks)
}

/// Reads fields from `bytes` into an entry, starting from `nb` and `us`;
/// `None` on an unknown tag, a truncated field, or an oversized length.
pub open spec fn decode_fields(bytes: Seq<u8>, nb: Seq<u8>, us: Seq<Seq<u8>>) -> Option<
    LogEntryView,
>
    decreases bytes.len(),
{
    if bytes.len() == 0 {
        Some(LogEntryView { next_block: nb, undo_blocks: us })
    } else if bytes[0] == TAG_NEXT_BLOCK || bytes[0] == TAG_UNDO_BLOCK {
        match varint_decode_spec(bytes.skip(1)) {
            Some(vc) => {
                if 1 + vc.1 + vc.0 <= bytes.len() {
                    let payload = bytes.subrange(1 + vc.1 as int, (1 + vc.1 + vc.0) as int);
                    let remainder = bytes.skip((1 + vc.1 + vc.0) as int);
                    if bytes[0] == TAG_NEXT_BLOCK {
                        decode_fields(remainder, payload, us)
                    } else {
                        decode_fields(remainder, nb, us.push(payload))
                    }
                } else {
                    None
                }
            },
            None => None,
        }
    } else {
        None
    }
}

/// Decodes a full entry from `bytes`; both fields start out empty.
pub open spec fn decode_entry_spec(bytes: Seq<u8>) -> Option<LogEntryView> {
    decode_fields(bytes, Seq::empty(), Seq::empty())
}

/// Reading one field from the front of the byte stream consumes exactly its
/// encoding and lands it in the right place.
proof fn lemma_decode_field_step(tag: u8, payload: Seq<u8>, rest: Seq<u8>, nb: Seq<u8>, us: Seq<
    Seq<u8>,
>)
    requires
        payload.len() <= u64::MAX,
        tag == TAG_NEXT_BLOCK || tag == TAG_UNDO_BLOCK,
    ensures
        decode_fields(field_bytes(tag, payload) + rest, nb, us) == (if tag == TAG_NEXT_BLOCK {
            decode_fields(rest, payload, us)
        } else {
            decode_fields(rest, nb, us.push(payload))
        }),
{
    let all = field_bytes(tag, payload) + rest;
    let c = varint_bytes(payload.len()).len() as int;
    assert(all[0] == tag);
    assert(all.skip(1) =~= varint_bytes(payload.len()) + (payload + rest));
    lemma_varint_roundtrip(payload.len(), payload + rest);
    assert(all.subrange(1 + c, 1 + c + payload.len() as int) =~= payload);
    assert(all.skip(1 + c + payload.len() as int) =~= rest);
}

/// Decoding the encoding of the undo blocks appends them, in order, to the
/// blocks already read.
proof fn lemma_decode_undo_fields(us: Seq<Seq<u8>>, nb: Seq<u8>, acc: Seq<Seq<u8>>)
    requires
        forall|i: int| 0 <= i < us.len() ==> #[trigger] us[i].len() <= u64::MAX,
    ensures
        decode_fields(undo_fields(us), nb, acc) == Some(
            LogEntryView { next_block: nb, undo_blocks: acc + us },
        ),
    decreases us.len(),
{
    if us.len() == 0 {
        assert(undo_fields(us).len() == 0);
        assert(acc + us =~= acc);
    } else {
        lemma_decode_field_step(TAG_UNDO_BLOCK, us[0], undo_fields(us.drop_first()), nb, acc);
        lemma_decode_undo_fields(us.drop_first(), nb, acc.push(us[0]));
        assert(acc.push(us[0]) + us.drop_first() =~= acc + us);
    }
}

/// Round trip: decoding the encoding of an entry gives the entry back.
pub proof fn lemma_entry_roundtrip(e: LogEntryView)
    requires
        e.next_block.len() <= u64::MAX,
        forall|i: int| 0 <= i < e.undo_blocks.len() ==> #[trigger] e.undo_blocks[i].len()
            <= u64::MAX,
    ensures
        decode_entry_spec(encode_entry_spec(e)) == Some(e),
{
    if e.next_block.len() == 0 {
        assert(encode_entry_spec(e) =~= undo_fields(e.undo_blocks));
        lemma_decode_undo_fields(e.undo_blocks, Seq::empty(), Seq::empty());
        assert(Seq::<Seq<u8>>::empty() + e.undo_blocks =~= e.undo_blocks);
        assert(Seq::<u8>::empty() =~= e.next_block);
        assert(decode_entry_spec(encode_entry_spec(e)) matches Some(d) && d =~= e);
    } else {
        lemma_decode_field_step(
            TAG_NEXT_BLOCK,
            e.next_block,
            undo_fields(e.undo_blocks),
            Seq::empty(),
            Seq::empty(),
        );
        lemma_decode_undo_fields(e.undo_blocks, e.next_block, Seq::empty());
        assert(Seq::<Seq<u8>>::empty() + e.undo_blocks =~= e.undo_blocks);
        assert(decode_entry_spec(encode_entry_spec(e)) matches Some(d) && d =~= e);
    }
}

/// Appends a copy of `src` onto the end of `dst`.
fn push_bytes(dst: &mut Vec<u8>, src: &Vec<u8>)
    ensures
        final(dst)@ == old(dst)@ + src@,
{
    let mut j: usize = 0;
    while j < src.len()
        invariant
            0 <= j <= src@.len(),
            dst@ == old(dst)@ + src@.take(j as int),
        decreases src@.len() - j,
    {
        dst.push(src[j]);
        proof {
            assert(old(dst)@ + src@.take(j as int) + seq![src@[j as int]] =~= old(dst)@
                + src@.take(j + 1));
        }
        j = j + 1;
    }
    proof {
        assert(old(dst)@ + src@.take(src@.len() as int) =~= old(dst)@ + src@);
    }
}

/// Copies `bytes[start..end]` into a fresh vector.
fn copy_range(bytes: &Vec<u8>, start: usize, end: usize) -> (r: Vec<u8>)
    requires
        start <= end <= bytes@.len(),
    ensures
        r@ == bytes@.subrange(start as int, end as int),
{
    let mut out: Vec<u8> = Vec::new();
    let mut j: usize = start;
    while j < end
        invariant
            start <= j <= end <= bytes@.len(),
            out@ == bytes@.subrange(start as int, j as int),
        decreases end - j,
    {
        out.push(bytes[j]);
        proof {
            assert(bytes@.subrange(start as int, j as int) + seq![bytes@[j as int]]
                =~= bytes@.subrange(start as int, j + 1));
        }
        j = j + 1;
    }
    out
}

/// `undo_fields` of one more block is the previous encoding followed by the
/// block's field.
proof fn lemma_undo_fields_push(us: Seq<Seq<u8>>, x: Seq<u8>)
    ensures
        undo_fields(us.push(x)) == undo_fields(us) + field_bytes(TAG_UNDO_BLOCK, x),
    decreases us.len(),
{
    if us.len() == 0 {
        assert(us.push(x)[0] == x);
        assert(us.push(x).drop_first() =~= Seq::<Seq<u8>>::empty());
        assert(undo_fields(us.push(x).drop_first()) =~= Seq::<u8>::empty());
        assert(undo_fields(us.push(x)) =~= field_bytes(TAG_UNDO_BLOCK, x));
        assert(undo_fields(us) =~= Seq::<u8>::empty());
        assert(undo_fields(us.push(x)) =~= undo_fields(us) + field_bytes(TAG_UNDO_BLOCK, x));
    } else {
        assert(us.push(x)[0] == us[0]);
        assert(us.push(x).drop_first() =~= us.drop_first().push(x));
        lemma_undo_fields_push(us.drop_first(), x);
        assert(field_bytes(TAG_UNDO_BLOCK, us[0]) + (undo_fields(us.drop_first()) + field_bytes(
            TAG_UNDO_BLOCK,
            x,
        )) =~= undo_fields(us) + field_bytes(TAG_UNDO_BLOCK, x));
    }
}

/// Encodes an entry into its wire form.
pub fn encode_entry(e: &LogEntry) -> (r: Vec<u8>)
    ensures
        r@ == encode_entry_spec(e@),
{
    let mut out: Vec<u8> = Vec::new();
    if e.next_block.len() > 0 {
        out.push(TAG_NEXT_BLOCK);
        varint_write(e.next_block.len() as u64, &mut out);
        push_bytes(&mut out, &e.next_block);
        proof {
            assert(out@ =~= field_bytes(TAG_NEXT_BLOCK, e@.next_block));
        }
    }
    let ghost head: Seq<u8> = out@;
    let mut i: usize = 0;
    while i < e.undo_blocks.len()
        invariant
            0 <= i <= e.undo_blocks@.len(),
            out@ == head + undo_fields(seq_views(e.undo_blocks@).take(i as int)),
        decreases e.undo_blocks@.len() - i,
    {
        let ghost before: Seq<u8> = out@;
        out.push(TAG_UNDO_BLOCK);
        varint_write(e.undo_blocks[i].len() as u64, &mut out);
        push_bytes(&mut out, &e.undo_blocks[i]);
        proof {
            let views = seq_views(e.undo_blocks@);
            assert(out@ =~= before + field_bytes(TAG_UNDO_BLOCK, views[i as int]));
            lemma_undo_fields_push(views.take(i as int), views[i as int]);
            assert(views.take(i as int).push(views[i as int]) =~= views.take(i + 1));
            assert(out@ =~= head + undo_fields(views.take(i + 1)));
        }
        i = i + 1;
    }
    proof {
        let views = seq_views(e.undo_blocks@);
        assert(views.take(views.len() as int) =~= views);
        assert(out@ =~= encode_entry_spec(e@));
    }
    out
}

/// Decodes an entry from its wire form; `None` exactly where the decoder
/// specification rejects the bytes.
pub fn decode_entry(bytes: &Vec<u8>) -> (r: Option<LogEntry>)
    ensures
        match r {
            Some(e) => decode_entry_spec(bytes@) == Some(e@),
            None => decode_entry_spec(bytes@) is None,
        },
{
    let mut nb: Vec<u8> = Vec::new();
    let mut us: Vec<Vec<u8>> = Vec::new();
    let mut pos: usize = 0;
    proof {
        assert(bytes@.skip(0) =~= bytes@);
        assert(seq_views(us@) =~= Seq::<Seq<u8>>::empty());
    }
    while pos < bytes.len()
        invariant
            0 <= pos <= bytes@.len(),
            decode_entry_spec(bytes@) == decode_fields(
                bytes@.skip(pos as int),
                nb@,
                seq_views(us@),
            ),
        decreases bytes@.len() - pos,
    {
        let ghost suffix: Seq<u8> = bytes@.skip(pos as int);
        let tag: u8 = bytes[pos];
        proof {
            assert(suffix[0] == bytes@[pos as int]);
        }
        if tag != TAG_NEXT_BLOCK && tag != TAG_UNDO_BLOCK {
            return None;
        }
        proof {
            assert(bytes@.skip(pos + 1) =~= suffix.skip(1));
        }
        match varint_read(bytes, pos + 1) {
            None => {
                return None;
            },
            Some((l, c)) => {
                let start: usize = pos + 1 + c;
                if l > (bytes.len() - start) as u64 {
                    proof {
                        assert(1 + c + l > suffix.len());
                    }
                    return None;
                }
                let l_us: usize = l as usize;
                let payload = copy_range(bytes, start, start + l_us);
                let ghost old_nb: Seq<u8> = nb@;
                let ghost old_us: Seq<Seq<u8>> = seq_views(us@);
                proof {
                    assert(1 + c + l <= suffix.len());
                    assert(suffix.subrange(1 + c as int, (1 + c + l) as int)
                        =~= bytes@.subrange(start as int, start + l_us as int));
                    assert(suffix.skip((1 + c + l) as int) =~= bytes@.skip(start + l_us as int));
                }
                if tag == TAG_NEXT_BLOCK {
                    nb = payload;
                    proof {
                        assert(decode_fields(suffix, old_nb, old_us) == decode_fields(
                            bytes@.skip(start + l_us as int),
                            nb@,
                            old_us,
                        ));
                    }
                } else {
                    us.push(payload);
                    proof {
                        assert(seq_views(us@) =~= old_us.push(payload@));
                        assert(decode_fields(suffix, old_nb, old_us) == decode_fields(
                            bytes@.skip(start + l_us as int),
                            old_nb,
                            seq_views(us@),
                        ));
                    }
                }
                pos = start + l_us;
            },
        }
    }
    proof {
        assert(bytes@.skip(pos as int).len() == 0);
    }
    Some(LogEntry { next_block: nb, undo_blocks: us })
}

} // verus!
