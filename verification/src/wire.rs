//! How numbers, byte strings and lists are written to and read from bytes.
//! Numbers are little-endian; a byte string or a list is preceded by its
//! length in four bytes.

use vstd::prelude::*;
use vstd::bytes::{
    lemma_auto_spec_u32_to_from_le_bytes, lemma_auto_spec_u64_to_from_le_bytes,
    spec_u32_from_le_bytes, spec_u32_to_le_bytes, spec_u64_from_le_bytes, spec_u64_to_le_bytes,
    u32_from_le_bytes, u32_to_le_bytes, u64_from_le_bytes, u64_to_le_bytes,
};
use crate::bytes::{append_bytes, copy_range};

verus! {

/// What is left of the data from place `at` on.
pub open spec fn rest(data: Seq<u8>, at: int) -> Seq<u8> {
    data.subrange(at, data.len() as int)
}

/// The first `n` bytes and what follows them, where there are that many.
pub open spec fn take(s: Seq<u8>, n: int) -> Option<(Seq<u8>, Seq<u8>)> {
    if 0 <= n <= s.len() {
        Some((s.subrange(0, n), s.subrange(n, s.len() as int)))
    } else {
        None
    }
}

/// Reads one byte.
pub open spec fn dec_u8(s: Seq<u8>) -> Option<(u8, Seq<u8>)> {
    match take(s, 1) {
        Some((head, tail)) => Some((head[0], tail)),
        None => None,
    }
}

/// Reads a number of four bytes.
pub open spec fn dec_u32(s: Seq<u8>) -> Option<(u32, Seq<u8>)> {
    match take(s, 4) {
        Some((head, tail)) => Some((spec_u32_from_le_bytes(head), tail)),
        None => None,
    }
}

/// Reads a number of eight bytes.
pub open spec fn dec_u64(s: Seq<u8>) -> Option<(u64, Seq<u8>)> {
    match take(s, 8) {
        Some((head, tail)) => Some((spec_u64_from_le_bytes(head), tail)),
        None => None,
    }
}

/// Writes a byte string: its length, then its bytes.
pub open spec fn enc_bytes(b: Seq<u8>) -> Seq<u8> {
    spec_u32_to_le_bytes(b.len() as u32) + b
}

/// Reads a byte string.
pub open spec fn dec_bytes(s: Seq<u8>) -> Option<(Seq<u8>, Seq<u8>)> {
    match dec_u32(s) {
        Some((n, tail)) => take(tail, n as int),
        None => None,
    }
}

/// Writes the items of a list one after the other.
pub open spec fn enc_items<T>(items: Seq<T>, enc: spec_fn(T) -> Seq<u8>) -> Seq<u8>
    decreases items.len(),
{
    if items.len() == 0 {
        Seq::<u8>::empty()
    } else {
        enc(items[0]) + enc_items(items.subrange(1, items.len() as int), enc)
    }
}

/// Reads `count` items one after the other.
pub open spec fn dec_items<T>(
    s: Seq<u8>,
    count: nat,
    dec: spec_fn(Seq<u8>) -> Option<(T, Seq<u8>)>,
) -> Option<(Seq<T>, Seq<u8>)>
    decreases count,
{
    if count == 0 {
        Some((Seq::<T>::empty(), s))
    } else {
        match dec(s) {
            Some((item, tail)) => match dec_items(tail, (count - 1) as nat, dec) {
                Some((items, end)) => Some((seq![item] + items, end)),
                None => None,
            },
            None => None,
        }
    }
}

/// Writes a list: its length, then its items.
pub open spec fn enc_list<T>(items: Seq<T>, enc: spec_fn(T) -> Seq<u8>) -> Seq<u8> {
    spec_u32_to_le_bytes(items.len() as u32) + enc_items(items, enc)
}

/// Reads a list.
pub open spec fn dec_list<T>(s: Seq<u8>, dec: spec_fn(Seq<u8>) -> Option<(T, Seq<u8>)>) -> Option<
    (Seq<T>, Seq<u8>),
> {
    match dec_u32(s) {
        Some((n, tail)) => dec_items(tail, n as nat, dec),
        None => None,
    }
}

/// Reading gives back the byte that was written.
pub proof fn lemma_u8_round_trip(x: u8, tail: Seq<u8>)
    ensures
        dec_u8(seq![x] + tail) == Some((x, tail)),
{
    let s = seq![x] + tail;
    assert(s.subrange(1, s.len() as int) =~= tail);
}

/// Reading gives back the number that was written.
pub proof fn lemma_u32_round_trip(x: u32, tail: Seq<u8>)
    ensures
        dec_u32(spec_u32_to_le_bytes(x) + tail) == Some((x, tail)),
        spec_u32_to_le_bytes(x).len() == 4,
{
    lemma_auto_spec_u32_to_from_le_bytes();
    let s = spec_u32_to_le_bytes(x) + tail;
    assert(s.subrange(0, 4) =~= spec_u32_to_le_bytes(x));
    assert(s.subrange(4, s.len() as int) =~= tail);
}

/// Reading gives back the number that was written.
pub proof fn lemma_u64_round_trip(x: u64, tail: Seq<u8>)
    ensures
        dec_u64(spec_u64_to_le_bytes(x) + tail) == Some((x, tail)),
        spec_u64_to_le_bytes(x).len() == 8,
{
    lemma_auto_spec_u64_to_from_le_bytes();
    let s = spec_u64_to_le_bytes(x) + tail;
    assert(s.subrange(0, 8) =~= spec_u64_to_le_bytes(x));
    assert(s.subrange(8, s.len() as int) =~= tail);
}

/// Reading gives back the byte string that was written.
pub proof fn lemma_bytes_round_trip(b: Seq<u8>, tail: Seq<u8>)
    requires
        b.len() <= u32::MAX,
    ensures
        dec_bytes(enc_bytes(b) + tail) == Some((b, tail)),
{
    lemma_u32_round_trip(b.len() as u32, b + tail);
    assert(enc_bytes(b) + tail =~= spec_u32_to_le_bytes(b.len() as u32) + (b + tail));
    let s = b + tail;
    assert(s.subrange(0, b.len() as int) =~= b);
    assert(s.subrange(b.len() as int, s.len() as int) =~= tail);
}

/// Reading gives back the items that were written, where reading gives
/// back each single item.
pub proof fn lemma_items_round_trip<T>(
    items: Seq<T>,
    enc: spec_fn(T) -> Seq<u8>,
    dec: spec_fn(Seq<u8>) -> Option<(T, Seq<u8>)>,
    tail: Seq<u8>,
)
    requires
        forall|i: int, after: Seq<u8>|
            0 <= i < items.len() ==> #[trigger] dec(enc(items[i]) + after) == Some(
                (items[i], after),
            ),
    ensures
        dec_items(enc_items(items, enc) + tail, items.len(), dec) == Some((items, tail)),
    decreases items.len(),
{
    if items.len() == 0 {
        assert(enc_items(items, enc) + tail =~= tail);
    } else {
        let others = items.subrange(1, items.len() as int);
        assert forall|i: int, after: Seq<u8>| 0 <= i < others.len() implies #[trigger] dec(
            enc(others[i]) + after,
        ) == Some((others[i], after)) by {
            assert(others[i] == items[i + 1]);
        }
        lemma_items_round_trip(others, enc, dec, tail);
        let after = enc_items(others, enc) + tail;
        assert(enc_items(items, enc) + tail =~= enc(items[0]) + after);
        assert(dec(enc(items[0]) + after) == Some((items[0], after)));
        assert(seq![items[0]] + others =~= items);
    }
}

/// Reading gives back the list that was written.
pub proof fn lemma_list_round_trip<T>(
    items: Seq<T>,
    enc: spec_fn(T) -> Seq<u8>,
    dec: spec_fn(Seq<u8>) -> Option<(T, Seq<u8>)>,
    tail: Seq<u8>,
)
    requires
        items.len() <= u32::MAX,
        forall|i: int, after: Seq<u8>|
            0 <= i < items.len() ==> #[trigger] dec(enc(items[i]) + after) == Some(
                (items[i], after),
            ),
    ensures
        dec_list(enc_list(items, enc) + tail, dec) == Some((items, tail)),
{
    lemma_items_round_trip(items, enc, dec, tail);
    lemma_u32_round_trip(items.len() as u32, enc_items(items, enc) + tail);
    assert(enc_list(items, enc) + tail =~= spec_u32_to_le_bytes(items.len() as u32) + (enc_items(
        items,
        enc,
    ) + tail));
}

/// Writing one more item adds its bytes at the end.
pub proof fn lemma_enc_items_push<T>(items: Seq<T>, item: T, enc: spec_fn(T) -> Seq<u8>)
    ensures
        enc_items(items.push(item), enc) == enc_items(items, enc) + enc(item),
    decreases items.len(),
{
    let more = items.push(item);
    if items.len() == 0 {
        assert(more.subrange(1, 1) =~= Seq::<T>::empty());
        assert(enc_items(more.subrange(1, 1), enc) =~= Seq::<u8>::empty());
        assert(enc_items(more, enc) =~= enc(item));
        assert(enc_items(items, enc) + enc(item) =~= enc(item));
    } else {
        let others = items.subrange(1, items.len() as int);
        lemma_enc_items_push(others, item, enc);
        assert(more.subrange(1, more.len() as int) =~= others.push(item));
        assert(enc_items(more, enc) =~= enc(items[0]) + (enc_items(others, enc) + enc(item)));
        assert(enc_items(items, enc) + enc(item) =~= enc(items[0]) + (enc_items(others, enc)
            + enc(item)));
    }
}

/// Writes one byte.
pub fn write_u8(buffer: &mut Vec<u8>, x: u8)
    ensures
        final(buffer)@ == old(buffer)@ + seq![x],
{
    buffer.push(x);
    assert(buffer@ =~= old(buffer)@ + seq![x]);
}

/// Writes a number of four bytes.
pub fn write_u32(buffer: &mut Vec<u8>, x: u32)
    ensures
        final(buffer)@ == old(buffer)@ + spec_u32_to_le_bytes(x),
{
    let bytes = u32_to_le_bytes(x);
    append_bytes(buffer, &bytes);
}

/// Writes a number of eight bytes.
pub fn write_u64(buffer: &mut Vec<u8>, x: u64)
    ensures
        final(buffer)@ == old(buffer)@ + spec_u64_to_le_bytes(x),
{
    let bytes = u64_to_le_bytes(x);
    append_bytes(buffer, &bytes);
}

/// Writes a byte string. Returns whether its length can be written; where
/// not, nothing is written.
pub fn write_bytes(buffer: &mut Vec<u8>, b: &Vec<u8>) -> (written: bool)
    ensures
        written == (b@.len() <= u32::MAX),
        written ==> final(buffer)@ == old(buffer)@ + enc_bytes(b@),
        !written ==> final(buffer)@ == old(buffer)@,
{
    if b.len() > u32::MAX as usize {
        return false;
    }
    write_u32(buffer, b.len() as u32);
    append_bytes(buffer, b);
    assert(buffer@ =~= old(buffer)@ + enc_bytes(b@));
    true
}

/// Reads one byte at place `at`.
pub fn read_u8(data: &Vec<u8>, at: usize) -> (read: Option<(u8, usize)>)
    requires
        at <= data@.len(),
    ensures
        match dec_u8(rest(data@, at as int)) {
            Some((x, tail)) => read matches Some(r) && r.0 == x && at <= r.1 <= data@.len()
                && rest(data@, r.1 as int) == tail,
            None => read is None,
        },
{
    if data.len() - at < 1 {
        return None;
    }
    assert(rest(data@, at as int).subrange(1, rest(data@, at as int).len() as int) =~= rest(
        data@,
        at + 1,
    ));
    Some((data[at], at + 1))
}

/// Reads a number of four bytes at place `at`.
pub fn read_u32(data: &Vec<u8>, at: usize) -> (read: Option<(u32, usize)>)
    requires
        at <= data@.len(),
    ensures
        match dec_u32(rest(data@, at as int)) {
            Some((x, tail)) => read matches Some(r) && r.0 == x && at <= r.1 <= data@.len()
                && rest(data@, r.1 as int) == tail,
            None => read is None,
        },
{
    if data.len() - at < 4 {
        return None;
    }
    let head = copy_range(data, at, at + 4);
    assert(head@ =~= rest(data@, at as int).subrange(0, 4));
    assert(rest(data@, at as int).subrange(4, rest(data@, at as int).len() as int) =~= rest(
        data@,
        at + 4,
    ));
    Some((u32_from_le_bytes(head.as_slice()), at + 4))
}

/// Reads a number of eight bytes at place `at`.
pub fn read_u64(data: &Vec<u8>, at: usize) -> (read: Option<(u64, usize)>)
    requires
        at <= data@.len(),
    ensures
        match dec_u64(rest(data@, at as int)) {
            Some((x, tail)) => read matches Some(r) && r.0 == x && at <= r.1 <= data@.len()
                && rest(data@, r.1 as int) == tail,
            None => read is None,
        },
{
    if data.len() - at < 8 {
        return None;
    }
    let head = copy_range(data, at, at + 8);
    assert(head@ =~= rest(data@, at as int).subrange(0, 8));
    assert(rest(data@, at as int).subrange(8, rest(data@, at as int).len() as int) =~= rest(
        data@,
        at + 8,
    ));
    Some((u64_from_le_bytes(head.as_slice()), at + 8))
}

/// Reads a byte string at place `at`.
pub fn read_bytes(data: &Vec<u8>, at: usize) -> (read: Option<(Vec<u8>, usize)>)
    requires
        at <= data@.len(),
    ensures
        match dec_bytes(rest(data@, at as int)) {
            Some((b, tail)) => read matches Some(r) && r.0@ == b && at <= r.1 <= data@.len()
                && rest(data@, r.1 as int) == tail,
            None => read is None,
        },
{
    let (n, start) = match read_u32(data, at) {
        Some(r) => r,
        None => {
            return None;
        },
    };
    if data.len() - start < n as usize {
        return None;
    }
    let end: usize = start + n as usize;
    let b = copy_range(data, start, end);
    assert(b@ =~= rest(data@, start as int).subrange(0, n as int));
    assert(rest(data@, start as int).subrange(n as int, rest(data@, start as int).len() as int)
        =~= rest(data@, end as int));
    Some((b, end))
}

/// A complete frame at the start of what was received: the payload and the
/// number of bytes that the frame takes.
pub open spec fn spec_unframe(received: Seq<u8>) -> Option<(Seq<u8>, int)> {
    match dec_bytes(received) {
        Some((payload, tail)) => Some((payload, received.len() - tail.len())),
        None => None,
    }
}

/// Puts a payload into a frame: its length, then the payload. `None` where
/// the length cannot be written.
pub fn frame(payload: &Vec<u8>) -> (framed: Option<Vec<u8>>)
    ensures
        framed is Some <==> payload@.len() <= u32::MAX,
        framed matches Some(f) ==> f@ == enc_bytes(payload@) && spec_unframe(f@) == Some(
            (payload@, f@.len() as int),
        ),
{
    let mut framed: Vec<u8> = Vec::new();
    if write_bytes(&mut framed, payload) {
        proof {
            lemma_bytes_round_trip(payload@, Seq::<u8>::empty());
            assert(enc_bytes(payload@) + Seq::<u8>::empty() =~= enc_bytes(payload@));
            assert(framed@ =~= enc_bytes(payload@));
        }
        Some(framed)
    } else {
        None
    }
}

/// Takes the first frame from what was received, where it is complete:
/// the payload and the number of bytes to drop. `None` where more bytes
/// must be received first.
pub fn unframe(received: &Vec<u8>) -> (taken: Option<(Vec<u8>, usize)>)
    ensures
        match spec_unframe(received@) {
            Some((payload, used)) => taken matches Some(t) && t.0@ == payload && t.1 == used,
            None => taken is None,
        },
{
    assert(rest(received@, 0) =~= received@);
    match read_bytes(received, 0) {
        Some((payload, end)) => Some((payload, end)),
        None => None,
    }
}

} // verus!
