//! Framing of length-prefixed boxes on an accumulating byte buffer.
use vstd::prelude::*;

use crate::error::Error;

verus! {

/// The big-endian integer held by `s[i..i + 4]`.
pub open spec fn be_u32(s: Seq<u8>, i: int) -> int {
    s[i] * 0x1000000 + s[i + 1] * 0x10000 + s[i + 2] * 0x100 + s[i + 3]
}

/// The big-endian integer held by `s[i..i + 8]`.
pub open spec fn be_u64(s: Seq<u8>, i: int) -> int {
    be_u32(s, i) * 0x100000000 + be_u32(s, i + 4)
}

/// What the front of a buffer holds.
pub enum Framing {
    /// Not enough bytes yet to know, or to hold, the first box.
    Incomplete,
    /// The header of the first box holds an impossible size.
    Malformed,
    /// The first box is complete and has this many bytes.
    Complete(nat),
}

/// How the front of `buf` is framed: 4-byte size, 4-byte tag, and for size 1
/// an 8-byte extended size of at least 16.
pub open spec fn framing(buf: Seq<u8>) -> Framing {
    if buf.len() < 8 {
        Framing::Incomplete
    } else {
        let size = be_u32(buf, 0);
        if size == 0 {
            Framing::Malformed
        } else if size == 1 {
            if buf.len() < 16 {
                Framing::Incomplete
            } else {
                let ext = be_u64(buf, 8);
                if ext < 16 {
                    Framing::Malformed
                } else if buf.len() < ext {
                    Framing::Incomplete
                } else {
                    Framing::Complete(ext as nat)
                }
            }
        } else if size < 8 {
            Framing::Malformed
        } else if buf.len() < size {
            Framing::Incomplete
        } else {
            Framing::Complete(size as nat)
        }
    }
}

/// `b` is exactly one well-formed box.
pub open spec fn is_box(b: Seq<u8>) -> bool {
    framing(b) == Framing::Complete(b.len())
}

/// The four-byte type tag of a box.
pub open spec fn box_type(b: Seq<u8>) -> int {
    be_u32(b, 4)
}

/// Two buffers that agree on their first `k` bytes.
pub open spec fn same_front(a: Seq<u8>, b: Seq<u8>, k: int) -> bool {
    k <= a.len() && k <= b.len() && forall|i: int| 0 <= i < k ==> a[i] == b[i]
}

proof fn lemma_header_agrees(a: Seq<u8>, b: Seq<u8>)
    requires
        same_front(a, b, 8),
    ensures
        be_u32(a, 0) == be_u32(b, 0),
        be_u32(a, 4) == be_u32(b, 4),
{
    assert(a[0] == b[0] && a[1] == b[1] && a[2] == b[2] && a[3] == b[3]);
    assert(a[4] == b[4] && a[5] == b[5] && a[6] == b[6] && a[7] == b[7]);
}

proof fn lemma_ext_agrees(a: Seq<u8>, b: Seq<u8>)
    requires
        same_front(a, b, 16),
    ensures
        be_u64(a, 8) == be_u64(b, 8),
{
    assert(a[8] == b[8] && a[9] == b[9] && a[10] == b[10] && a[11] == b[11]);
    assert(a[12] == b[12] && a[13] == b[13] && a[14] == b[14] && a[15] == b[15]);
}

/// A strict prefix of a well-formed box is incomplete: the reader neither
/// consumes it nor reports an error.
pub proof fn lemma_prefix_incomplete(b: Seq<u8>, k: int)
    requires
        is_box(b),
        0 <= k < b.len(),
    ensures
        framing(b.subrange(0, k)) == Framing::Incomplete,
{
    let p = b.subrange(0, k);
    if k >= 8 {
        lemma_header_agrees(p, b);
        if be_u32(b, 0) == 1 && k >= 16 {
            lemma_ext_agrees(p, b);
        }
    }
}

/// A well-formed box at the front of a buffer is cut whole, whatever follows.
pub proof fn lemma_box_front(b: Seq<u8>, rest: Seq<u8>)
    requires
        is_box(b),
    ensures
        framing(b + rest) == Framing::Complete(b.len()),
{
    let s = b + rest;
    assert(b.len() >= 8);
    lemma_header_agrees(s, b);
    if be_u32(b, 0) == 1 {
        lemma_ext_agrees(s, b);
    }
}

/// The bytes of a sequence of boxes, one after another.
pub open spec fn concat(bs: Seq<Seq<u8>>) -> Seq<u8>
    decreases bs.len(),
{
    if bs.len() == 0 {
        Seq::empty()
    } else {
        bs[0] + concat(bs.drop_first())
    }
}

/// Every element is one well-formed box.
pub open spec fn all_boxes(bs: Seq<Seq<u8>>) -> bool {
    forall|i: int| 0 <= i < bs.len() ==> is_box(#[trigger] bs[i])
}

/// What repeated reads cut from `buf` until one is not complete: the boxes,
/// in order, and the bytes left.
pub open spec fn cut_all(buf: Seq<u8>) -> (Seq<Seq<u8>>, Seq<u8>)
    decreases buf.len(),
{
    match framing(buf) {
        Framing::Complete(n) => if 0 < n <= buf.len() {
            let rest = cut_all(buf.subrange(n as int, buf.len() as int));
            (seq![buf.subrange(0, n as int)] + rest.0, rest.1)
        } else {
            (Seq::empty(), buf)
        },
        _ => (Seq::empty(), buf),
    }
}

/// Receiving `chunks` one after another into a buffer, and cutting every
/// complete box after each: the boxes cut, in order, and the bytes left.
pub open spec fn feed(chunks: Seq<Seq<u8>>) -> (Seq<Seq<u8>>, Seq<u8>)
    decreases chunks.len(),
{
    if chunks.len() == 0 {
        (Seq::empty(), Seq::empty())
    } else {
        let prev = feed(chunks.drop_last());
        let now = cut_all(prev.1 + chunks.last());
        (prev.0 + now.0, now.1)
    }
}

proof fn lemma_concat_append(x: Seq<Seq<u8>>, y: Seq<Seq<u8>>)
    ensures
        concat(x + y) == concat(x) + concat(y),
    decreases x.len(),
{
    if x.len() == 0 {
        assert(x + y =~= y);
        assert(concat(x) + concat(y) =~= concat(y));
    } else {
        assert((x + y).drop_first() =~= x.drop_first() + y);
        lemma_concat_append(x.drop_first(), y);
        assert(concat(x + y) =~= concat(x) + concat(y));
    }
}

proof fn lemma_concat_split(bs: Seq<Seq<u8>>, j: int)
    requires
        0 <= j <= bs.len(),
    ensures
        concat(bs) == concat(bs.take(j)) + concat(bs.skip(j)),
        j < bs.len() ==> concat(bs.take(j)).len() + bs[j].len() <= concat(bs).len(),
{
    assert(bs =~= bs.take(j) + bs.skip(j));
    lemma_concat_append(bs.take(j), bs.skip(j));
    if j < bs.len() {
        assert(bs.skip(j)[0] == bs[j]);
    }
}

/// Cutting a prefix of a run of boxes yields the boxes wholly inside it, and
/// leaves a strict prefix of the next one.
proof fn lemma_cut_prefix(bs: Seq<Seq<u8>>, m: int) -> (j: int)
    requires
        all_boxes(bs),
        0 <= m <= concat(bs).len(),
    ensures
        0 <= j <= bs.len(),
        concat(bs.take(j)).len() <= m,
        cut_all(concat(bs).take(m)) == (bs.take(j), concat(bs).subrange(concat(bs.take(j)).len() as int, m)),
        j < bs.len() ==> m < concat(bs.take(j)).len() + bs[j].len(),
        j == bs.len() ==> m == concat(bs).len(),
    decreases bs.len(),
{
    let s = concat(bs);
    if bs.len() == 0 {
        assert(s.take(m) =~= Seq::<u8>::empty());
        assert(bs.take(0) =~= Seq::<Seq<u8>>::empty());
        assert(s.subrange(0, m) =~= s.take(m));
        0
    } else {
        let b = bs[0];
        let rest = bs.drop_first();
        assert(is_box(b));
        assert(all_boxes(rest)) by {
            assert forall|i: int| 0 <= i < rest.len() implies is_box(#[trigger] rest[i]) by {
                assert(rest[i] == bs[i + 1]);
            }
        }
        assert(bs.take(0) =~= Seq::<Seq<u8>>::empty());
        if m < b.len() {
            assert(s.take(m) =~= b.subrange(0, m));
            lemma_prefix_incomplete(b, m);
            assert(s.subrange(0, m) =~= s.take(m));
            0
        } else {
            let tail = concat(rest).take(m - b.len());
            assert(s.take(m) =~= b + tail);
            lemma_box_front(b, tail);
            let buf = s.take(m);
            assert(buf.subrange(0, b.len() as int) =~= b);
            assert(buf.subrange(b.len() as int, buf.len() as int) =~= tail);
            let j2 = lemma_cut_prefix(rest, m - b.len());
            let j = j2 + 1;
            assert(bs.take(j).drop_first() =~= rest.take(j2));
            assert(bs.take(j)[0] == b);
            assert(concat(bs.take(j)) == b + concat(rest.take(j2)));
            assert(seq![b] + rest.take(j2) =~= bs.take(j));
            assert(concat(rest).subrange(concat(rest.take(j2)).len() as int, m - b.len()) =~= s.subrange(
                concat(bs.take(j)).len() as int,
                m,
            ));
            if j < bs.len() {
                assert(bs[j] == rest[j2]);
            }
            j
        }
    }
}

/// Box framing does not depend on chunking: however a run of well-formed
/// boxes is split into chunks, receiving the chunks one after another and
/// cutting after each yields exactly those boxes, in order, and leaves
/// nothing.
pub proof fn lemma_any_chunking(bs: Seq<Seq<u8>>, chunks: Seq<Seq<u8>>)
    requires
        all_boxes(bs),
        concat(chunks) == concat(bs),
    ensures
        feed(chunks) == (bs, Seq::<u8>::empty()),
{
    let s = concat(bs);
    assert(s.take(s.len() as int) =~= s);
    let j = lemma_feed_prefix(bs, chunks);
    if j < bs.len() {
        lemma_concat_split(bs, j);
    }
    assert(bs.take(j) =~= bs);
    assert(s.subrange(s.len() as int, s.len() as int) =~= Seq::<u8>::empty());
}

proof fn lemma_feed_prefix(bs: Seq<Seq<u8>>, chunks: Seq<Seq<u8>>) -> (j: int)
    requires
        all_boxes(bs),
        concat(chunks).len() <= concat(bs).len(),
        concat(chunks) == concat(bs).take(concat(chunks).len() as int),
    ensures
        0 <= j <= bs.len(),
        concat(bs.take(j)).len() <= concat(chunks).len(),
        feed(chunks) == (bs.take(j), concat(bs).subrange(concat(bs.take(j)).len() as int, concat(chunks).len() as int)),
        j < bs.len() ==> concat(chunks).len() < concat(bs.take(j)).len() + bs[j].len(),
    decreases chunks.len(),
{
    let s = concat(bs);
    let k = concat(chunks).len() as int;
    if chunks.len() == 0 {
        assert(bs.take(0) =~= Seq::<Seq<u8>>::empty());
        assert(s.subrange(0, 0) =~= Seq::<u8>::empty());
        if bs.len() > 0 {
            assert(is_box(bs[0]));
        }
        0
    } else {
        let init = chunks.drop_last();
        let c = chunks.last();
        assert(chunks =~= init + seq![c]);
        lemma_concat_append(init, seq![c]);
        assert(seq![c].drop_first() =~= Seq::<Seq<u8>>::empty());
        assert(concat(seq![c].drop_first()) == Seq::<u8>::empty());
        assert(concat(seq![c]) =~= c);
        let k0 = concat(init).len() as int;
        assert(concat(init) =~= s.take(k0));
        let j0 = lemma_feed_prefix(bs, init);
        let o0 = concat(bs.take(j0)).len() as int;
        let cs = bs.skip(j0);
        lemma_concat_split(bs, j0);
        assert(all_boxes(cs)) by {
            assert forall|i: int| 0 <= i < cs.len() implies is_box(#[trigger] cs[i]) by {
                assert(cs[i] == bs[i + j0]);
            }
        }
        let m = k - o0;
        let r0 = s.subrange(o0, k0);
        assert(concat(chunks) == concat(init) + c);
        assert forall|i: int| 0 <= i < c.len() implies c[i] == s[k0 + i] by {
            assert(concat(chunks)[k0 + i] == c[i]);
            assert(s.take(k)[k0 + i] == s[k0 + i]);
        }
        assert(r0 + c =~= s.subrange(o0, k));
        assert(s.subrange(o0, k) =~= concat(cs).take(m));
        let j2 = lemma_cut_prefix(cs, m);
        let j = j0 + j2;
        assert(bs.take(j0) + cs.take(j2) =~= bs.take(j));
        lemma_concat_append(bs.take(j0), cs.take(j2));
        assert(concat(cs).subrange(concat(cs.take(j2)).len() as int, m) =~= s.subrange(
            concat(bs.take(j)).len() as int,
            k,
        ));
        if j < bs.len() {
            assert(cs[j2] == bs[j]);
        }
        j
    }
}

/// A complete box at the front of a buffer stays complete, and the same,
/// whatever is appended.
pub proof fn lemma_complete_front(x: Seq<u8>, y: Seq<u8>, n: nat)
    requires
        framing(x) == Framing::Complete(n),
    ensures
        framing(x + y) == Framing::Complete(n),
{
    lemma_header_agrees(x + y, x);
    if be_u32(x, 0) == 1 {
        lemma_ext_agrees(x + y, x);
    }
}

/// Reads the big-endian `u32` at `buf[i..i + 4]`.
pub fn read_u32(buf: &[u8], i: usize) -> (r: u32)
    requires
        i + 4 <= buf@.len(),
    ensures
        r as int == be_u32(buf@, i as int),
{
    (buf[i] as u32) * 0x1000000 + (buf[i + 1] as u32) * 0x10000 + (buf[i + 2] as u32) * 0x100
        + (buf[i + 3] as u32)
}

/// Reads the big-endian `u64` at `buf[i..i + 8]`.
pub fn read_u64(buf: &[u8], i: usize) -> (r: u64)
    requires
        i + 8 <= buf@.len(),
    ensures
        r as int == be_u64(buf@, i as int),
{
    let _n = buf.len();
    let hi = read_u32(buf, i) as u64;
    let lo = read_u32(buf, i + 4) as u64;
    hi * 0x100000000 + lo
}

/// Cuts the first complete box off the front of `buf`.
///
/// Returns `Ok(None)` and leaves `buf` as it is while the box is incomplete,
/// an error (again leaving `buf` alone) when its header holds an impossible
/// size, and otherwise the box's bytes, with `buf` keeping what follows it.
pub fn next_atom(buf: &mut Vec<u8>) -> (r: Result<Option<Vec<u8>>, Error>)
    ensures
        match framing(old(buf)@) {
            Framing::Incomplete => r == Ok::<Option<Vec<u8>>, Error>(None) && final(buf)@
                == old(buf)@,
            Framing::Malformed => r == Err::<Option<Vec<u8>>, Error>(Error::MalformedBox)
                && final(buf)@ == old(buf)@,
            Framing::Complete(n) => r.is_ok() && r.unwrap().is_some() && r.unwrap().unwrap()@
                == old(buf)@.subrange(0, n as int) && final(buf)@ == old(buf)@.subrange(
                n as int,
                old(buf)@.len() as int,
            ),
        },
{
    let len = buf.len();
    if len < 8 {
        return Ok(None);
    }
    let size = read_u32(buf.as_slice(), 0);
    let total: u64;
    if size == 0 {
        return Err(Error::MalformedBox);
    } else if size == 1 {
        if len < 16 {
            return Ok(None);
        }
        let ext = read_u64(buf.as_slice(), 8);
        if ext < 16 {
            return Err(Error::MalformedBox);
        }
        total = ext;
    } else if size < 8 {
        return Err(Error::MalformedBox);
    } else {
        total = size as u64;
    }
    if (len as u64) < total {
        return Ok(None);
    }
    let n = total as usize;
    let mut atom = buf.split_off(n);
    std::mem::swap(buf, &mut atom);
    Ok(Some(atom))
}

/// The bytes of each buffer.
pub open spec fn views(v: Seq<Vec<u8>>) -> Seq<Seq<u8>> {
    v.map_values(|b: Vec<u8>| b@)
}

/// Cuts every complete box off the front of `buf`, in order, until the next
/// one is incomplete; an impossible size ends the reading with an error,
/// leaving `buf` at the offending box.
pub fn read_boxes(buf: &mut Vec<u8>) -> (r: Result<Vec<Vec<u8>>, Error>)
    ensures
        r.is_ok() ==> views(r.unwrap()@) == cut_all(old(buf)@).0 && final(buf)@ == cut_all(
            old(buf)@,
        ).1 && framing(final(buf)@) == Framing::Incomplete,
        r.is_err() ==> r == Err::<Vec<Vec<u8>>, Error>(Error::MalformedBox) && final(buf)@ == cut_all(
            old(buf)@,
        ).1 && framing(final(buf)@) == Framing::Malformed,
{
    let mut got: Vec<Vec<u8>> = Vec::new();
    loop
        invariant
            cut_all(old(buf)@) == (views(got@) + cut_all(buf@).0, cut_all(buf@).1),
        decreases buf@.len(),
    {
        let ghost before = buf@;
        match next_atom(buf) {
            Ok(Some(atom)) => {
                proof {
                    let n = atom@.len();
                    assert(cut_all(before) == (seq![atom@] + cut_all(buf@).0, cut_all(buf@).1));
                    assert(views(got@.push(atom)) =~= views(got@) + seq![atom@]);
                    assert(views(got@) + seq![atom@] + cut_all(buf@).0 =~= views(got@) + (seq![atom@]
                        + cut_all(buf@).0));
                }
                got.push(atom);
            },
            Ok(None) => {
                assert(views(got@) + cut_all(buf@).0 =~= views(got@));
                return Ok(got);
            },
            Err(e) => {
                return Err(e);
            },
        }
    }
}

} // verus!
