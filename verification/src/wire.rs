//! Little-endian wire primitives for the frame codec: 64-bit integers,
//! length-prefixed byte strings, and length-prefixed lists of byte strings.
//!
//! Each primitive has a specification-level encoder (`enc_*`), a
//! specification-level decoder (`dec_*`) working on a buffer and a position,
//! executable counterparts proved against them, and a lemma showing that the
//! decoder inverts the encoder wherever the encoding stands in a buffer.

use vstd::prelude::*;

verus! {

// ---------------------------------------------------------------------------
// 64-bit unsigned integers, little endian
// ---------------------------------------------------------------------------

/// The eight little-endian bytes of `n`.
#[verifier::opaque]
pub open spec fn enc_u64(n: u64) -> Seq<u8> {
    seq![
        (n & 0xff) as u8,
        ((n >> 8) & 0xff) as u8,
        ((n >> 16) & 0xff) as u8,
        ((n >> 24) & 0xff) as u8,
        ((n >> 32) & 0xff) as u8,
        ((n >> 40) & 0xff) as u8,
        ((n >> 48) & 0xff) as u8,
        ((n >> 56) & 0xff) as u8,
    ]
}

/// The integer formed by eight little-endian bytes.
pub open spec fn combine8(b0: u8, b1: u8, b2: u8, b3: u8, b4: u8, b5: u8, b6: u8, b7: u8) -> u64 {
    (b0 as u64) | ((b1 as u64) << 8) | ((b2 as u64) << 16) | ((b3 as u64) << 24)
        | ((b4 as u64) << 32) | ((b5 as u64) << 40) | ((b6 as u64) << 48) | ((b7 as u64) << 56)
}

/// Decode a 64-bit integer at `pos`; `None` when fewer than eight bytes remain.
#[verifier::opaque]
pub open spec fn dec_u64(buf: Seq<u8>, pos: int) -> Option<(u64, int)> {
    if 0 <= pos && pos + 8 <= buf.len() {
        Some(
            (
                combine8(
                    buf[pos],
                    buf[pos + 1],
                    buf[pos + 2],
                    buf[pos + 3],
                    buf[pos + 4],
                    buf[pos + 5],
                    buf[pos + 6],
                    buf[pos + 7],
                ),
                pos + 8,
            ),
        )
    } else {
        None
    }
}

/// An encoded 64-bit integer always occupies eight bytes.
pub broadcast proof fn lemma_enc_u64_len(n: u64)
    ensures
        #[trigger] enc_u64(n).len() == 8,
{
    reveal(enc_u64);
}

/// Each byte of an encoded integer is below 256, so the casts in the
/// encoders never truncate.
pub proof fn lemma_enc_u64_bytes_fit(n: u64)
    ensures
        n & 0xff < 256,
        (n >> 8) & 0xff < 256,
        (n >> 16) & 0xff < 256,
        (n >> 24) & 0xff < 256,
        (n >> 32) & 0xff < 256,
        (n >> 40) & 0xff < 256,
        (n >> 48) & 0xff < 256,
        (n >> 56) & 0xff < 256,
{
    assert(n & 0xff < 256 && (n >> 8) & 0xff < 256 && (n >> 16) & 0xff < 256 && (n >> 24) & 0xff
        < 256 && (n >> 32) & 0xff < 256 && (n >> 40) & 0xff < 256 && (n >> 48) & 0xff < 256 && (n
        >> 56) & 0xff < 256) by (bit_vector);
}

/// Recombining the eight little-endian bytes of `n` gives back `n`.
pub proof fn lemma_combine_enc(n: u64)
    ensures
        combine8(
            enc_u64(n)[0],
            enc_u64(n)[1],
            enc_u64(n)[2],
            enc_u64(n)[3],
            enc_u64(n)[4],
            enc_u64(n)[5],
            enc_u64(n)[6],
            enc_u64(n)[7],
        ) == n,
{
    reveal(enc_u64);
    assert((((n & 0xff) as u8) as u64) | ((((n >> 8) & 0xff) as u8) as u64) << 8 | ((((n >> 16)
        & 0xff) as u8) as u64) << 16 | ((((n >> 24) & 0xff) as u8) as u64) << 24 | ((((n >> 32)
        & 0xff) as u8) as u64) << 32 | ((((n >> 40) & 0xff) as u8) as u64) << 40 | ((((n >> 48)
        & 0xff) as u8) as u64) << 48 | ((((n >> 56) & 0xff) as u8) as u64) << 56 == n)
        by (bit_vector);
}

/// The decoder reads back exactly the integer whose encoding stands at `pos`.
pub proof fn lemma_dec_u64(n: u64, pre: Seq<u8>, post: Seq<u8>)
    ensures
        dec_u64(pre + enc_u64(n) + post, pre.len() as int) == Some(
            (n, pre.len() + 8 as int),
        ),
{
    reveal(enc_u64);
    reveal(dec_u64);
    let buf = pre + enc_u64(n) + post;
    let pos = pre.len() as int;
    assert forall|i: int| 0 <= i < 8 implies buf[pos + i] == enc_u64(n)[i] by {
        assert(buf[pos + i] == (pre + enc_u64(n))[pos + i]);
    }
    lemma_combine_enc(n);
}

/// Append the little-endian encoding of `n`.
pub fn push_u64(out: &mut Vec<u8>, n: u64)
    ensures
        final(out)@ == old(out)@ + enc_u64(n),
{
    proof {
        reveal(enc_u64);
        lemma_enc_u64_bytes_fit(n);
    }
    out.push((n & 0xff) as u8);
    out.push(((n >> 8) & 0xff) as u8);
    out.push(((n >> 16) & 0xff) as u8);
    out.push(((n >> 24) & 0xff) as u8);
    out.push(((n >> 32) & 0xff) as u8);
    out.push(((n >> 40) & 0xff) as u8);
    out.push(((n >> 48) & 0xff) as u8);
    out.push(((n >> 56) & 0xff) as u8);
    proof {
        assert(out@ =~= old(out)@ + enc_u64(n));
    }
}

/// Read a 64-bit integer at `pos`, following `dec_u64`.
pub fn read_u64(buf: &Vec<u8>, pos: usize) -> (r: Option<(u64, usize)>)
    ensures
        match r {
            Some((n, p2)) => dec_u64(buf@, pos as int) == Some((n, p2 as int)),
            None => dec_u64(buf@, pos as int) is None,
        },
{
    proof {
        reveal(dec_u64);
    }
    if pos <= buf.len() && buf.len() - pos >= 8 {
        let b0 = buf[pos];
        let b1 = buf[pos + 1];
        let b2 = buf[pos + 2];
        let b3 = buf[pos + 3];
        let b4 = buf[pos + 4];
        let b5 = buf[pos + 5];
        let b6 = buf[pos + 6];
        let b7 = buf[pos + 7];
        let n: u64 = (b0 as u64) | ((b1 as u64) << 8) | ((b2 as u64) << 16) | ((b3 as u64) << 24)
            | ((b4 as u64) << 32) | ((b5 as u64) << 40) | ((b6 as u64) << 48) | ((b7 as u64) << 56);
        Some((n, pos + 8))
    } else {
        None
    }
}

// ---------------------------------------------------------------------------
// Length-prefixed byte strings
// ---------------------------------------------------------------------------

/// A byte string on the wire: its length, then its bytes.
pub open spec fn enc_bytes(b: Seq<u8>) -> Seq<u8> {
    enc_u64(b.len() as u64) + b
}

/// Decode a length-prefixed byte string at `pos`.
pub open spec fn dec_bytes(buf: Seq<u8>, pos: int) -> Option<(Seq<u8>, int)> {
    match dec_u64(buf, pos) {
        Some((n, p2)) => if p2 + n <= buf.len() {
            Some((buf.subrange(p2, p2 + n), p2 + n))
        } else {
            None
        },
        None => None,
    }
}

/// The decoder reads back exactly the byte string whose encoding stands at `pos`.
pub proof fn lemma_dec_bytes(b: Seq<u8>, pre: Seq<u8>, post: Seq<u8>)
    requires
        b.len() <= u64::MAX,
    ensures
        dec_bytes(pre + enc_bytes(b) + post, pre.len() as int) == Some(
            (b, (pre.len() + 8 + b.len()) as int),
        ),
{
    lemma_enc_u64_len(b.len() as u64);
    let buf = pre + enc_bytes(b) + post;
    let pos = pre.len() as int;
    assert(buf =~= pre + enc_u64(b.len() as u64) + (b + post));
    lemma_dec_u64(b.len() as u64, pre, b + post);
    assert(dec_u64(buf, pos) == Some((b.len() as u64, pos + 8)));
    assert(buf.subrange(pos + 8, pos + 8 + b.len()) =~= b);
}

/// Append the encoding of a byte string.
pub fn push_bytes(out: &mut Vec<u8>, b: &Vec<u8>)
    ensures
        final(out)@ == old(out)@ + enc_bytes(b@),
{
    push_u64(out, b.len() as u64);
    out.extend_from_slice(b.as_slice());
    proof {
        lemma_enc_u64_len(b@.len() as u64);
        assert(out@ =~= old(out)@ + enc_bytes(b@));
    }
}

/// Read a length-prefixed byte string at `pos`, following `dec_bytes`.
pub fn read_bytes(buf: &Vec<u8>, pos: usize) -> (r: Option<(Vec<u8>, usize)>)
    ensures
        match r {
            Some((b, p2)) => dec_bytes(buf@, pos as int) == Some((b@, p2 as int)),
            None => dec_bytes(buf@, pos as int) is None,
        },
{
    match read_u64(buf, pos) {
        None => None,
        Some((n, p2)) => {
            proof {
                reveal(dec_u64);
            }
            if n <= (buf.len() - p2) as u64 {
                let len = n as usize;
                let end = p2 + len;
                let mut b: Vec<u8> = Vec::new();
                let mut i = p2;
                while i < end
                    invariant
                        p2 <= i <= end,
                        end <= buf.len(),
                        b@ == buf@.subrange(p2 as int, i as int),
                    decreases end - i,
                {
                    b.push(buf[i]);
                    proof {
                        assert(b@ =~= buf@.subrange(p2 as int, i + 1 as int));
                    }
                    i += 1;
                }
                Some((b, end))
            } else {
                None
            }
        },
    }
}

// ---------------------------------------------------------------------------
// Length-prefixed lists of byte strings
// ---------------------------------------------------------------------------

/// The concatenated encodings of the items of `l`.
pub open spec fn enc_items(l: Seq<Seq<u8>>) -> Seq<u8>
    decreases l.len(),
{
    if l.len() == 0 {
        Seq::empty()
    } else {
        enc_bytes(l[0]) + enc_items(l.drop_first())
    }
}

/// A list on the wire: its item count, then each item length-prefixed.
pub open spec fn enc_list(l: Seq<Seq<u8>>) -> Seq<u8> {
    enc_u64(l.len() as u64) + enc_items(l)
}

/// Decode `count` length-prefixed items starting at `pos`.
pub open spec fn dec_items(buf: Seq<u8>, pos: int, count: nat) -> Option<(Seq<Seq<u8>>, int)>
    decreases count,
{
    if count == 0 {
        Some((Seq::empty(), pos))
    } else {
        match dec_bytes(buf, pos) {
            Some((b, p2)) => match dec_items(buf, p2, (count - 1) as nat) {
                Some((l, p3)) => Some((seq![b] + l, p3)),
                None => None,
            },
            None => None,
        }
    }
}

/// Decode a length-prefixed list at `pos`.
pub open spec fn dec_list(buf: Seq<u8>, pos: int) -> Option<(Seq<Seq<u8>>, int)> {
    match dec_u64(buf, pos) {
        Some((n, p2)) => dec_items(buf, p2, n as nat),
        None => None,
    }
}

/// Encoding distributes over appending one item at the end.
pub proof fn lemma_enc_items_push(l: Seq<Seq<u8>>, b: Seq<u8>)
    ensures
        enc_items(l.push(b)) == enc_items(l) + enc_bytes(b),
    decreases l.len(),
{
    let lp = l.push(b);
    lemma_enc_u64_len(b.len() as u64);
    if l.len() == 0 {
        assert(lp[0] == b);
        assert(lp.drop_first() =~= Seq::<Seq<u8>>::empty());
        assert(enc_items(lp.drop_first()) == Seq::<u8>::empty());
        assert(enc_items(lp) == enc_bytes(b) + enc_items(lp.drop_first()));
        assert(enc_items(lp) =~= enc_items(l) + enc_bytes(b));
    } else {
        assert(lp[0] == l[0]);
        assert(lp.drop_first() =~= l.drop_first().push(b));
        lemma_enc_items_push(l.drop_first(), b);
        assert(enc_items(lp) == enc_bytes(l[0]) + enc_items(lp.drop_first()));
        assert(enc_items(l) == enc_bytes(l[0]) + enc_items(l.drop_first()));
        assert(enc_items(lp) =~= enc_items(l) + enc_bytes(b));
    }
}

/// The item decoder reads back exactly the items whose encodings stand at `pos`.
pub proof fn lemma_dec_items(l: Seq<Seq<u8>>, pre: Seq<u8>, post: Seq<u8>)
    requires
        forall|i: int| 0 <= i < l.len() ==> #[trigger] l[i].len() <= u64::MAX,
    ensures
        dec_items(pre + enc_items(l) + post, pre.len() as int, l.len()) == Some(
            (l, (pre.len() + enc_items(l).len()) as int),
        ),
    decreases l.len(),
{
    let buf = pre + enc_items(l) + post;
    let pos = pre.len() as int;
    if l.len() == 0 {
        assert(l =~= Seq::<Seq<u8>>::empty());
        assert(dec_items(buf, pos, 0) == Some((Seq::<Seq<u8>>::empty(), pos)));
    } else {
        let b0 = l[0];
        let rest = l.drop_first();
        lemma_enc_u64_len(b0.len() as u64);
        assert(buf =~= pre + enc_bytes(b0) + (enc_items(rest) + post));
        lemma_dec_bytes(b0, pre, enc_items(rest) + post);
        assert(dec_bytes(buf, pos) == Some((b0, pos + 8 + b0.len())));
        assert(buf =~= (pre + enc_bytes(b0)) + enc_items(rest) + post);
        assert(forall|i: int|
            0 <= i < rest.len() ==> #[trigger] rest[i].len() <= u64::MAX) by {
            assert(forall|i: int| 0 <= i < rest.len() ==> rest[i] == l[i + 1]);
        }
        lemma_dec_items(rest, pre + enc_bytes(b0), post);
        assert((pre + enc_bytes(b0)).len() == pos + 8 + b0.len());
        assert(seq![b0] + rest =~= l);
        assert(enc_items(l).len() == 8 + b0.len() + enc_items(rest).len());
    }
}

/// The list decoder reads back exactly the list whose encoding stands at `pos`.
#[verifier::rlimit(100)]
pub proof fn lemma_dec_list(l: Seq<Seq<u8>>, pre: Seq<u8>, post: Seq<u8>)
    requires
        l.len() <= u64::MAX,
        forall|i: int| 0 <= i < l.len() ==> #[trigger] l[i].len() <= u64::MAX,
    ensures
        dec_list(pre + enc_list(l) + post, pre.len() as int) == Some(
            (l, (pre.len() + enc_list(l).len()) as int),
        ),
{
    let nlen = l.len() as u64;
    lemma_enc_u64_len(nlen);
    let items = enc_items(l);
    let buf = pre + enc_list(l) + post;
    let pos = pre.len() as int;
    assert(pre + enc_list(l) == (pre + enc_u64(nlen)) + items) by {
        vstd::seq_lib::lemma_concat_associative(pre, enc_u64(nlen), items);
    }
    assert(buf == pre + enc_u64(nlen) + (items + post)) by {
        vstd::seq_lib::lemma_concat_associative(pre + enc_u64(nlen), items, post);
        vstd::seq_lib::lemma_concat_associative(pre, enc_u64(nlen), items + post);
        vstd::seq_lib::lemma_concat_associative(enc_u64(nlen), items, post);
        vstd::seq_lib::lemma_concat_associative(pre, enc_u64(nlen) + items, post);
    }
    lemma_dec_u64(nlen, pre, items + post);
    assert(dec_u64(buf, pos) == Some((nlen, pos + 8)));
    lemma_dec_items(l, pre + enc_u64(nlen), post);
    assert((pre + enc_u64(nlen)).len() == pos + 8);
    assert(dec_items(buf, pos + 8, l.len()) == Some((l, (pos + 8 + items.len()) as int)));
    assert(enc_list(l).len() == 8 + items.len());
}

/// Append the encoding of a list of byte strings.
pub fn push_list(out: &mut Vec<u8>, l: &Vec<Vec<u8>>)
    ensures
        final(out)@ == old(out)@ + enc_list(l.deep_view()),
{
    proof {
        lemma_enc_u64_len(l@.len() as u64);
    }
    push_u64(out, l.len() as u64);
    let ghost base = out@;
    let mut i: usize = 0;
    while i < l.len()
        invariant
            i <= l.len(),
            l.deep_view().len() == l@.len(),
            out@ == base + enc_items(l.deep_view().take(i as int)),
        decreases l.len() - i,
    {
        push_bytes(out, &l[i]);
        proof {
            lemma_enc_items_push(l.deep_view().take(i as int), l.deep_view()[i as int]);
            assert(l.deep_view().take(i + 1 as int) =~= l.deep_view().take(i as int).push(
                l.deep_view()[i as int],
            ));
            assert(l.deep_view()[i as int] =~= l@[i as int]@);
        }
        i += 1;
    }
    proof {
        assert(l.deep_view().take(l.len() as int) =~= l.deep_view());
        assert(out@ =~= old(out)@ + enc_list(l.deep_view()));
    }
}

/// Read a length-prefixed list at `pos`, following `dec_list`.
pub fn read_list(buf: &Vec<u8>, pos: usize) -> (r: Option<(Vec<Vec<u8>>, usize)>)
    ensures
        match r {
            Some((l, p2)) => dec_list(buf@, pos as int) == Some((l.deep_view(), p2 as int)),
            None => dec_list(buf@, pos as int) is None,
        },
{
    match read_u64(buf, pos) {
        None => None,
        Some((n, p2)) => {
            let mut out: Vec<Vec<u8>> = Vec::new();
            let mut p = p2;
            let mut k: u64 = 0;
            proof {
                assert(out.deep_view() =~~= Seq::<Seq<u8>>::empty());
                match dec_items(buf@, p2 as int, n as nat) {
                    Some((l2, _p3)) => {
                        assert(Seq::<Seq<u8>>::empty() + l2 =~= l2);
                    },
                    None => {},
                }
            }
            loop
                invariant
                    k <= n,
                    out.deep_view().len() == out@.len(),
                    dec_u64(buf@, pos as int) == Some((n, p2 as int)),
                    match dec_items(buf@, p as int, (n - k) as nat) {
                        Some((l2, p3)) => dec_items(buf@, p2 as int, n as nat) == Some(
                            (out.deep_view() + l2, p3),
                        ),
                        None => dec_items(buf@, p2 as int, n as nat) is None,
                    },
                decreases n - k,
            {
                if k == n {
                    proof {
                        assert(out.deep_view() + Seq::<Seq<u8>>::empty() =~= out.deep_view());
                    }
                    return Some((out, p));
                }
                match read_bytes(buf, p) {
                    None => {
                        return None;
                    },
                    Some((b, p3)) => {
                        let ghost prev = out.deep_view();
                        let ghost rem = (n - k) as nat;
                        let ghost bv = b@;
                        out.push(b);
                        proof {
                            assert(out.deep_view() =~~= prev.push(bv));
                            assert(dec_items(buf@, p as int, rem) == (match dec_bytes(
                                buf@,
                                p as int,
                            ) {
                                Some((b2, q2)) => match dec_items(buf@, q2, (rem - 1) as nat) {
                                    Some((l2, q3)) => Some((seq![b2] + l2, q3)),
                                    None => None,
                                },
                                None => None,
                            }));
                            match dec_items(buf@, p3 as int, (rem - 1) as nat) {
                                Some((l2, _q3)) => {
                                    assert(prev + (seq![bv] + l2) =~= prev.push(bv) + l2);
                                },
                                None => {},
                            }
                        }
                        p = p3;
                        k = k + 1;
                    },
                }
            }
        },
    }
}

} // verus!
