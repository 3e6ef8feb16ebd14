use vstd::prelude::*;

verus! {

use crate::errors::PipelineError;
use vstd::bytes::spec_u32_from_le_bytes;
use vstd::bytes::spec_u32_to_le_bytes;
use vstd::bytes::u32_from_le_bytes;
use vstd::bytes::u32_to_le_bytes;

/// The little-endian byte image of a sequence of 32-bit words, in index order.
pub open spec fn words_to_bytes(ws: Seq<u32>) -> Seq<u8>
    decreases ws.len(),
{
    if ws.len() == 0 {
        Seq::empty()
    } else {
        spec_u32_to_le_bytes(ws[0]) + words_to_bytes(ws.skip(1))
    }
}

/// The 32-bit words read off a byte sequence, four little-endian bytes each.
pub open spec fn bytes_to_words(bs: Seq<u8>) -> Seq<u32>
    decreases bs.len(),
{
    if bs.len() < 4 {
        Seq::empty()
    } else {
        seq![spec_u32_from_le_bytes(bs.take(4))] + bytes_to_words(bs.skip(4))
    }
}

/// The full wire image: `count` as four little-endian bytes, then the words
/// of `a` in index order, then the words of `b` in index order.
pub open spec fn encoded_bytes(count: u32, a: Seq<u32>, b: Seq<u32>) -> Seq<u8> {
    spec_u32_to_le_bytes(count) + words_to_bytes(a) + words_to_bytes(b)
}

/// What decoding yields on a byte sequence, for per-row word widths
/// `wa` and `wb`: the header count, then `count * wa` words for the first
/// array and `count * wb` words for the second. `None` when the byte length
/// is smaller than the header implies.
pub open spec fn decoded(bs: Seq<u8>, wa: nat, wb: nat) -> Option<(u32, Seq<u32>, Seq<u32>)> {
    if bs.len() < 4 {
        None
    } else {
        let count = spec_u32_from_le_bytes(bs.take(4));
        let na = count * wa;
        let nb = count * wb;
        if 4 + na * 4 + nb * 4 <= bs.len() {
            Some(
                (
                    count,
                    bytes_to_words(bs.subrange(4, 4 + na * 4)),
                    bytes_to_words(bs.subrange(4 + na * 4, 4 + na * 4 + nb * 4)),
                ),
            )
        } else {
            None
        }
    }
}

pub broadcast proof fn lemma_words_to_bytes_len(ws: Seq<u32>)
    ensures
        #[trigger] words_to_bytes(ws).len() == 4 * ws.len(),
    decreases ws.len(),
{
    vstd::bytes::lemma_auto_spec_u32_to_from_le_bytes();
    if ws.len() > 0 {
        lemma_words_to_bytes_len(ws.skip(1));
    }
}

pub proof fn lemma_words_to_bytes_concat(s: Seq<u32>, t: Seq<u32>)
    ensures
        words_to_bytes(s + t) == words_to_bytes(s) + words_to_bytes(t),
    decreases s.len(),
{
    if s.len() == 0 {
        assert(s + t =~= t);
        assert(words_to_bytes(s) + words_to_bytes(t) =~= words_to_bytes(t));
    } else {
        assert((s + t).skip(1) =~= s.skip(1) + t);
        lemma_words_to_bytes_concat(s.skip(1), t);
        assert(words_to_bytes(s + t) =~= words_to_bytes(s) + words_to_bytes(t));
    }
}

pub proof fn lemma_words_to_bytes_single(x: u32)
    ensures
        words_to_bytes(seq![x]) == spec_u32_to_le_bytes(x),
{
    assert(seq![x].skip(1) =~= Seq::<u32>::empty());
    assert(words_to_bytes(seq![x].skip(1)) =~= Seq::<u8>::empty());
    assert(words_to_bytes(seq![x]) =~= spec_u32_to_le_bytes(x));
}

/// Reading the words back off a word image yields the words themselves.
pub proof fn lemma_bytes_to_words_inverse(ws: Seq<u32>)
    ensures
        bytes_to_words(words_to_bytes(ws)) == ws,
    decreases ws.len(),
{
    vstd::bytes::lemma_auto_spec_u32_to_from_le_bytes();
    if ws.len() == 0 {
        assert(bytes_to_words(words_to_bytes(ws)) =~= ws);
    } else {
        let bs = words_to_bytes(ws);
        lemma_words_to_bytes_len(ws.skip(1));
        assert(bs.take(4) =~= spec_u32_to_le_bytes(ws[0]));
        assert(bs.skip(4) =~= words_to_bytes(ws.skip(1)));
        lemma_bytes_to_words_inverse(ws.skip(1));
        assert(bytes_to_words(bs) =~= ws);
    }
}

/// Writes `count` as four little-endian bytes followed by the words of `a`
/// and then the words of `b`, each in index order. The result is always
/// exactly `4 + 4 * a.len() + 4 * b.len()` bytes long.
pub fn encode_words(count: u32, a: &Vec<u32>, b: &Vec<u32>) -> (r: Vec<u8>)
    requires
        4 + a@.len() * 4 + b@.len() * 4 <= usize::MAX,
    ensures
        r@ == encoded_bytes(count, a@, b@),
        r@.len() == 4 + 4 * a@.len() + 4 * b@.len(),
{
    proof {
        lemma_words_to_bytes_len(a@);
        lemma_words_to_bytes_len(b@);
    }
    let mut out: Vec<u8> = u32_to_le_bytes(count);
    push_words(&mut out, a);
    push_words(&mut out, b);
    proof {
        assert(out@ =~= encoded_bytes(count, a@, b@));
    }
    out
}

fn push_words(out: &mut Vec<u8>, ws: &Vec<u32>)
    requires
        old(out)@.len() + ws@.len() * 4 <= usize::MAX,
    ensures
        final(out)@ == old(out)@ + words_to_bytes(ws@),
{
    proof {
        lemma_words_to_bytes_len(ws@);
    }
    let mut i: usize = 0;
    while i < ws.len()
        invariant
            i <= ws@.len(),
            old(out)@.len() + ws@.len() * 4 <= usize::MAX,
            out@ == old(out)@ + words_to_bytes(ws@.take(i as int)),
        decreases ws@.len() - i,
    {
        proof {
            lemma_words_to_bytes_len(ws@.take(i as int));
        }
        let mut bs = u32_to_le_bytes(ws[i]);
        out.append(&mut bs);
        proof {
            assert(ws@.take(i + 1) =~= ws@.take(i as int) + seq![ws@[i as int]]);
            lemma_words_to_bytes_concat(ws@.take(i as int), seq![ws@[i as int]]);
            lemma_words_to_bytes_single(ws@[i as int]);
            assert(out@ =~= old(out)@ + words_to_bytes(ws@.take(i + 1)));
        }
        i += 1;
    }
    proof {
        assert(ws@.take(ws@.len() as int) =~= ws@);
    }
}

/// Reads `n` words of four little-endian bytes each from `bytes`,
/// starting at `start`.
fn read_words(bytes: &Vec<u8>, start: usize, n: usize) -> (r: Vec<u32>)
    requires
        start + n * 4 <= bytes@.len(),
    ensures
        r@.len() == n,
        words_to_bytes(r@) == bytes@.subrange(start as int, start + n * 4),
{
    let blen: usize = bytes.len();
    let mut out: Vec<u32> = Vec::new();
    let mut i: usize = 0;
    while i < n
        invariant
            i <= n,
            start + n * 4 <= bytes@.len(),
            bytes@.len() == blen,
            out@.len() == i,
            words_to_bytes(out@) == bytes@.subrange(start as int, start + i * 4),
        decreases n - i,
    {
        proof {
            vstd::bytes::lemma_auto_spec_u32_to_from_le_bytes();
            lemma_words_to_bytes_len(out@);
            assert(i * 4 + 4 <= n * 4);
        }
        let w = u32_from_le_bytes(
            vstd::slice::slice_subrange(bytes.as_slice(), start + i * 4, start + i * 4 + 4),
        );
        let ghost prev = out@;
        out.push(w);
        proof {
            assert(out@ =~= prev + seq![w]);
            lemma_words_to_bytes_concat(prev, seq![w]);
            lemma_words_to_bytes_single(w);
            assert(spec_u32_to_le_bytes(w) =~= bytes@.subrange(
                start + i * 4,
                start + i * 4 + 4,
            ));
            assert(bytes@.subrange(start as int, start + i * 4) + bytes@.subrange(
                start + i * 4,
                start + i * 4 + 4,
            ) =~= bytes@.subrange(start as int, start + (i + 1) * 4));
            assert(words_to_bytes(out@) =~= bytes@.subrange(start as int, start + (i + 1) * 4));
        }
        i += 1;
    }
    out
}

/// Reads the four-byte little-endian count, then `count * wa` words for the
/// first array and `count * wb` words for the second; the two widths are
/// per-row word counts, a handful in every layout here. Fails exactly when
/// the byte length is smaller than the header implies.
pub fn decode_words(bytes: &Vec<u8>, wa: usize, wb: usize) -> (r: Result<
    (u32, Vec<u32>, Vec<u32>),
    PipelineError,
>)
    requires
        wa + wb <= 16,
    ensures
        match r {
            Ok((count, a, b)) => decoded(bytes@, wa as nat, wb as nat) == Some((count, a@, b@))
                && a@.len() == count * wa && b@.len() == count * wb,
            Err(e) => decoded(bytes@, wa as nat, wb as nat) is None && e is MalformedBuffer,
        },
{
    if bytes.len() < 4 {
        return Err(PipelineError::MalformedBuffer);
    }
    let count = u32_from_le_bytes(vstd::slice::slice_subrange(bytes.as_slice(), 0, 4));
    proof {
        assert(bytes@.subrange(0, 4) =~= bytes@.take(4));
    }
    proof {
        assert((count as u64) * (wa as u64) <= 0xffff_ffffu64 * 16 && (count as u64) * (wb
            as u64) <= 0xffff_ffffu64 * 16) by (nonlinear_arith)
            requires
                count as u64 <= 0xffff_ffffu64,
                wa as u64 + wb as u64 <= 16,
        ;
    }
    let na64: u64 = (count as u64) * (wa as u64);
    let nb64: u64 = (count as u64) * (wb as u64);
    if (bytes.len() as u64) < 4 + na64 * 4 + nb64 * 4 {
        return Err(PipelineError::MalformedBuffer);
    }
    let na = na64 as usize;
    let nb = nb64 as usize;
    let a = read_words(bytes, 4, na);
    let b = read_words(bytes, 4 + na * 4, nb);
    proof {
        lemma_bytes_to_words_inverse(a@);
        lemma_bytes_to_words_inverse(b@);
    }
    Ok((count, a, b))
}

/// Law: decoding an encoded buffer gives back exactly the count and the two
/// word arrays that were encoded, whenever the arrays have `count` rows of
/// `wa` and `wb` words each.
pub proof fn lemma_encode_decode_roundtrip(count: u32, a: Seq<u32>, b: Seq<u32>, wa: nat, wb: nat)
    requires
        a.len() == count * wa,
        b.len() == count * wb,
    ensures
        decoded(encoded_bytes(count, a, b), wa, wb) == Some((count, a, b)),
{
    vstd::bytes::lemma_auto_spec_u32_to_from_le_bytes();
    let bs = encoded_bytes(count, a, b);
    lemma_words_to_bytes_len(a);
    lemma_words_to_bytes_len(b);
    assert(bs.take(4) =~= spec_u32_to_le_bytes(count));
    assert(bs.subrange(4, 4 + (count * wa) * 4) =~= words_to_bytes(a));
    assert(bs.subrange(4 + (count * wa) * 4, 4 + (count * wa) * 4 + (count * wb) * 4)
        =~= words_to_bytes(b));
    lemma_bytes_to_words_inverse(a);
    lemma_bytes_to_words_inverse(b);
}

} // verus!
