//! Payload codecs for the protocol messages: a big-endian `u32` count
//! followed by big-endian `u64` values, or by `(own, next)` share pairs.
use vstd::prelude::*;

use crate::bytes::{
    be_u32, be_u64, lemma_u32_be_roundtrip, lemma_u64_be_roundtrip, push_u32_be, push_u64_be,
    read_u32_be, read_u64_be, u32_be, u64_be,
};
use crate::error::{MpcError, Result};
use crate::secret::{Rep3ShareU64, ShareView};

verus! {

/// The big-endian bytes of each value, one after the other.
pub open spec fn u64s_be(vals: Seq<u64>) -> Seq<u8>
    decreases vals.len(),
{
    if vals.len() == 0 {
        Seq::empty()
    } else {
        u64s_be(vals.drop_last()) + u64_be(vals.last())
    }
}

/// The big-endian bytes of each share's own and next component, one share
/// after the other.
pub open spec fn pairs_be(shares: Seq<ShareView>) -> Seq<u8>
    decreases shares.len(),
{
    if shares.len() == 0 {
        Seq::empty()
    } else {
        pairs_be(shares.drop_last()) + u64_be(shares.last().0) + u64_be(shares.last().1)
    }
}

/// The components of a sequence of shares.
pub open spec fn share_views(shares: Seq<Rep3ShareU64>) -> Seq<ShareView> {
    shares.map_values(|s: Rep3ShareU64| s@)
}

/// Encoding of a vector of values: the count (as a `u32`), then the values.
pub open spec fn encoded_u64_vec(vals: Seq<u64>) -> Seq<u8> {
    u32_be(vals.len() as u32) + u64s_be(vals)
}

/// Encoding of a vector of shares: the count (as a `u32`), then the pairs.
pub open spec fn encoded_share_pairs(shares: Seq<ShareView>) -> Seq<u8> {
    u32_be(shares.len() as u32) + pairs_be(shares)
}

/// The values that a payload holds, if its length matches its count.
pub open spec fn decoded_u64_vec(b: Seq<u8>) -> Option<Seq<u64>> {
    if b.len() < 4 {
        None
    } else if b.len() != 4 + 8 * be_u32(b.subrange(0, 4)) {
        None
    } else {
        Some(
            Seq::new(
                be_u32(b.subrange(0, 4)) as nat,
                |i: int| be_u64(b.subrange(4 + 8 * i, 12 + 8 * i)),
            ),
        )
    }
}

/// The shares that a payload holds, if its length matches its count.
pub open spec fn decoded_share_pairs(b: Seq<u8>) -> Option<Seq<ShareView>> {
    if b.len() < 4 {
        None
    } else if b.len() != 4 + 16 * be_u32(b.subrange(0, 4)) {
        None
    } else {
        Some(
            Seq::new(
                be_u32(b.subrange(0, 4)) as nat,
                |i: int|
                    (
                        be_u64(b.subrange(4 + 16 * i, 12 + 16 * i)),
                        be_u64(b.subrange(12 + 16 * i, 20 + 16 * i)),
                    ),
            ),
        )
    }
}

pub proof fn lemma_u64s_be_layout(vals: Seq<u64>)
    ensures
        u64s_be(vals).len() == 8 * vals.len(),
        forall|i: int|
            0 <= i < vals.len() ==> #[trigger] u64s_be(vals).subrange(8 * i, 8 * i + 8) == u64_be(
                vals[i],
            ),
    decreases vals.len(),
{
    if vals.len() > 0 {
        let init = vals.drop_last();
        lemma_u64s_be_layout(init);
        let whole = u64s_be(vals);
        assert forall|i: int| 0 <= i < vals.len() implies #[trigger] whole.subrange(
            8 * i,
            8 * i + 8,
        ) == u64_be(vals[i]) by {
            if i < init.len() {
                assert(whole.subrange(8 * i, 8 * i + 8) =~= u64s_be(init).subrange(8 * i, 8 * i + 8));
            } else {
                assert(whole.subrange(8 * i, 8 * i + 8) =~= u64_be(vals.last()));
            }
        }
    }
}

pub proof fn lemma_pairs_be_layout(shares: Seq<ShareView>)
    ensures
        pairs_be(shares).len() == 16 * shares.len(),
        forall|i: int|
            0 <= i < shares.len() ==> #[trigger] pairs_be(shares).subrange(16 * i, 16 * i + 8)
                == u64_be(shares[i].0) && pairs_be(shares).subrange(16 * i + 8, 16 * i + 16)
                == u64_be(shares[i].1),
    decreases shares.len(),
{
    if shares.len() > 0 {
        let init = shares.drop_last();
        lemma_pairs_be_layout(init);
        let whole = pairs_be(shares);
        assert forall|i: int| 0 <= i < shares.len() implies #[trigger] whole.subrange(
            16 * i,
            16 * i + 8,
        ) == u64_be(shares[i].0) && whole.subrange(16 * i + 8, 16 * i + 16) == u64_be(
            shares[i].1,
        ) by {
            if i < init.len() {
                assert(whole.subrange(16 * i, 16 * i + 8) =~= pairs_be(init).subrange(
                    16 * i,
                    16 * i + 8,
                ));
                assert(whole.subrange(16 * i + 8, 16 * i + 16) =~= pairs_be(init).subrange(
                    16 * i + 8,
                    16 * i + 16,
                ));
            } else {
                assert(whole.subrange(16 * i, 16 * i + 8) =~= u64_be(shares.last().0));
                assert(whole.subrange(16 * i + 8, 16 * i + 16) =~= u64_be(shares.last().1));
            }
        }
    }
}

/// Decoding an encoded vector of values gives it back, when its length fits
/// the `u32` count.
pub proof fn lemma_u64_vec_roundtrip(vals: Seq<u64>)
    requires
        vals.len() < 0x1_0000_0000,
    ensures
        decoded_u64_vec(encoded_u64_vec(vals)) == Some(vals),
{
    let b = encoded_u64_vec(vals);
    lemma_u64s_be_layout(vals);
    lemma_u32_be_roundtrip(vals.len() as u32);
    assert(b.subrange(0, 4) =~= u32_be(vals.len() as u32));
    let d = Seq::new(vals.len(), |i: int| be_u64(b.subrange(4 + 8 * i, 12 + 8 * i)));
    assert forall|i: int| 0 <= i < vals.len() implies d[i] == vals[i] by {
        assert(b.subrange(4 + 8 * i, 12 + 8 * i) =~= u64s_be(vals).subrange(8 * i, 8 * i + 8));
        lemma_u64_be_roundtrip(vals[i]);
    }
    assert(d =~= vals);
}

/// Decoding encoded shares gives them back, when their number fits the
/// `u32` count.
pub proof fn lemma_share_pairs_roundtrip(shares: Seq<ShareView>)
    requires
        shares.len() < 0x1_0000_0000,
    ensures
        decoded_share_pairs(encoded_share_pairs(shares)) == Some(shares),
{
    let b = encoded_share_pairs(shares);
    lemma_pairs_be_layout(shares);
    lemma_u32_be_roundtrip(shares.len() as u32);
    assert(b.subrange(0, 4) =~= u32_be(shares.len() as u32));
    let d = Seq::new(
        shares.len(),
        |i: int|
            (
                be_u64(b.subrange(4 + 16 * i, 12 + 16 * i)),
                be_u64(b.subrange(12 + 16 * i, 20 + 16 * i)),
            ),
    );
    assert forall|i: int| 0 <= i < shares.len() implies d[i] == shares[i] by {
        assert(b.subrange(4 + 16 * i, 12 + 16 * i) =~= pairs_be(shares).subrange(
            16 * i,
            16 * i + 8,
        ));
        assert(b.subrange(12 + 16 * i, 20 + 16 * i) =~= pairs_be(shares).subrange(
            16 * i + 8,
            16 * i + 16,
        ));
        lemma_u64_be_roundtrip(shares[i].0);
        lemma_u64_be_roundtrip(shares[i].1);
    }
    assert(d =~= shares);
}

pub fn encode_u64_vec(values: &[u64]) -> (r: Vec<u8>)
    ensures
        r@ == encoded_u64_vec(values@),
{
    let mut out: Vec<u8> = Vec::new();
    push_u32_be(&mut out, values.len() as u32);
    let ghost head = out@;
    let mut i: usize = 0;
    while i < values.len()
        invariant
            i <= values@.len(),
            out@ == head + u64s_be(values@.subrange(0, i as int)),
        decreases values@.len() - i,
    {
        push_u64_be(&mut out, values[i]);
        assert(values@.subrange(0, i + 1).drop_last() =~= values@.subrange(0, i as int));
        i = i + 1;
        assert(out@ =~= head + u64s_be(values@.subrange(0, i as int)));
    }
    assert(values@.subrange(0, values@.len() as int) =~= values@);
    out
}

pub fn encode_share_pairs(shares: &[Rep3ShareU64]) -> (r: Vec<u8>)
    ensures
        r@ == encoded_share_pairs(share_views(shares@)),
{
    let ghost views = share_views(shares@);
    let mut out: Vec<u8> = Vec::new();
    push_u32_be(&mut out, shares.len() as u32);
    let ghost head = out@;
    let mut i: usize = 0;
    while i < shares.len()
        invariant
            i <= shares@.len(),
            views == share_views(shares@),
            out@ == head + pairs_be(views.subrange(0, i as int)),
        decreases shares@.len() - i,
    {
        push_u64_be(&mut out, shares[i].own());
        push_u64_be(&mut out, shares[i].next());
        assert(views.subrange(0, i + 1).drop_last() =~= views.subrange(0, i as int));
        i = i + 1;
        assert(out@ =~= head + pairs_be(views.subrange(0, i as int)));
    }
    assert(views.subrange(0, shares@.len() as int) =~= views);
    out
}

pub fn decode_u64_vec(bytes: &[u8]) -> (r: Result<Vec<u64>>)
    ensures
        r is Ok <==> decoded_u64_vec(bytes@) is Some,
        r matches Ok(v) ==> decoded_u64_vec(bytes@) == Some(v@),
        bytes@.len() < 4 ==> (r matches Err(MpcError::Protocol(s)) && s@
            == "short u64 vector payload"@),
        bytes@.len() >= 4 && decoded_u64_vec(bytes@) is None ==> (r matches Err(
            MpcError::Protocol(s),
        ) && s@ == "u64 vector payload length mismatch"@),
{
    if bytes.len() < 4 {
        return Err(MpcError::Protocol("short u64 vector payload".to_string()));
    }
    let n = read_u32_be(bytes, 0);
    if (n as u64) * 8 + 4 != bytes.len() as u64 {
        return Err(MpcError::Protocol("u64 vector payload length mismatch".to_string()));
    }
    let ghost expect = decoded_u64_vec(bytes@)->0;
    let mut out: Vec<u64> = Vec::new();
    let mut i: usize = 0;
    while i < n as usize
        invariant
            i <= n,
            bytes@.len() == 4 + 8 * n,
            bytes@.len() <= usize::MAX,
            n == be_u32(bytes@.subrange(0, 4)),
            expect == decoded_u64_vec(bytes@)->0,
            expect.len() == n,
            out@ == expect.subrange(0, i as int),
        decreases n - i,
    {
        assert(8 * i + 8 <= 8 * n) by (nonlinear_arith)
            requires
                i < n,
        ;
        let v = read_u64_be(bytes, 4 + 8 * i);
        out.push(v);
        i = i + 1;
        assert(out@ =~= expect.subrange(0, i as int));
    }
    assert(out@ =~= expect);
    Ok(out)
}

pub fn decode_share_pairs(bytes: &[u8]) -> (r: Result<Vec<Rep3ShareU64>>)
    ensures
        r is Ok <==> decoded_share_pairs(bytes@) is Some,
        r matches Ok(v) ==> decoded_share_pairs(bytes@) == Some(share_views(v@)),
        bytes@.len() < 4 ==> (r matches Err(MpcError::Protocol(s)) && s@
            == "short share-pair payload"@),
        bytes@.len() >= 4 && decoded_share_pairs(bytes@) is None ==> (r matches Err(
            MpcError::Protocol(s),
        ) && s@ == "share-pair payload length mismatch"@),
{
    if bytes.len() < 4 {
        return Err(MpcError::Protocol("short share-pair payload".to_string()));
    }
    let n = read_u32_be(bytes, 0);
    if (n as u64) * 16 + 4 != bytes.len() as u64 {
        return Err(MpcError::Protocol("share-pair payload length mismatch".to_string()));
    }
    let ghost expect = decoded_share_pairs(bytes@)->0;
    let mut out: Vec<Rep3ShareU64> = Vec::new();
    let mut i: usize = 0;
    while i < n as usize
        invariant
            i <= n,
            bytes@.len() == 4 + 16 * n,
            bytes@.len() <= usize::MAX,
            n == be_u32(bytes@.subrange(0, 4)),
            expect == decoded_share_pairs(bytes@)->0,
            expect.len() == n,
            share_views(out@) == expect.subrange(0, i as int),
        decreases n - i,
    {
        assert(16 * i + 16 <= 16 * n) by (nonlinear_arith)
            requires
                i < n,
        ;
        let own = read_u64_be(bytes, 4 + 16 * i);
        let next = read_u64_be(bytes, 12 + 16 * i);
        let ghost before = out@;
        let share = Rep3ShareU64::new(own, next);
        out.push(share);
        assert(out@ == before.push(share));
        assert(share_views(out@) =~= share_views(before).push((own, next)));
        i = i + 1;
        assert(share_views(out@) =~= expect.subrange(0, i as int));
    }
    assert(share_views(out@) =~= expect);
    Ok(out)
}

} // verus!
