//! Laws of replicated sharing: what the local operations and the
//! multiplication protocol do to the value that three consistent shares hold.
use vstd::prelude::*;

use crate::ring::{lemma_wrap_ops, wrap};
use crate::secret::{
    consistent, reconstruct, share_add, share_add_public, share_mul_public, share_sub,
    share_sub_public, ShareView,
};

verus! {

/// The three parties' shares at position `k` are consistent.
pub open spec fn consistent_at(
    a: Seq<crate::secret::Rep3ShareU64>,
    b: Seq<crate::secret::Rep3ShareU64>,
    c: Seq<crate::secret::Rep3ShareU64>,
    k: int,
) -> bool {
    consistent(a[k]@, b[k]@, c[k]@)
}

/// Party `i`'s local multiplication component
/// `x_i y_i + x_i y_{i+1} + x_{i+1} y_i mod 2^64`.
pub open spec fn local_mul(s: ShareView, t: ShareView) -> u64 {
    wrap(s.0 * t.0 + s.0 * t.1 + s.1 * t.0)
}

/// Party `i`'s masked component `v_i + r_i - r_{i-1} mod 2^64`, where `r_i`
/// is the mask shared with the next party and `r_{i-1}` the one shared with
/// the previous party.
pub open spec fn masked(v: u64, next_mask: u64, prev_mask: u64) -> u64 {
    wrap(v + next_mask - prev_mask)
}

pub proof fn lemma_wrap3(a: int, b: int, c: int)
    ensures
        wrap(wrap(a) + wrap(b) + wrap(c)) == wrap(a + b + c),
{
    let wb = wrap(b) as int;
    lemma_wrap_ops(wrap(a) + wb, c);
    lemma_wrap_ops(a, wb + c);
    lemma_wrap_ops(a + c, b);
    assert(wrap(a) + wb + c == wrap(a) + (wb + c));
    assert(a + (wb + c) == (a + c) + wb);
    assert(a + c + b == a + b + c);
}

/// Computing the local multiplication component one wrapping operation at a
/// time gives `local_mul`.
pub proof fn lemma_local_mul_stepwise(s: ShareView, t: ShareView)
    ensures
        wrap(wrap(wrap(s.0 * t.0) + wrap(s.0 * t.1)) + wrap(s.1 * t.0)) == local_mul(s, t),
{
    let (a, b, c) = (s.0 * t.0, s.0 * t.1, s.1 * t.0);
    lemma_wrap_ops(wrap(a) + wrap(b), wrap(c) as int);
    lemma_wrap3(a, b, c);
}

/// Adding shares party by party keeps them consistent and adds the shared
/// values.
pub proof fn lemma_add_share_homomorphic(
    s0: ShareView,
    s1: ShareView,
    s2: ShareView,
    t0: ShareView,
    t1: ShareView,
    t2: ShareView,
)
    requires
        consistent(s0, s1, s2),
        consistent(t0, t1, t2),
    ensures
        consistent(share_add(s0, t0), share_add(s1, t1), share_add(s2, t2)),
        reconstruct(share_add(s0, t0), share_add(s1, t1), share_add(s2, t2)) == wrap(
            reconstruct(s0, s1, s2) + reconstruct(t0, t1, t2),
        ),
{
    lemma_wrap3(s0.0 + t0.0, s1.0 + t1.0, s2.0 + t2.0);
    lemma_wrap_ops(s0.0 + s1.0 + s2.0, t0.0 + t1.0 + t2.0);
    lemma_wrap_ops(wrap(s0.0 + s1.0 + s2.0) as int, t0.0 + t1.0 + t2.0);
    assert(s0.0 + t0.0 + (s1.0 + t1.0) + (s2.0 + t2.0) == (s0.0 + s1.0 + s2.0) + (t0.0 + t1.0
        + t2.0));
}

/// Subtracting shares party by party keeps them consistent and subtracts the
/// shared values.
pub proof fn lemma_sub_share_homomorphic(
    s0: ShareView,
    s1: ShareView,
    s2: ShareView,
    t0: ShareView,
    t1: ShareView,
    t2: ShareView,
)
    requires
        consistent(s0, s1, s2),
        consistent(t0, t1, t2),
    ensures
        consistent(share_sub(s0, t0), share_sub(s1, t1), share_sub(s2, t2)),
        reconstruct(share_sub(s0, t0), share_sub(s1, t1), share_sub(s2, t2)) == wrap(
            reconstruct(s0, s1, s2) - reconstruct(t0, t1, t2),
        ),
{
    lemma_wrap3(s0.0 - t0.0, s1.0 - t1.0, s2.0 - t2.0);
    lemma_wrap_ops(s0.0 + s1.0 + s2.0, t0.0 + t1.0 + t2.0);
    lemma_wrap_ops(wrap(s0.0 + s1.0 + s2.0) as int, t0.0 + t1.0 + t2.0);
    assert(s0.0 - t0.0 + (s1.0 - t1.0) + (s2.0 - t2.0) == (s0.0 + s1.0 + s2.0) - (t0.0 + t1.0
        + t2.0));
}

/// Multiplying every share by a public constant keeps the shares consistent
/// and multiplies the shared value by it.
pub proof fn lemma_mul_public_homomorphic(s0: ShareView, s1: ShareView, s2: ShareView, c: u64)
    requires
        consistent(s0, s1, s2),
    ensures
        consistent(share_mul_public(s0, c), share_mul_public(s1, c), share_mul_public(s2, c)),
        reconstruct(share_mul_public(s0, c), share_mul_public(s1, c), share_mul_public(s2, c))
            == wrap(reconstruct(s0, s1, s2) * c),
{
    lemma_wrap3(s0.0 * c, s1.0 * c, s2.0 * c);
    lemma_wrap_ops(s0.0 + s1.0 + s2.0, c as int);
    assert((s0.0 + s1.0 + s2.0) * c == s0.0 * c + s1.0 * c + s2.0 * c) by (nonlinear_arith);
}

/// Each party adding a public constant to its own share (which touches only
/// the component `x0`) keeps the shares consistent and adds the constant to
/// the shared value.
pub proof fn lemma_add_public_homomorphic(s0: ShareView, s1: ShareView, s2: ShareView, c: u64)
    requires
        consistent(s0, s1, s2),
    ensures
        consistent(
            share_add_public(s0, 0, c),
            share_add_public(s1, 1, c),
            share_add_public(s2, 2, c),
        ),
        reconstruct(
            share_add_public(s0, 0, c),
            share_add_public(s1, 1, c),
            share_add_public(s2, 2, c),
        ) == wrap(reconstruct(s0, s1, s2) + c),
{
    lemma_wrap_ops(s0.0 + c, s1.0 + s2.0);
    lemma_wrap_ops(s0.0 + s1.0 + s2.0, c as int);
    assert(s0.0 + c + (s1.0 + s2.0) == s0.0 + s1.0 + s2.0 + c);
    assert(wrap(s0.0 + c) + s1.0 + s2.0 == wrap(s0.0 + c) + (s1.0 + s2.0));
}

/// Each party subtracting a public constant from its own share keeps the
/// shares consistent and subtracts the constant from the shared value.
pub proof fn lemma_sub_public_homomorphic(s0: ShareView, s1: ShareView, s2: ShareView, c: u64)
    requires
        consistent(s0, s1, s2),
    ensures
        consistent(
            share_sub_public(s0, 0, c),
            share_sub_public(s1, 1, c),
            share_sub_public(s2, 2, c),
        ),
        reconstruct(
            share_sub_public(s0, 0, c),
            share_sub_public(s1, 1, c),
            share_sub_public(s2, 2, c),
        ) == wrap(reconstruct(s0, s1, s2) - c),
{
    lemma_wrap_ops(s0.0 - c, s1.0 + s2.0);
    lemma_wrap_ops(s0.0 + s1.0 + s2.0, c as int);
    assert(s0.0 - c + (s1.0 + s2.0) == s0.0 + s1.0 + s2.0 - c);
    assert(wrap(s0.0 - c) + s1.0 + s2.0 == wrap(s0.0 - c) + (s1.0 + s2.0));
}

/// The three parties' local multiplication components add up to the product
/// of the two shared values: `sum_i v_i = x * y mod 2^64`.
pub proof fn lemma_local_mul_sums_to_product(
    s0: ShareView,
    s1: ShareView,
    s2: ShareView,
    t0: ShareView,
    t1: ShareView,
    t2: ShareView,
)
    requires
        consistent(s0, s1, s2),
        consistent(t0, t1, t2),
    ensures
        wrap(local_mul(s0, t0) + local_mul(s1, t1) + local_mul(s2, t2)) == wrap(
            reconstruct(s0, s1, s2) * reconstruct(t0, t1, t2),
        ),
{
    let (x0, x1, x2) = (s0.0 as int, s1.0 as int, s2.0 as int);
    let (y0, y1, y2) = (t0.0 as int, t1.0 as int, t2.0 as int);
    let a = x0 * y0 + x0 * y1 + x1 * y0;
    let b = x1 * y1 + x1 * y2 + x2 * y1;
    let c = x2 * y2 + x2 * y0 + x0 * y2;
    lemma_wrap3(a, b, c);
    assert((x0 + x1 + x2) * (y0 + y1 + y2) == a + b + c) by (nonlinear_arith)
        requires
            a == x0 * y0 + x0 * y1 + x1 * y0,
            b == x1 * y1 + x1 * y2 + x2 * y1,
            c == x2 * y2 + x2 * y0 + x0 * y2,
    ;
    lemma_wrap_ops(x0 + x1 + x2, y0 + y1 + y2);
    lemma_wrap_ops(wrap(x0 + x1 + x2) as int, y0 + y1 + y2);
}

/// The PRSS masks telescope: when each party's previous mask is the next
/// mask of the party before it, the masked components add up to the same
/// value as the unmasked ones.
pub proof fn lemma_masks_telescope(
    v0: u64,
    v1: u64,
    v2: u64,
    r0: u64,
    r1: u64,
    r2: u64,
)
    ensures
        wrap(masked(v0, r0, r2) + masked(v1, r1, r0) + masked(v2, r2, r1)) == wrap(v0 + v1 + v2),
{
    lemma_wrap3(v0 + r0 - r2, v1 + r1 - r0, v2 + r2 - r1);
    assert(v0 + r0 - r2 + (v1 + r1 - r0) + (v2 + r2 - r1) == v0 + v1 + v2);
}

/// Multiplication end to end: the parties' product shares
/// `(z_i, z_{i+1})`, with `z_i` the masked local component, are consistent
/// and hold the product of the two shared values.
pub proof fn lemma_mul_protocol_correct(
    s0: ShareView,
    s1: ShareView,
    s2: ShareView,
    t0: ShareView,
    t1: ShareView,
    t2: ShareView,
    r0: u64,
    r1: u64,
    r2: u64,
)
    requires
        consistent(s0, s1, s2),
        consistent(t0, t1, t2),
    ensures
        ({
            let z0 = masked(local_mul(s0, t0), r0, r2);
            let z1 = masked(local_mul(s1, t1), r1, r0);
            let z2 = masked(local_mul(s2, t2), r2, r1);
            &&& consistent((z0, z1), (z1, z2), (z2, z0))
            &&& reconstruct((z0, z1), (z1, z2), (z2, z0)) == wrap(
                reconstruct(s0, s1, s2) * reconstruct(t0, t1, t2),
            )
        }),
{
    lemma_masks_telescope(local_mul(s0, t0), local_mul(s1, t1), local_mul(s2, t2), r0, r1, r2);
    lemma_local_mul_sums_to_product(s0, s1, s2, t0, t1, t2);
}

/// The share that party `p` receives when `value` is dealt with the random
/// components `x0` and `x1`: the components are `x0`, `x1` and
/// `x2 = value - x0 - x1`, and party `p` holds `(x_p, x_{p+1})`.
pub open spec fn dealt_share(value: u64, x0: u64, x1: u64, p: nat) -> ShareView {
    let x2 = wrap(value - x0 - x1);
    if p == 0 {
        (x0, x1)
    } else if p == 1 {
        (x1, x2)
    } else {
        (x2, x0)
    }
}

/// Dealing a value gives the three parties consistent shares of it, whatever
/// the random components.
pub proof fn lemma_dealt_shares_reconstruct(value: u64, x0: u64, x1: u64)
    ensures
        consistent(
            dealt_share(value, x0, x1, 0),
            dealt_share(value, x0, x1, 1),
            dealt_share(value, x0, x1, 2),
        ),
        reconstruct(
            dealt_share(value, x0, x1, 0),
            dealt_share(value, x0, x1, 1),
            dealt_share(value, x0, x1, 2),
        ) == value,
{
    lemma_wrap_ops(x0 + x1, value - x0 - x1);
    crate::ring::lemma_wrap_basics(value as int);
    assert(x0 + x1 + (value - x0 - x1) == value);
}

/// The share-wise sum of a sequence of shares, component by component.
pub open spec fn share_sum(s: Seq<ShareView>) -> ShareView
    decreases s.len(),
{
    if s.len() == 0 {
        (0u64, 0u64)
    } else {
        share_add(share_sum(s.drop_last()), s.last())
    }
}

/// The wrapping sum of a sequence of values.
pub open spec fn wrapping_sum(s: Seq<u64>) -> u64
    decreases s.len(),
{
    if s.len() == 0 {
        0u64
    } else {
        wrap(wrapping_sum(s.drop_last()) + s.last())
    }
}

/// Summing share vectors party by party, when the parties' shares are
/// consistent at every position, gives consistent shares of the wrapping sum
/// of the shared values.
pub proof fn lemma_share_sum_homomorphic(a: Seq<ShareView>, b: Seq<ShareView>, c: Seq<ShareView>)
    requires
        a.len() == b.len(),
        b.len() == c.len(),
        forall|k: int| 0 <= k < a.len() ==> consistent(#[trigger] a[k], b[k], c[k]),
    ensures
        consistent(share_sum(a), share_sum(b), share_sum(c)),
        reconstruct(share_sum(a), share_sum(b), share_sum(c)) == wrapping_sum(
            Seq::new(a.len(), |k: int| reconstruct(a[k], b[k], c[k])),
        ),
    decreases a.len(),
{
    let vals = Seq::new(a.len(), |k: int| reconstruct(a[k], b[k], c[k]));
    if a.len() == 0 {
        assert(reconstruct((0u64, 0u64), (0u64, 0u64), (0u64, 0u64)) == 0) by {
            crate::ring::lemma_wrap_basics(0);
        }
    } else {
        let (a1, b1, c1) = (a.drop_last(), b.drop_last(), c.drop_last());
        assert forall|k: int| 0 <= k < a1.len() implies consistent(#[trigger] a1[k], b1[k], c1[k]) by {
            assert(consistent(a[k], b[k], c[k]));
        }
        lemma_share_sum_homomorphic(a1, b1, c1);
        let n = a.len() - 1;
        assert(consistent(a[n], b[n], c[n]));
        lemma_add_share_homomorphic(
            share_sum(a1),
            share_sum(b1),
            share_sum(c1),
            a.last(),
            b.last(),
            c.last(),
        );
        let vals1 = Seq::new(a1.len(), |k: int| reconstruct(a1[k], b1[k], c1[k]));
        assert(vals.drop_last() =~= vals1);
    }
}

/// Summing covers every element: the sum of nothing is zero, and appending
/// one more share adds it to the share-wise sum, whatever the length.
pub proof fn lemma_share_sum_push(s: Seq<ShareView>, t: ShareView)
    ensures
        share_sum(Seq::<ShareView>::empty()) == (0u64, 0u64),
        share_sum(s.push(t)) == share_add(share_sum(s), t),
{
    assert(s.push(t).drop_last() =~= s);
}

/// The wrapping sum covers every element: the sum of nothing is zero, and
/// appending one more value adds it, whatever the length.
pub proof fn lemma_wrapping_sum_push(s: Seq<u64>, v: u64)
    ensures
        wrapping_sum(Seq::<u64>::empty()) == 0,
        wrapping_sum(s.push(v)) == wrap(wrapping_sum(s) + v),
{
    assert(s.push(v).drop_last() =~= s);
}

/// The share-wise sum is made of the wrapping sums of the components: the
/// own component of the sum is the wrapping sum of all own components, and
/// likewise for the next components.
pub proof fn lemma_share_sum_components(s: Seq<ShareView>)
    ensures
        share_sum(s).0 == wrapping_sum(s.map_values(|t: ShareView| t.0)),
        share_sum(s).1 == wrapping_sum(s.map_values(|t: ShareView| t.1)),
    decreases s.len(),
{
    if s.len() > 0 {
        lemma_share_sum_components(s.drop_last());
        assert(s.map_values(|t: ShareView| t.0).drop_last() =~= s.drop_last().map_values(
            |t: ShareView| t.0,
        ));
        assert(s.map_values(|t: ShareView| t.1).drop_last() =~= s.drop_last().map_values(
            |t: ShareView| t.1,
        ));
    } else {
        assert(s.map_values(|t: ShareView| t.0) =~= Seq::<u64>::empty());
        assert(s.map_values(|t: ShareView| t.1) =~= Seq::<u64>::empty());
    }
}

} // verus!
