//! Pairs of a 32-bit and a 64-bit identifier packed into one 128-bit key.
use vstd::prelude::*;

verus! {

/// The packed key of `(hi, lo)`: `hi` in the upper and `lo` in the lower
/// sixty-four bits.
pub open spec fn spec_pair_key(hi: u32, lo: u64) -> u128 {
    (hi as u128 * 0x1_0000_0000_0000_0000 + lo as u128) as u128
}

/// Distinct pairs have distinct keys.
pub proof fn lemma_pair_key_injective(h1: u32, l1: u64, h2: u32, l2: u64)
    ensures
        spec_pair_key(h1, l1) == spec_pair_key(h2, l2) ==> h1 == h2 && l1 == l2,
{
    let k1 = h1 as int * 0x1_0000_0000_0000_0000 + l1 as int;
    let k2 = h2 as int * 0x1_0000_0000_0000_0000 + l2 as int;
    assert(k1 < 0x1_0000_0000_0000_0000_0000_0000_0000_0000) by (nonlinear_arith)
        requires
            k1 == h1 as int * 0x1_0000_0000_0000_0000 + l1 as int,
            h1 < 0x1_0000_0000,
            l1 < 0x1_0000_0000_0000_0000,
    ;
    assert(k2 < 0x1_0000_0000_0000_0000_0000_0000_0000_0000) by (nonlinear_arith)
        requires
            k2 == h2 as int * 0x1_0000_0000_0000_0000 + l2 as int,
            h2 < 0x1_0000_0000,
            l2 < 0x1_0000_0000_0000_0000,
    ;
    assert(k1 == k2 ==> h1 == h2 && l1 == l2) by (nonlinear_arith)
        requires
            k1 == h1 as int * 0x1_0000_0000_0000_0000 + l1 as int,
            k2 == h2 as int * 0x1_0000_0000_0000_0000 + l2 as int,
            0 <= l1 < 0x1_0000_0000_0000_0000,
            0 <= l2 < 0x1_0000_0000_0000_0000,
            0 <= h1,
            0 <= h2,
    ;
}

/// A map under packed keys, seen as a map under the pairs they pack.
pub open spec fn unpack_view<V>(m: Map<u128, V>) -> Map<(u32, u64), V> {
    Map::new(
        |k: (u32, u64)| m.contains_key(spec_pair_key(k.0, k.1)),
        |k: (u32, u64)| m[spec_pair_key(k.0, k.1)],
    )
}

pub proof fn lemma_unpack_insert<V>(m: Map<u128, V>, hi: u32, lo: u64, v: V)
    ensures
        unpack_view(m.insert(spec_pair_key(hi, lo), v)) == unpack_view(m).insert((hi, lo), v),
{
    let l = unpack_view(m.insert(spec_pair_key(hi, lo), v));
    let r = unpack_view(m).insert((hi, lo), v);
    assert forall|k: (u32, u64)|
        #[trigger] l.contains_key(k) == r.contains_key(k) && (l.contains_key(k) ==> l[k] == r[k]) by {
        lemma_pair_key_injective(k.0, k.1, hi, lo);
    }
    assert(l =~= r);
}

pub proof fn lemma_unpack_remove<V>(m: Map<u128, V>, hi: u32, lo: u64)
    ensures
        unpack_view(m.remove(spec_pair_key(hi, lo))) == unpack_view(m).remove((hi, lo)),
{
    let l = unpack_view(m.remove(spec_pair_key(hi, lo)));
    let r = unpack_view(m).remove((hi, lo));
    assert forall|k: (u32, u64)|
        #[trigger] l.contains_key(k) == r.contains_key(k) && (l.contains_key(k) ==> l[k] == r[k]) by {
        lemma_pair_key_injective(k.0, k.1, hi, lo);
    }
    assert(l =~= r);
}

pub fn pair_key(hi: u32, lo: u64) -> (r: u128)
    ensures
        r == spec_pair_key(hi, lo),
{
    proof {
        assert((hi as int) * 0x1_0000_0000_0000_0000 + (lo as int)
            < 0x1_0000_0000_0000_0000_0000_0000_0000_0000) by (nonlinear_arith)
            requires
                hi < 0x1_0000_0000,
                lo < 0x1_0000_0000_0000_0000,
        ;
    }
    (hi as u128) * 0x1_0000_0000_0000_0000 + (lo as u128)
}

} // verus!
