use vstd::prelude::*;

verus! {

/// Two account-sized identifiers packed into one map key: `hi` in the upper
/// half, `lo` in the lower.
pub open spec fn pair_key(hi: u64, lo: u64) -> u128 {
    (hi as int * 0x1_0000_0000_0000_0000 + lo as int) as u128
}

pub proof fn lemma_pair_key_injective(a: u64, b: u64, c: u64, d: u64)
    ensures
        pair_key(a, b) == pair_key(c, d) ==> a == c && b == d,
{
    let k: int = 0x1_0000_0000_0000_0000;
    assert(0 <= a as int * k + b as int <= u128::MAX) by (nonlinear_arith)
        requires
            k == 0x1_0000_0000_0000_0000,
            0 <= a <= u64::MAX,
            0 <= b <= u64::MAX,
    ;
    assert(0 <= c as int * k + d as int <= u128::MAX) by (nonlinear_arith)
        requires
            k == 0x1_0000_0000_0000_0000,
            0 <= c <= u64::MAX,
            0 <= d <= u64::MAX,
    ;
    if a as int * k + b as int == c as int * k + d as int {
        assert(a == c && b == d) by (nonlinear_arith)
            requires
                k == 0x1_0000_0000_0000_0000,
                0 <= b < k,
                0 <= d < k,
                0 <= a,
                0 <= c,
                a * k + b == c * k + d,
        ;
    }
}

pub fn pack_pair(hi: u64, lo: u64) -> (r: u128)
    ensures
        r == pair_key(hi, lo),
{
    let k: u128 = 0x1_0000_0000_0000_0000;
    assert(hi as int * k as int + lo as int <= u128::MAX) by (nonlinear_arith)
        requires
            k == 0x1_0000_0000_0000_0000,
            0 <= hi <= u64::MAX,
            0 <= lo <= u64::MAX,
    ;
    (hi as u128) * k + (lo as u128)
}

} // verus!
