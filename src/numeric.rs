use vstd::prelude::*;

verus! {

/// Absolute value over the integers.
pub open spec fn abs(a: int) -> int {
    if a < 0 {
        -a
    } else {
        a
    }
}

/// Division that truncates toward zero, as Rust's `/` on signed integers does.
pub open spec fn trunc_div(a: int, b: int) -> int {
    if a >= 0 {
        a / b
    } else {
        -((-a) / b)
    }
}

/// `a` saturated to the range of `i64`.
pub open spec fn clamp64(a: int) -> int {
    if a > i64::MAX {
        i64::MAX as int
    } else if a < i64::MIN {
        i64::MIN as int
    } else {
        a
    }
}

/// `a` saturated to `[-i64::MAX, i64::MAX]`, a range symmetric about zero,
/// so that saturation commutes with negation.
pub open spec fn sym_clamp64(a: int) -> int {
    if a > i64::MAX {
        i64::MAX as int
    } else if a < -(i64::MAX as int) {
        -(i64::MAX as int)
    } else {
        a
    }
}

/// Truncating division and symmetric saturation both commute with negation.
pub proof fn lemma_negation_commutes(a: int, b: int)
    requires
        b > 0,
    ensures
        trunc_div(-a, b) == -trunc_div(a, b),
        sym_clamp64(-a) == -sym_clamp64(a),
{
}

/// `r` is the integer square root of `n`: the largest `r` with `r * r <= n`.
pub open spec fn is_isqrt(n: nat, r: nat) -> bool {
    r * r <= n && n < (r + 1) * (r + 1)
}

/// The integer square root of `n`.
pub open spec fn isqrt(n: nat) -> nat {
    choose|r: nat| is_isqrt(n, r)
}

/// At most one number is the integer square root of `n`.
pub proof fn lemma_isqrt_unique(n: nat, a: nat, b: nat)
    requires
        is_isqrt(n, a),
        is_isqrt(n, b),
    ensures
        a == b,
{
    if a < b {
        assert((a + 1) * (a + 1) <= b * b) by (nonlinear_arith)
            requires
                a + 1 <= b,
        ;
    } else if b < a {
        assert((b + 1) * (b + 1) <= a * a) by (nonlinear_arith)
            requires
                b + 1 <= a,
        ;
    }
}

/// Every natural number has an integer square root.
pub proof fn lemma_isqrt_exists(n: nat)
    ensures
        exists|r: nat| is_isqrt(n, r),
    decreases n,
{
    if n == 0 {
        assert(0nat * 0nat == 0 && (0nat + 1) * (0nat + 1) == 1) by (nonlinear_arith);
        assert(is_isqrt(0, 0));
    } else {
        let m = (n - 1) as nat;
        lemma_isqrt_exists(m);
        let r = choose|r: nat| is_isqrt(m, r);
        if (r + 1) * (r + 1) <= n {
            assert((r + 1) * (r + 1) < (r + 2) * (r + 2)) by (nonlinear_arith);
            assert(is_isqrt(n, r + 1));
        } else {
            assert(is_isqrt(n, r));
        }
    }
}

/// `isqrt` meets its definition, and is positive on positive numbers.
pub proof fn lemma_isqrt(n: nat)
    ensures
        is_isqrt(n, isqrt(n)),
        n >= 1 ==> isqrt(n) >= 1,
{
    lemma_isqrt_exists(n);
    let r = isqrt(n);
    if n >= 1 && r == 0 {
        assert((r + 1) * (r + 1) == 1) by (nonlinear_arith)
            requires
                r == 0,
        ;
    }
}

/// Integer square root by bisection.
pub fn isqrt_u64(n: u64) -> (r: u64)
    ensures
        is_isqrt(n as nat, r as nat),
        r == isqrt(n as nat),
        r <= 4294967296,
        n >= 1 ==> r >= 1,
{
    let mut lo: u128 = 0;
    let mut hi: u128 = 4294967296;
    assert(n < hi * hi);
    while hi - lo > 1
        invariant
            lo < hi <= 4294967296,
            lo * lo <= n as int,
            (n as int) < hi * hi,
        decreases hi - lo,
    {
        let mid: u128 = lo + (hi - lo) / 2;
        assert(mid * mid <= 4294967296 * 4294967296) by (nonlinear_arith)
            requires
                mid <= 4294967296,
        ;
        if mid * mid <= n as u128 {
            lo = mid;
        } else {
            hi = mid;
        }
    }
    assert(hi == lo + 1);
    if lo == 0 {
        assert(hi == 1);
        assert(hi * hi == 1) by (nonlinear_arith)
            requires
                hi == 1,
        ;
    }
    proof {
        let w = lo as nat;
        assert(is_isqrt(n as nat, w));
        let c = isqrt(n as nat);
        assert(is_isqrt(n as nat, c));
        lemma_isqrt_unique(n as nat, w, c);
    }
    lo as u64
}

/// `v` saturated to the range of `i64`.
pub fn clamp_i128(v: i128) -> (r: i64)
    ensures
        r as int == clamp64(v as int),
{
    if v > i64::MAX as i128 {
        i64::MAX
    } else if v < i64::MIN as i128 {
        i64::MIN
    } else {
        v as i64
    }
}

/// `v` saturated to `[-i64::MAX, i64::MAX]`.
pub fn sym_clamp_i128(v: i128) -> (r: i64)
    ensures
        r as int == sym_clamp64(v as int),
{
    if v > i64::MAX as i128 {
        i64::MAX
    } else if v < -(i64::MAX as i128) {
        -i64::MAX
    } else {
        v as i64
    }
}

} // verus!
