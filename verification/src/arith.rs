use vstd::prelude::*;

verus! {

pub open spec fn abs(x: int) -> int {
    if x < 0 {
        -x
    } else {
        x
    }
}

/// Division rounding toward zero, as machine integers divide.
pub open spec fn trunc_div(x: int, d: int) -> int {
    let q = abs(x) / abs(d);
    if (x < 0) != (d < 0) {
        -q
    } else {
        q
    }
}

/// The remainder left by `trunc_div`; it takes the sign of the dividend.
pub open spec fn trunc_rem(x: int, d: int) -> int {
    x - d * trunc_div(x, d)
}

/// The quotient that std's `checked_div` computes, written as its specification does.
pub open spec fn std_div(x: int, d: int) -> int {
    if x == 0 {
        0
    } else if x > 0 && d > 0 {
        x / d
    } else if x < 0 && d < 0 {
        ((x * -1) / (d * -1))
    } else if x < 0 {
        ((x * -1) / d) * -1
    } else {
        (x / (d * -1)) * -1
    }
}

/// The remainder that std's `checked_rem` computes, written as its specification does.
pub open spec fn std_rem(x: int, d: int) -> int {
    if x == 0 {
        0
    } else if x > 0 && d > 0 {
        x % d
    } else if x < 0 && d < 0 {
        ((x * -1) % (d * -1)) * -1
    } else if x < 0 {
        ((x * -1) % d) * -1
    } else {
        x % (d * -1)
    }
}

pub proof fn lemma_std_div(x: int, d: int)
    requires
        d != 0,
    ensures
        std_div(x, d) == trunc_div(x, d),
        std_rem(x, d) == trunc_rem(x, d),
        abs(trunc_rem(x, d)) < abs(d),
        x >= 0 ==> trunc_rem(x, d) >= 0,
        x <= 0 ==> trunc_rem(x, d) <= 0,
        abs(trunc_div(x, d)) <= abs(x),
        abs(d) >= 2 ==> 2 * abs(trunc_div(x, d)) <= abs(x),
{
    let ax = abs(x);
    let ad = abs(d);
    vstd::arithmetic::div_mod::lemma_fundamental_div_mod(ax, ad);
    assert(0 <= ax % ad < ad) by {
        vstd::arithmetic::div_mod::lemma_mod_bound(ax, ad);
    }
    assert(0 <= ax / ad <= ax) by {
        vstd::arithmetic::div_mod::lemma_div_pos_is_pos(ax, ad);
        vstd::arithmetic::div_mod::lemma_div_is_ordered_by_denominator(ax, 1, ad);
    }
    let q = ax / ad;
    let r = ax % ad;
    if ad >= 2 {
        assert(2 * q <= ax) by (nonlinear_arith)
            requires
                ax == ad * q + r,
                r >= 0,
                q >= 0,
                ad >= 2,
        ;
    }
    if x < 0 && d < 0 {
        assert(x - d * (q) == -r) by (nonlinear_arith)
            requires
                ax == ad * q + r,
                ax == -x,
                ad == -d,
        ;
    } else if x < 0 {
        assert(x - d * (-q) == -r) by (nonlinear_arith)
            requires
                ax == ad * q + r,
                ax == -x,
                ad == d,
        ;
    } else if d < 0 {
        assert(x - d * (-q) == r) by (nonlinear_arith)
            requires
                ax == ad * q + r,
                ax == x,
                ad == -d,
        ;
    } else {
        assert(x - d * q == r) by (nonlinear_arith)
            requires
                ax == ad * q + r,
                ax == x,
                ad == d,
        ;
    }
}

/// When `d` divides `x`, the truncating quotient times `d` gives `x` back.
pub proof fn lemma_exact_div(x: int, d: int)
    requires
        d != 0,
        x % d == 0,
    ensures
        trunc_div(x, d) * d == x,
        trunc_rem(x, d) == 0,
{
    lemma_std_div(x, d);
    vstd::arithmetic::div_mod::lemma_fundamental_div_mod(x, d);
    let k = x / d;
    assert(x == d * k);
    // the remainder is smaller than |d| and is a multiple of d, hence zero
    let r = trunc_rem(x, d);
    assert(r == d * (k - trunc_div(x, d))) by (nonlinear_arith)
        requires
            x == d * k,
            r == x - d * trunc_div(x, d),
    ;
    let m = k - trunc_div(x, d);
    if m != 0 {
        assert(abs(d * m) >= abs(d)) by (nonlinear_arith)
            requires
                m != 0,
        ;
    }
    assert(trunc_div(x, d) * d == d * trunc_div(x, d)) by (nonlinear_arith);
}

} // verus!
