//! Horizontal placement of windows in the application overview.

use vstd::prelude::*;

verus! {

/// Farthest distance from the focused window whose offset is computed exactly.
///
/// The offset is `output_width * (100 - fg) * (100 - bg)^d / (200 * 100^d)` rounded, and the
/// rounding can depend on every digit of that fraction: with a shrink of 99 per cent its
/// numerator and denominator outgrow 128 bits beyond this distance while the gap is still many
/// pixels wide.
pub const MAX_LAYOUT_DISTANCE: i32 = 13;

/// `base` raised to the power `exp`.
pub open spec fn pow(base: int, exp: nat) -> int
    decreases exp,
{
    if exp == 0 {
        1
    } else {
        base * pow(base, (exp - 1) as nat)
    }
}

/// `n / d` rounded to the nearest integer, halves away from zero, for `n >= 0` and `d > 0`.
pub open spec fn round_div(n: int, d: int) -> int {
    (2 * n + d) / (2 * d)
}

/// Free space beside the focused window, `output_width * (1 - fg) / 2`, shrunk by the factor
/// `(1 - bg)` once for each step of `distance`, rounded to whole pixels. The fractions `fg` and
/// `bg` are given in per cent.
pub open spec fn background_gap(fg: int, bg: int, output_width: int, distance: nat) -> int {
    round_div(
        output_width * (100 - fg) * pow(100 - bg, distance),
        200 * pow(100, distance),
    )
}

/// X coordinate of the window at `position` steps from the focused one: left of centre for a
/// negative position, right of centre for a positive one, and centred at zero.
pub open spec fn overview_x(fg: int, bg: int, output_width: int, window_width: int, position: int) -> int {
    let distance = (if position < 0 { -position } else { position }) as nat;
    if position < 0 {
        background_gap(fg, bg, output_width, distance)
    } else if position > 0 {
        output_width - window_width - background_gap(fg, bg, output_width, distance)
    } else {
        background_gap(fg, bg, output_width, 0)
    }
}

proof fn lemma_pow_nonneg(base: int, exp: nat)
    requires
        0 <= base,
    ensures
        0 <= pow(base, exp),
    decreases exp,
{
    if exp > 0 {
        lemma_pow_nonneg(base, (exp - 1) as nat);
        assert(0 <= base * pow(base, (exp - 1) as nat)) by (nonlinear_arith)
            requires
                0 <= base,
                0 <= pow(base, (exp - 1) as nat),
        ;
    }
}

proof fn lemma_pow_base_mono(a: int, b: int, exp: nat)
    requires
        0 <= a <= b,
    ensures
        pow(a, exp) <= pow(b, exp),
    decreases exp,
{
    if exp > 0 {
        let e = (exp - 1) as nat;
        lemma_pow_base_mono(a, b, e);
        lemma_pow_nonneg(a, e);
        assert(a * pow(a, e) <= b * pow(b, e)) by (nonlinear_arith)
            requires
                0 <= a <= b,
                0 <= pow(a, e) <= pow(b, e),
        ;
    }
}

proof fn lemma_pow_exp_mono(base: int, e1: nat, e2: nat)
    requires
        1 <= base,
        e1 <= e2,
    ensures
        pow(base, e1) <= pow(base, e2),
    decreases e2,
{
    if e1 < e2 {
        let e = (e2 - 1) as nat;
        lemma_pow_exp_mono(base, e1, e);
        lemma_pow_nonneg(base, e);
        assert(pow(base, e) <= base * pow(base, e)) by (nonlinear_arith)
            requires
                1 <= base,
                0 <= pow(base, e),
        ;
    }
}

/// X coordinate of a window in the application overview.
///
/// `fg_percent` is the share of the output width given to the focused window and `bg_percent`
/// the factor by which the space beside it shrinks with each further window, both in per cent.
/// The window `position` steps away from the focused one is placed `output_width * (1 - fg) / 2
/// * (1 - bg)^|position|` pixels from the left edge when the position is negative, as far from
/// the right edge when it is positive, and the focused window is centred.
pub fn overview_x_position(
    fg_percent: u32,
    bg_percent: u32,
    output_width: i32,
    window_width: i32,
    position: i32,
) -> (r: i32)
    requires
        fg_percent <= 100,
        bg_percent <= 100,
        0 <= output_width,
        0 <= window_width,
        -MAX_LAYOUT_DISTANCE <= position <= MAX_LAYOUT_DISTANCE,
    ensures
        r == overview_x(
            fg_percent as int,
            bg_percent as int,
            output_width as int,
            window_width as int,
            position as int,
        ),
{
    let distance: u32 = if position < 0 { (-position) as u32 } else { position as u32 };
    let shrink: u128 = (100 - bg_percent) as u128;
    proof {
        assert((output_width as int) * (100 - fg_percent) <= 2147483647 * 100) by (nonlinear_arith)
            requires
                0 <= output_width <= 2147483647,
                fg_percent <= 100,
        ;
    }
    let base: u128 = (output_width as u128) * ((100 - fg_percent) as u128);
    let mut num: u128 = base;
    let mut den: u128 = 200;
    let mut i: u32 = 0;
    proof {
        reveal_with_fuel(pow, 14);
        assert(pow(100, 13) == 100000000000000000000000000int);
    }
    while i < distance
        invariant
            i <= distance <= 13,
            shrink <= 100,
            base <= 2147483647 * 100,
            num == base * pow(shrink as int, i as nat),
            den == 200 * pow(100, i as nat),
            pow(100, 13) == 100000000000000000000000000int,
        decreases distance - i,
    {
        proof {
            lemma_pow_base_mono(shrink as int, 100, i as nat);
            lemma_pow_nonneg(shrink as int, i as nat);
            lemma_pow_exp_mono(100, (i + 1) as nat, 13);
            assert(pow(100, (i + 1) as nat) == 100 * pow(100, i as nat));
            assert(num * shrink <= base * pow(100, (i + 1) as nat)) by (nonlinear_arith)
                requires
                    num == base * pow(shrink as int, i as nat),
                    0 <= pow(shrink as int, i as nat) <= pow(100, i as nat),
                    pow(100, (i + 1) as nat) == 100 * pow(100, i as nat),
                    0 <= shrink <= 100,
                    0 <= base,
            ;
            assert(base * pow(100, (i + 1) as nat) <= 2147483647 * 100 * pow(100, 13)) by (nonlinear_arith)
                requires
                    0 <= base <= 2147483647 * 100,
                    0 <= pow(100, (i + 1) as nat) <= pow(100, 13),
            ;
            assert(pow(shrink as int, (i + 1) as nat) == shrink * pow(shrink as int, i as nat));
            assert(num * shrink == base * pow(shrink as int, (i + 1) as nat)) by (nonlinear_arith)
                requires
                    num == base * pow(shrink as int, i as nat),
                    pow(shrink as int, (i + 1) as nat) == shrink * pow(shrink as int, i as nat),
            ;
        }
        num = num * shrink;
        den = den * 100;
        i = i + 1;
    }
    proof {
        lemma_pow_base_mono(shrink as int, 100, i as nat);
        lemma_pow_nonneg(shrink as int, i as nat);
        lemma_pow_exp_mono(100, i as nat, 13);
        assert(num <= base * pow(100, i as nat)) by (nonlinear_arith)
            requires
                num == base * pow(shrink as int, i as nat),
                0 <= pow(shrink as int, i as nat) <= pow(100, i as nat),
                0 <= base,
        ;
        assert(base * pow(100, i as nat) <= 2147483647 * 100 * pow(100, 13)) by (nonlinear_arith)
            requires
                0 <= base <= 2147483647 * 100,
                0 <= pow(100, i as nat) <= pow(100, 13),
        ;
        assert(num * 200 <= base * den) by (nonlinear_arith)
            requires
                num <= base * pow(100, i as nat),
                den == 200 * pow(100, i as nat),
                0 <= base,
        ;
    }
    let gap_wide: u128 = (2 * num + den) / (2 * den);
    proof {
        assert(gap_wide <= base / 200 + 1) by (nonlinear_arith)
            requires
                gap_wide == (2 * num + den) / (2 * den),
                num * 200 <= base * den,
                den >= 200,
                0 <= num,
                0 <= base,
        ;
        assert(base / 200 <= output_width / 2) by (nonlinear_arith)
            requires
                base == (output_width as int) * (100 - fg_percent),
                0 <= output_width,
                fg_percent <= 100,
        ;
        assert(num == (output_width as int) * (100 - fg_percent) * pow(100 - bg_percent, i as nat)) by (nonlinear_arith)
            requires
                num == base * pow(shrink as int, i as nat),
                base == (output_width as int) * (100 - fg_percent),
                shrink == 100 - bg_percent,
        ;
        assert(gap_wide == background_gap(fg_percent as int, bg_percent as int, output_width as int, i as nat));
    }
    let gap = gap_wide as i64;
    let r: i64 = if position < 0 {
        gap
    } else if position > 0 {
        output_width as i64 - window_width as i64 - gap
    } else {
        gap
    };
    r as i32
}

} // verus!
