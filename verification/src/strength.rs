//! Fixed-point action strengths: the deadzone remap and the optional
//! shaping curves that turn a raw strength into a resolved strength.

use vstd::prelude::*;

verus! {

/// Strengths are fixed-point fractions of this scale: an integer `s` in
/// `[0, STRENGTH_SCALE]` stands for the real value `s / STRENGTH_SCALE`,
/// so the whole strength range `[0, 1]` is `[0, STRENGTH_SCALE]`.
pub const STRENGTH_SCALE: u32 = 1000;

/// The deadzone remap: raw strengths at or below the threshold `d` collapse
/// to `0`, and the remaining interval `(d, STRENGTH_SCALE]` is stretched
/// linearly onto `(0, STRENGTH_SCALE]`, so a full-scale raw strength stays
/// full scale.
pub open spec fn deadzone_remap(d: int, raw: int) -> int {
    if raw <= d {
        0
    } else {
        (raw - d) * (STRENGTH_SCALE as int) / (STRENGTH_SCALE as int - d)
    }
}

/// A shaping curve applied to a strength after the deadzone remap. Every
/// curve is total on `[0, STRENGTH_SCALE]` and maps that interval into
/// itself; every curve maps `0` to `0`.
#[derive(Clone, Copy, Debug, PartialEq, Eq, Structural)]
pub enum CurveFunction {
    /// Leaves the strength unchanged.
    Identity,
    /// Squares the fraction: gentle near zero, steep near full scale.
    Squared,
    /// Takes the square root of the fraction: steep near zero, gentle near
    /// full scale.
    SquareRoot,
}

/// The integer square root: the largest `r` with `r * r <= n`.
pub open spec fn isqrt_spec(n: nat) -> nat
    decreases n,
{
    if n == 0 {
        0
    } else {
        let r = isqrt_spec((n - 1) as nat);
        if (r + 1) * (r + 1) <= n {
            r + 1
        } else {
            r
        }
    }
}

/// The integer square root is sound: its square is at most `n`, and the
/// next square is already beyond `n`.
pub proof fn lemma_isqrt_bounds(n: nat)
    ensures
        isqrt_spec(n) * isqrt_spec(n) <= n,
        n < (isqrt_spec(n) + 1) * (isqrt_spec(n) + 1),
    decreases n,
{
    if n > 0 {
        lemma_isqrt_bounds((n - 1) as nat);
        let r = isqrt_spec((n - 1) as nat);
        assert(r * r <= n - 1);
        assert(n - 1 < (r + 1) * (r + 1));
        if (r + 1) * (r + 1) <= n {
            assert(isqrt_spec(n) == r + 1);
            assert(n <= (r + 1) * (r + 1));
            assert((r + 1) * (r + 1) < (r + 2) * (r + 2)) by (nonlinear_arith)
                requires
                    r >= 0,
            ;
            assert(isqrt_spec(n) + 1 == r + 2);
            assert(n < (r + 2) * (r + 2));
        } else {
            assert(isqrt_spec(n) == r);
            assert(n < (r + 1) * (r + 1));
        }
    } else {
        assert(isqrt_spec(n) == 0);
        assert((isqrt_spec(n) + 1) * (isqrt_spec(n) + 1) == 1) by (nonlinear_arith)
            requires
                isqrt_spec(n) == 0,
        ;
    }
}

/// Any value squeezed between the same two consecutive squares as the
/// integer square root is the integer square root.
pub proof fn lemma_isqrt_unique(n: nat, r: nat)
    requires
        r * r <= n,
        n < (r + 1) * (r + 1),
    ensures
        r == isqrt_spec(n),
{
    lemma_isqrt_bounds(n);
    let s = isqrt_spec(n);
    assert(r == s) by (nonlinear_arith)
        requires
            r * r <= n,
            n < (r + 1) * (r + 1),
            s * s <= n,
            n < (s + 1) * (s + 1),
            r >= 0,
            s >= 0,
    ;
}

/// The value a shaping curve gives to the fixed-point strength `x`.
pub open spec fn curve_value(c: CurveFunction, x: int) -> int {
    match c {
        CurveFunction::Identity => x,
        CurveFunction::Squared => x * x / (STRENGTH_SCALE as int),
        CurveFunction::SquareRoot => isqrt_spec((x * (STRENGTH_SCALE as int)) as nat) as int,
    }
}

/// Computes the integer square root by climbing to the last root whose
/// square still fits.
fn isqrt(n: u32) -> (r: u32)
    requires
        n <= 1_000_000,
    ensures
        r == isqrt_spec(n as nat),
        r <= 1_000,
{
    let mut r: u32 = 0;
    let mut sq: u32 = 1;
    while sq <= n
        invariant
            n <= 1_000_000,
            r <= 1_000,
            sq == (r + 1) * (r + 1),
            r * r <= n,
        decreases 1_000 - r,
    {
        assert(r < 1_000) by (nonlinear_arith)
            requires
                (r + 1) * (r + 1) <= n,
                n <= 1_000_000,
                sq == (r + 1) * (r + 1),
                sq <= n,
                r <= 1_000,
        ;
        r = r + 1;
        sq = sq + 2 * r + 1;
        assert(sq == (r + 1) * (r + 1)) by (nonlinear_arith)
            requires
                sq == r * r + 2 * r + 1,
        ;
    }
    proof {
        lemma_isqrt_unique(n as nat, r as nat);
    }
    r
}

/// Deadzone law: for any threshold `d` below full scale, a raw strength at
/// or below `d` (in particular, equal to `d`) resolves to `0`, a full-scale
/// raw strength resolves to full scale, and the remap never leaves
/// `[0, STRENGTH_SCALE]`.
pub proof fn lemma_deadzone_properties(d: int, raw: int)
    requires
        0 <= d < STRENGTH_SCALE,
        0 <= raw <= STRENGTH_SCALE,
    ensures
        raw <= d ==> deadzone_remap(d, raw) == 0,
        raw == STRENGTH_SCALE ==> deadzone_remap(d, raw) == STRENGTH_SCALE,
        0 <= deadzone_remap(d, raw) <= STRENGTH_SCALE,
{
    let s = STRENGTH_SCALE as int;
    if raw > d {
        assert((raw - d) * s / (s - d) <= s && (raw - d) * s / (s - d) >= 0
            && (raw == s ==> (raw - d) * s / (s - d) == s)) by (nonlinear_arith)
            requires
                0 <= d < s,
                d < raw <= s,
                s == 1000,
        ;
    }
}

/// Every curve sends a strength inside `[0, STRENGTH_SCALE]` back inside
/// `[0, STRENGTH_SCALE]`, and sends `0` to `0`.
pub proof fn lemma_curve_bounds(c: CurveFunction, x: int)
    requires
        0 <= x <= STRENGTH_SCALE,
    ensures
        0 <= curve_value(c, x) <= STRENGTH_SCALE,
        x == 0 ==> curve_value(c, x) == 0,
{
    let s = STRENGTH_SCALE as int;
    match c {
        CurveFunction::Identity => {}
        CurveFunction::Squared => {
            assert(0 <= x * x / s <= s && (x == 0 ==> x * x / s == 0)) by (nonlinear_arith)
                requires
                    0 <= x <= s,
                    s == 1000,
            ;
        }
        CurveFunction::SquareRoot => {
            let n = (x * s) as nat;
            lemma_isqrt_bounds(n);
            let r = isqrt_spec(n);
            assert(x == 0 ==> n == 0);
            assert(r <= s) by (nonlinear_arith)
                requires
                    r * r <= n,
                    n <= s * s,
                    s == 1000,
                    r >= 0,
            ;
        }
    }
}

/// Applies the deadzone remap to a raw strength.
pub fn apply_deadzone(deadzone: u32, raw: u32) -> (r: u32)
    requires
        deadzone < STRENGTH_SCALE,
        raw <= STRENGTH_SCALE,
    ensures
        r == deadzone_remap(deadzone as int, raw as int),
        r <= STRENGTH_SCALE,
{
    proof {
        lemma_deadzone_properties(deadzone as int, raw as int);
    }
    if raw <= deadzone {
        0
    } else {
        ((raw - deadzone) * STRENGTH_SCALE) / (STRENGTH_SCALE - deadzone)
    }
}

/// Applies a shaping curve to a strength.
pub fn apply_curve(c: CurveFunction, x: u32) -> (r: u32)
    requires
        x <= STRENGTH_SCALE,
    ensures
        r == curve_value(c, x as int),
        r <= STRENGTH_SCALE,
{
    proof {
        lemma_curve_bounds(c, x as int);
    }
    match c {
        CurveFunction::Identity => x,
        CurveFunction::Squared => (x * x) / STRENGTH_SCALE,
        CurveFunction::SquareRoot => isqrt(x * STRENGTH_SCALE),
    }
}

} // verus!
