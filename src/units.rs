//! Fixed-point units: font-relative lengths (`Em`) and absolute page lengths.
//!
//! An em value is stored in millionths of the font size. A page length is
//! stored as an integer in the caller's length unit; font sizes use that same
//! unit.

use vstd::prelude::*;

verus! {

/// Number of em units per font size.
pub const EM_SCALE: i64 = 1_000_000;

/// Largest magnitude of an em value that can be resolved against a font size.
pub const MAX_EM: i64 = 4_503_599_627_370_496;

/// Largest magnitude of an em value converted from font design units.
pub const MAX_FONT_EM: i64 = 2_147_483_648_000_000;

/// Largest magnitude of a tracking value.
pub const MAX_TRACKING: i64 = 1_125_899_906_842_624;

/// Largest font size.
pub const MAX_SIZE: i64 = 1_073_741_824;

/// Division of `n` by a positive `d`, rounding toward zero.
pub open spec fn div_trunc(n: int, d: int) -> int {
    if n >= 0 {
        n / d
    } else {
        -((-n) / d)
    }
}

/// `units` design units of a face with `upem` units per em, as an em value.
pub open spec fn em_of(units: int, upem: int) -> int {
    div_trunc(units * EM_SCALE, upem)
}

/// An em value resolved against a font size.
pub open spec fn resolved(em: int, size: int) -> int {
    div_trunc(em * size, EM_SCALE as int)
}

/// Whether an em value can be resolved without overflow.
pub open spec fn em_in_range(em: int) -> bool {
    -MAX_EM <= em <= MAX_EM
}

/// Whether a font size is in the supported range.
pub open spec fn size_in_range(size: int) -> bool {
    0 <= size <= MAX_SIZE
}

proof fn lemma_div_bound(n: int, d: int, b: int)
    requires
        d > 0,
        -b <= n <= b,
    ensures
        -b <= div_trunc(n, d) <= b,
        n >= 0 ==> div_trunc(n, d) >= 0,
{
    if n >= 0 {
        assert(n / d <= n) by (nonlinear_arith)
            requires n >= 0, d > 0;
        assert(n / d >= 0) by (nonlinear_arith)
            requires n >= 0, d > 0;
    } else {
        assert((-n) / d <= -n) by (nonlinear_arith)
            requires -n >= 0, d > 0;
        assert((-n) / d >= 0) by (nonlinear_arith)
            requires -n >= 0, d > 0;
    }
}

/// Converts design units of a face into an em value.
pub fn to_em(units: i32, upem: u16) -> (r: i64)
    requires
        upem > 0,
    ensures
        r == em_of(units as int, upem as int),
        -MAX_FONT_EM <= r <= MAX_FONT_EM,
{
    let n: i64 = (units as i64) * EM_SCALE;
    let d: i64 = upem as i64;
    proof {
        lemma_div_bound(n as int, d as int, MAX_FONT_EM as int);
    }
    if n >= 0 {
        n / d
    } else {
        -((-n) / d)
    }
}

/// Resolves an em value against a font size into a page length.
pub fn resolve(em: i64, size: i64) -> (r: i128)
    requires
        em_in_range(em as int),
        size_in_range(size as int),
    ensures
        r == resolved(em as int, size as int),
        -i64::MAX <= r <= i64::MAX,
{
    proof {
        assert(-(MAX_EM as int * MAX_SIZE as int) <= em as int * size as int <= MAX_EM as int * MAX_SIZE as int) by (nonlinear_arith)
            requires
                -MAX_EM <= em <= MAX_EM,
                0 <= size <= MAX_SIZE;
    }
    let n: i128 = (em as i128) * (size as i128);
    proof {
        let b: int = MAX_EM as int * MAX_SIZE as int;
        assert(-b <= n <= b) by (nonlinear_arith)
            requires
                n == em as int * size as int,
                -MAX_EM <= em <= MAX_EM,
                0 <= size <= MAX_SIZE,
                b == MAX_EM as int * MAX_SIZE as int;
        lemma_div_bound(n as int, EM_SCALE as int, b);
        assert(div_trunc(n as int, EM_SCALE as int) <= i64::MAX) by {
            let ni: int = n as int;
            if ni >= 0 {
                assert(ni / (EM_SCALE as int) <= b / (EM_SCALE as int)) by (nonlinear_arith)
                    requires 0 <= ni <= b, EM_SCALE > 0;
            }
        };
        assert(div_trunc(n as int, EM_SCALE as int) >= -i64::MAX) by {
            let ni: int = n as int;
            if ni < 0 {
                assert((-ni) / (EM_SCALE as int) <= b / (EM_SCALE as int)) by (nonlinear_arith)
                    requires 0 <= -ni <= b, EM_SCALE > 0;
            }
        };
    }
    let d: i128 = EM_SCALE as i128;
    if n >= 0 {
        n / d
    } else {
        -((-n) / d)
    }
}

} // verus!
