//! Small numeric helpers shared by map geometry consumers.

use vstd::prelude::*;

verus! {

/// Division rounding toward negative infinity: the result `r` is the
/// unique integer with `r*b <= a < (r+1)*b` for a positive divisor, and
/// `(r+1)*b < a <= r*b` for a negative one.
pub fn floor_div(a: i32, b: i32) -> (r: i32)
    requires
        b != 0,
        !(a == i32::MIN && b == -1),
    ensures
        b > 0 ==> b * r <= a < b * (r + 1),
        b < 0 ==> b * (r + 1) < a <= b * r,
{
    let ua: u32 = if a >= 0 {
        a as u32
    } else {
        (-(a as i64)) as u32
    };
    let ub: u32 = if b >= 0 {
        b as u32
    } else {
        (-(b as i64)) as u32
    };
    let ghost m: int = ua as int;
    let ghost n: int = ub as int;
    let q: u32 = ua / ub;
    let rm: u32 = ua % ub;
    proof {
        vstd::arithmetic::div_mod::lemma_fundamental_div_mod(m, n);
        assert(n * q + rm == m);
        assert(0 <= rm < n);
        assert(q <= n * q) by (nonlinear_arith)
            requires
                n >= 1,
                q >= 0,
        ;
        if n >= 2 {
            assert(2 * q <= n * q) by (nonlinear_arith)
                requires
                    n >= 2,
                    q >= 0,
            ;
        }
    }
    if (a < 0) == (b < 0) {
        let r = q as i32;
        proof {
            lemma_floor_div_case(a as int, b as int, m, n, q as int, rm as int, r as int);
        }
        r
    } else if rm == 0 {
        let r = (-(q as i64)) as i32;
        proof {
            lemma_floor_div_case(a as int, b as int, m, n, q as int, rm as int, r as int);
        }
        r
    } else {
        let r = (-((q as i64) + 1)) as i32;
        proof {
            lemma_floor_div_case(a as int, b as int, m, n, q as int, rm as int, r as int);
        }
        r
    }
}

/// The one flooring adjustment step, checked over the magnitudes.
proof fn lemma_floor_div_case(a: int, b: int, m: int, n: int, q: int, rm: int, r: int)
    requires
        b != 0,
        m == if a >= 0 {
            a
        } else {
            -a
        },
        n == if b >= 0 {
            b
        } else {
            -b
        },
        n * q + rm == m,
        0 <= rm < n,
        q >= 0,
        r == if (a < 0) == (b < 0) {
            q
        } else if rm == 0 {
            -q
        } else {
            -q - 1
        },
    ensures
        b > 0 ==> b * r <= a < b * (r + 1),
        b < 0 ==> b * (r + 1) < a <= b * r,
{
    assert(n * (q + 1) == n * q + n) by (nonlinear_arith);
    if a >= 0 && b > 0 {
        assert(b * r == n * q) by (nonlinear_arith)
            requires
                b == n && r == q,
        ;
        assert(b * (r + 1) == n * (q + 1)) by (nonlinear_arith)
            requires
                b == n && r == q,
        ;
    } else if a < 0 && b < 0 {
        assert(b * r == -(n * q)) by (nonlinear_arith)
            requires
                b == -n && r == q,
        ;
        assert(b * (r + 1) == -(n * (q + 1))) by (nonlinear_arith)
            requires
                b == -n && r == q,
        ;
    } else if a >= 0 && b < 0 {
        if rm == 0 {
            assert(b * r == n * q) by (nonlinear_arith)
                requires
                    b == -n && r == -q,
            ;
            assert(b * (r + 1) == n * q - n) by (nonlinear_arith)
                requires
                    b == -n && r == -q,
            ;
        } else {
            assert(b * r == n * q + n) by (nonlinear_arith)
                requires
                    b == -n && r == -q - 1,
            ;
            assert(b * (r + 1) == n * q) by (nonlinear_arith)
                requires
                    b == -n && r == -q - 1,
            ;
        }
    } else {
        // a < 0 && b > 0
        if rm == 0 {
            assert(b * r == -(n * q)) by (nonlinear_arith)
                requires
                    b == n && r == -q,
            ;
            assert(b * (r + 1) == -(n * q) + n) by (nonlinear_arith)
                requires
                    b == n && r == -q,
            ;
        } else {
            assert(b * r == -(n * q) - n) by (nonlinear_arith)
                requires
                    b == n && r == -q - 1,
            ;
            assert(b * (r + 1) == -(n * q)) by (nonlinear_arith)
                requires
                    b == n && r == -q - 1,
            ;
        }
    }
}

} // verus!
