//! Integer arithmetic that the layout needs: rounding down on division, and
//! products that outgrow sixty-four bits.

use vstd::prelude::*;

verus! {

/// The quotient of `a` by `b`, rounded down.
pub(crate) fn div_floor(a: i128, b: i128) -> (q: i128)
    requires
        b > 0,
    ensures
        q == a / b,
{
    if a >= 0 {
        a / b
    } else {
        let m: i128 = -(a + 1);
        let q0: i128 = m / b;
        proof {
            let r0 = (m as int) % (b as int);
            vstd::arithmetic::div_mod::lemma_fundamental_div_mod(m as int, b as int);
            assert(0 <= r0 < b) by {
                vstd::arithmetic::div_mod::lemma_mod_bound(m as int, b as int);
            }
            assert(0 <= q0 <= m) by {
                vstd::arithmetic::div_mod::lemma_div_pos_is_pos(m as int, b as int);
                vstd::arithmetic::div_mod::lemma_div_is_ordered_by_denominator(m as int, 1, b as int);
            }
            assert((a as int) == (-(q0 as int) - 1) * (b as int) + ((b as int) - r0 - 1)) by (nonlinear_arith)
                requires
                    (m as int) == (b as int) * (q0 as int) + r0,
                    (m as int) == -((a as int) + 1),
            ;
            vstd::arithmetic::div_mod::lemma_fundamental_div_mod_converse(
                a as int,
                b as int,
                -(q0 as int) - 1,
                (b as int) - r0 - 1,
            );
        }
        -q0 - 1
    }
}

/// The product of two sixty-four bit numbers.
pub(crate) fn mul_wide(a: i64, b: i64) -> (p: i128)
    ensures
        p == a * b,
{
    proof {
        assert(-0x4000_0000_0000_0000_0000_0000_0000_0000 <= (a as int) * (b as int)
            <= 0x4000_0000_0000_0000_0000_0000_0000_0000) by (nonlinear_arith)
            requires
                -0x8000_0000_0000_0000 <= (a as int) <= 0x7fff_ffff_ffff_ffff,
                -0x8000_0000_0000_0000 <= (b as int) <= 0x7fff_ffff_ffff_ffff,
        ;
    }
    (a as i128) * (b as i128)
}

} // verus!
