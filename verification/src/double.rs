//! Bit-level representation of IEEE-754 double-precision values.
//!
//! The value model carries a double as its raw 64-bit pattern, so that the
//! rest of the library can reason about it as a plain integer.  The one
//! numeric conversion the model performs itself — widening a 64-bit signed
//! integer to the nearest double, rounding half to even — is defined here as
//! integer arithmetic and proved against that definition.

use vstd::prelude::*;
use vstd::arithmetic::power2::{lemma2_to64, lemma2_to64_rest, lemma_pow2_adds, lemma_pow2_pos,
    lemma_pow2_strictly_increases, pow2};

verus! {

/// The bit pattern of an IEEE-754 double-precision value, carried as a
/// plain 64-bit integer: sign in bit 63, biased exponent in bits 52..63,
/// fraction in bits 0..52.
#[derive(Clone, Copy, Debug, PartialEq, Eq, Structural)]
pub struct FloatBits {
    pub bits: u64,
}

/// Position of the most significant set bit of `m`, i.e. the floor of the
/// base-2 logarithm for `m >= 1` (and 0 for `m == 0`).
pub open spec fn msb_pos(m: nat) -> nat
    decreases m,
{
    if m <= 1 {
        0
    } else {
        1 + msb_pos((m / 2) as nat)
    }
}

/// The defining property of `msb_pos`: it brackets `m` between two
/// consecutive powers of two.
pub proof fn lemma_msb_pos_bounds(m: nat)
    requires
        m >= 1,
    ensures
        pow2(msb_pos(m)) <= m < pow2(msb_pos(m) + 1),
    decreases m,
{
    if m <= 1 {
        lemma2_to64();
    } else {
        lemma_msb_pos_bounds((m / 2) as nat);
        assert(pow2(msb_pos(m)) == 2 * pow2(msb_pos((m / 2) as nat))) by {
            lemma_pow2_adds(1, msb_pos((m / 2) as nat));
            lemma2_to64();
        }
        assert(pow2(msb_pos(m) + 1) == 2 * pow2(msb_pos((m / 2) as nat) + 1)) by {
            lemma_pow2_adds(1, msb_pos((m / 2) as nat) + 1);
            lemma2_to64();
        }
    }
}

/// The magnitude of `i` as a mathematical natural number.
pub open spec fn int_magnitude(i: i64) -> nat {
    if i < 0 {
        (-(i as int)) as nat
    } else {
        i as nat
    }
}

/// The IEEE-754 double-precision bit pattern that the integer `i` widens
/// to, with round-half-to-even when the magnitude needs more than 53
/// significant bits.  This is the rounding the format prescribes, so the
/// widening is exact for every magnitude below 2^53.
pub open spec fn double_bits_of_int(i: i64) -> nat {
    if i == 0 {
        0
    } else {
        let mag = int_magnitude(i);
        let n = msb_pos(mag);
        let sign: nat = if i < 0 { pow2(63) } else { 0 };
        if n <= 52 {
            sign + (n + 1023) * pow2(52) + ((mag * pow2((52 - n) as nat) - pow2(52)) as nat)
        } else {
            let d = pow2((n - 52) as nat);
            let q = mag / d;
            let r = mag % d;
            let q2: nat = if 2 * r > d || (2 * r == d && q % 2 == 1) {
                q + 1
            } else {
                q
            };
            if q2 == pow2(53) {
                sign + (n + 1024) * pow2(52)
            } else {
                sign + (n + 1023) * pow2(52) + ((q2 - pow2(52)) as nat)
            }
        }
    }
}

/// Position of the most significant set bit of `m`.
fn msb_pos_exec(m: u64) -> (n: u64)
    requires
        m >= 1,
    ensures
        n == msb_pos(m as nat),
        n <= 63,
{
    let mut x: u64 = m;
    let mut n: u64 = 0;
    proof {
        lemma2_to64();
        lemma2_to64_rest();
    }
    while x > 1
        invariant
            1 <= x,
            n <= 63,
            msb_pos(m as nat) == n + msb_pos(x as nat),
            pow2(n as nat) * x <= m as nat,
            m < pow2(64),
        decreases x,
    {
        proof {
            // One more doubling still fits under m, so n + 1 stays below 64.
            assert(pow2((n + 1) as nat) * ((x / 2) as nat) <= pow2(n as nat) * x
                && pow2((n + 1) as nat) <= pow2(n as nat) * x) by {
                lemma_pow2_adds(n as nat, 1);
                lemma2_to64();
                assert(pow2(n as nat) * 2 * ((x / 2) as nat) <= pow2(n as nat) * x
                    && pow2(n as nat) * 2 * 1 <= pow2(n as nat) * x) by (nonlinear_arith)
                    requires
                        x >= 2,
                        pow2(n as nat) >= 0,
                ;
            }
            assert(n + 1 <= 63) by {
                if n + 1 > 63 {
                    lemma2_to64();
                    lemma2_to64_rest();
                    if 64 < n + 1 {
                        lemma_pow2_strictly_increases(64, (n + 1) as nat);
                    }
                    assert(pow2((n + 1) as nat) >= pow2(64));
                }
            }
        }
        x = x / 2;
        n = n + 1;
    }
    n
}

/// 2 to the power `k`, as a machine integer.
fn pow2_exec(k: u64) -> (r: u64)
    requires
        k <= 63,
    ensures
        r == pow2(k as nat),
{
    let mut j: u64 = 0;
    let mut r: u64 = 1;
    proof {
        lemma2_to64();
    }
    while j < k
        invariant
            j <= k <= 63,
            r == pow2(j as nat),
        decreases k - j,
    {
        proof {
            lemma_pow2_adds(j as nat, 1);
            lemma2_to64();
            lemma2_to64_rest();
            if ((j + 1) as nat) < 63 {
                lemma_pow2_strictly_increases((j + 1) as nat, 63);
            }
        }
        r = 2 * r;
        j = j + 1;
    }
    r
}

/// Widens a 64-bit signed integer to the IEEE-754 double that is nearest
/// to it (ties to even), returning the double's bit pattern.
pub fn int_to_double_bits(i: i64) -> (r: FloatBits)
    ensures
        r.bits == double_bits_of_int(i),
{
    proof {
        lemma2_to64();
        lemma2_to64_rest();
    }
    if i == 0 {
        return FloatBits { bits: 0 };
    }
    let neg = i < 0;
    let mag: u64 = if i == i64::MIN {
        9223372036854775808u64
    } else if neg {
        (-i) as u64
    } else {
        i as u64
    };
    assert(mag as nat == int_magnitude(i));
    let n = msb_pos_exec(mag);
    proof {
        lemma_msb_pos_bounds(mag as nat);
    }
    let sign: u64 = if neg {
        9223372036854775808u64
    } else {
        0
    };
    let pow52: u64 = 4503599627370496u64;
    assert(pow52 == pow2(52));
    if n <= 52 {
        let shift = pow2_exec(52 - n);
        proof {
            lemma_pow2_adds((n + 1) as nat, (52 - n) as nat);
            assert((mag as nat) * pow2((52 - n) as nat) < pow2((n + 1) as nat) * pow2((52 - n)
                as nat)) by (nonlinear_arith)
                requires
                    (mag as nat) < pow2((n + 1) as nat),
                    pow2((52 - n) as nat) > 0,
            ;
            lemma_pow2_adds(n as nat, (52 - n) as nat);
            assert((mag as nat) * pow2((52 - n) as nat) >= pow2(n as nat) * pow2((52 - n) as nat))
                by (nonlinear_arith)
                requires
                    (mag as nat) >= pow2(n as nat),
                    pow2((52 - n) as nat) > 0,
            ;
            lemma_pow2_pos((52 - n) as nat);
        }
        let mant = mag * shift;
        proof {
            assert((n + 1023) * pow2(52) <= 1075 * pow2(52)) by (nonlinear_arith)
                requires
                    n + 1023 <= 1075,
                    pow2(52) > 0,
            ;
        }
        let exp: u64 = (n + 1023) * pow52;
        FloatBits { bits: sign + exp + (mant - pow52) }
    } else {
        let d = pow2_exec(n - 52);
        proof {
            lemma_pow2_pos((n - 52) as nat);
            if ((n - 52) as nat) < 63 {
                lemma_pow2_strictly_increases((n - 52) as nat, 63);
            }
        }
        let q = mag / d;
        let r = mag % d;
        proof {
            // q == mag / d is at least 2^52 and less than 2^53.
            lemma_pow2_adds(52, (n - 52) as nat);
            lemma_pow2_adds(53, (n - 52) as nat);
            assert((mag as nat) / (d as nat) >= pow2(52)) by (nonlinear_arith)
                requires
                    (mag as nat) >= pow2(52) * (d as nat),
                    (d as nat) > 0,
            ;
            assert((mag as nat) / (d as nat) < pow2(53)) by (nonlinear_arith)
                requires
                    (mag as nat) < pow2(53) * (d as nat),
                    (d as nat) > 0,
            ;
        }
        let round_up = 2 * r > d || (2 * r == d && q % 2 == 1);
        let q2 = if round_up {
            q + 1
        } else {
            q
        };
        let pow53: u64 = 9007199254740992u64;
        assert(pow53 == pow2(53));
        if q2 == pow53 {
            proof {
                assert((n + 1024) * pow2(52) <= 1088 * pow2(52)) by (nonlinear_arith)
                    requires
                        n + 1024 <= 1088,
                        pow2(52) > 0,
                ;
            }
            let exp: u64 = (n + 1024) * pow52;
            FloatBits { bits: sign + exp }
        } else {
            proof {
                assert((n + 1023) * pow2(52) <= 1087 * pow2(52)) by (nonlinear_arith)
                    requires
                        n + 1023 <= 1087,
                        pow2(52) > 0,
                ;
            }
            let exp: u64 = (n + 1023) * pow52;
            FloatBits { bits: sign + exp + (q2 - pow52) }
        }
    }
}

} // verus!
