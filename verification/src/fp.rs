//! IEEE binary64 arithmetic emulated bit-exactly on integers.
//!
//! A value is carried as its 64-bit encoding (sign, 11 exponent bits, 52
//! fraction bits). The operations here — add, sub, mul, div, sqrt, compare
//! and the casts — round to nearest, ties to even, and reproduce the
//! hardware results bit for bit, which the blend formulas that were defined
//! over doubles require. Each executable function is proved equal to its
//! spec-level mirror; the mirrors are the reference statement of the
//! rounding arithmetic.

use vstd::prelude::*;

verus! {

/// 2^52, the implicit-one position of the binary64 fraction.
pub const P52: u64 = 0x10000000000000;

/// 2^53.
pub const P53: u64 = 0x20000000000000;

/// 2^55.
pub const P55: u64 = 0x80000000000000;

/// 2^56.
pub const P56: u64 = 0x100000000000000;

/// 2^63, the sign bit.
pub const P63: u64 = 0x8000000000000000;

/// The all-ones exponent that marks infinities and NaNs.
pub const EXP_MAX: u64 = 0x7ff;

/// The canonical quiet NaN encoding.
pub const QNAN: u64 = 0x7ff8000000000000;

/// The sign field of an encoding: 0 or 1.
pub open spec fn spec_sign(a: u64) -> int {
    (a as int) / (P63 as int)
}

/// The biased exponent field of an encoding.
pub open spec fn spec_exp(a: u64) -> int {
    ((a as int) / (P52 as int)) % 0x800
}

/// The fraction field of an encoding.
pub open spec fn spec_frac(a: u64) -> int {
    (a as int) % (P52 as int)
}

/// True when the encoding is a NaN.
pub open spec fn spec_is_nan(a: u64) -> bool {
    spec_exp(a) == EXP_MAX && spec_frac(a) != 0
}

/// True when the encoding is a zero of either sign.
pub open spec fn spec_is_zero(a: u64) -> bool {
    spec_exp(a) == 0 && spec_frac(a) == 0
}

/// Normalize a nonzero significand below 2^53 into [2^52, 2^53); yields the
/// shifted significand and the shift amount.
pub open spec fn spec_norm52(sig0: int) -> (int, int) {
    let (s1, h1): (int, int) = if sig0 < 0x200000 {
        (sig0 * 0x100000000, 32)
    } else {
        (sig0, 0)
    };
    let (s2, h2): (int, int) = if s1 < 0x2000000000 {
        (s1 * 0x10000, h1 + 16)
    } else {
        (s1, h1)
    };
    let (s3, h3): (int, int) = if s2 < 0x200000000000 {
        (s2 * 0x100, h2 + 8)
    } else {
        (s2, h2)
    };
    let (s4, h4): (int, int) = if s3 < 0x2000000000000 {
        (s3 * 0x10, h3 + 4)
    } else {
        (s3, h3)
    };
    let (s5, h5): (int, int) = if s4 < 0x8000000000000 {
        (s4 * 0x4, h4 + 2)
    } else {
        (s4, h4)
    };
    if s5 < 0x10000000000000 {
        (s5 * 0x2, h5 + 1)
    } else {
        (s5, h5)
    }
}

fn norm52(sig0: u64) -> (r: (u64, u64))
    requires
        1 <= sig0 < P53,
    ensures
        (r.0 as int, r.1 as int) == spec_norm52(sig0 as int),
        P52 <= r.0 < P53,
        r.1 <= 52,
{
    let mut sig = sig0;
    let mut sh: u64 = 0;
    if sig < 0x200000 {
        sig = sig * 0x100000000;
        sh = sh + 32;
    }
    if sig < 0x2000000000 {
        sig = sig * 0x10000;
        sh = sh + 16;
    }
    if sig < 0x200000000000 {
        sig = sig * 0x100;
        sh = sh + 8;
    }
    if sig < 0x2000000000000 {
        sig = sig * 0x10;
        sh = sh + 4;
    }
    if sig < 0x8000000000000 {
        sig = sig * 0x4;
        sh = sh + 2;
    }
    if sig < 0x10000000000000 {
        sig = sig * 0x2;
        sh = sh + 1;
    }
    (sig, sh)
}

/// Normalize a nonzero working significand below 2^56 into [2^55, 2^56).
pub open spec fn spec_norm55(sig0: int) -> (int, int) {
    let (s1, h1): (int, int) = if sig0 < 0x1000000 {
        (sig0 * 0x100000000, 32)
    } else {
        (sig0, 0)
    };
    let (s2, h2): (int, int) = if s1 < 0x10000000000 {
        (s1 * 0x10000, h1 + 16)
    } else {
        (s1, h1)
    };
    let (s3, h3): (int, int) = if s2 < 0x1000000000000 {
        (s2 * 0x100, h2 + 8)
    } else {
        (s2, h2)
    };
    let (s4, h4): (int, int) = if s3 < 0x10000000000000 {
        (s3 * 0x10, h3 + 4)
    } else {
        (s3, h3)
    };
    let (s5, h5): (int, int) = if s4 < 0x40000000000000 {
        (s4 * 0x4, h4 + 2)
    } else {
        (s4, h4)
    };
    if s5 < 0x80000000000000 {
        (s5 * 0x2, h5 + 1)
    } else {
        (s5, h5)
    }
}

fn norm55(sig0: u64) -> (r: (u64, u64))
    requires
        1 <= sig0 < P56,
    ensures
        (r.0 as int, r.1 as int) == spec_norm55(sig0 as int),
        P55 <= r.0 < P56,
        r.1 <= 55,
{
    let mut sig = sig0;
    let mut sh: u64 = 0;
    if sig < 0x1000000 {
        sig = sig * 0x100000000;
        sh = sh + 32;
    }
    if sig < 0x10000000000 {
        sig = sig * 0x10000;
        sh = sh + 16;
    }
    if sig < 0x1000000000000 {
        sig = sig * 0x100;
        sh = sh + 8;
    }
    if sig < 0x10000000000000 {
        sig = sig * 0x10;
        sh = sh + 4;
    }
    if sig < 0x40000000000000 {
        sig = sig * 0x4;
        sh = sh + 2;
    }
    if sig < 0x80000000000000 {
        sig = sig * 0x2;
        sh = sh + 1;
    }
    (sig, sh)
}

/// The normalized significand and adjusted biased exponent of a nonzero
/// finite encoding: the significand lands in [2^52, 2^53) and the value is
/// `significand * 2^(exponent - 1075)` (ignoring sign).
pub open spec fn spec_sig_exp(e: int, m: int) -> (int, int) {
    if e == 0 {
        let (sig, sh) = spec_norm52(m);
        (sig, 1 - sh)
    } else {
        (m + P52 as int, e)
    }
}

fn sig_exp(e: u64, m: u64) -> (r: (u64, i64))
    requires
        e < EXP_MAX,
        m < P52,
        e != 0 || m != 0,
    ensures
        (r.0 as int, r.1 as int) == spec_sig_exp(e as int, m as int),
        P52 <= r.0 < P53,
        -52 <= r.1 as int <= 2046,
{
    if e == 0 {
        let (sig, sh) = norm52(m);
        (sig, 1i64 - (sh as i64))
    } else {
        (m + P52, e as i64)
    }
}

/// 2^k for k up to 63.
fn pow2_u64(k: u64) -> (r: u64)
    requires
        k <= 63,
    ensures
        r as nat == vstd::arithmetic::power2::pow2(k as nat),
        r >= 1,
{
    proof {
        vstd::arithmetic::power2::lemma2_to64();
        vstd::arithmetic::power2::lemma2_to64_rest();
    }
    let mut r: u64 = 1;
    let mut i: u64 = 0;
    while i < k
        invariant
            i <= k <= 63,
            r as nat == vstd::arithmetic::power2::pow2(i as nat),
        decreases k - i,
    {
        proof {
            vstd::arithmetic::power2::lemma_pow2_unfold((i + 1) as nat);
            vstd::arithmetic::power2::lemma_pow2_strictly_increases(i as nat, 63);
            vstd::arithmetic::power2::lemma2_to64_rest();
        }
        r = r * 2;
        i = i + 1;
    }
    r
}

/// Round a working significand (three extra low bits: guard, round, sticky)
/// to nearest-even and pack sign, exponent and fraction into an encoding,
/// overflowing to infinity and underflowing through the subnormal range.
pub open spec fn spec_round_pack(s: int, exp: int, sig0: int) -> u64 {
    if exp >= 0x7ff {
        (s * P63 as int + EXP_MAX as int * P52 as int) as u64
    } else if exp <= 0 {
        let shift = 1 - exp;
        let sig1: int = if shift > 63 {
            if sig0 != 0 {
                1
            } else {
                0
            }
        } else {
            let p = vstd::arithmetic::power2::pow2(shift as nat) as int;
            let sh = sig0 / p;
            if sig0 % p != 0 {
                if sh % 2 == 0 {
                    sh + 1
                } else {
                    sh
                }
            } else {
                sh
            }
        };
        let lsb = (sig1 / 8) % 2;
        let grs = sig1 % 8;
        let sig2 = sig1 / 8;
        let sig3: int = if grs > 4 || (grs == 4 && lsb == 1) {
            sig2 + 1
        } else {
            sig2
        };
        (s * P63 as int + sig3) as u64
    } else {
        let lsb = (sig0 / 8) % 2;
        let grs = sig0 % 8;
        let sig2 = sig0 / 8;
        let sig3: int = if grs > 4 || (grs == 4 && lsb == 1) {
            sig2 + 1
        } else {
            sig2
        };
        if sig3 == P53 as int {
            if exp + 1 >= 0x7ff {
                (s * P63 as int + EXP_MAX as int * P52 as int) as u64
            } else {
                (s * P63 as int + (exp + 1) * P52 as int) as u64
            }
        } else {
            (s * P63 as int + exp * P52 as int + (sig3 - P52 as int)) as u64
        }
    }
}

fn round_pack(s: u64, exp: i64, sig0: u64) -> (r: u64)
    requires
        s <= 1,
        P55 <= sig0 < P56,
        -100000 <= exp as int <= 100000,
    ensures
        r == spec_round_pack(s as int, exp as int, sig0 as int),
{
    if exp >= 0x7ff {
        s * P63 + EXP_MAX * P52
    } else if exp <= 0 {
        let shift: i64 = 1 - exp;
        let sig1: u64 = if shift > 63 {
            if sig0 != 0 {
                1
            } else {
                0
            }
        } else {
            let p = pow2_u64(shift as u64);
            let sh = sig0 / p;
            if sig0 % p != 0 {
                if sh % 2 == 0 {
                    sh + 1
                } else {
                    sh
                }
            } else {
                sh
            }
        };
        let lsb = (sig1 / 8) % 2;
        let grs = sig1 % 8;
        let sig2 = sig1 / 8;
        let sig3: u64 = if grs > 4 || (grs == 4 && lsb == 1) {
            sig2 + 1
        } else {
            sig2
        };
        s * P63 + sig3
    } else {
        let lsb = (sig0 / 8) % 2;
        let grs = sig0 % 8;
        let sig2 = sig0 / 8;
        let sig3: u64 = if grs > 4 || (grs == 4 && lsb == 1) {
            sig2 + 1
        } else {
            sig2
        };
        if sig3 == P53 {
            if exp + 1 >= 0x7ff {
                s * P63 + EXP_MAX * P52
            } else {
                s * P63 + ((exp + 1) as u64) * P52
            }
        } else {
            s * P63 + (exp as u64) * P52 + (sig3 - P52)
        }
    }
}

/// Flip the sign of an encoding.
pub open spec fn spec_fneg(a: u64) -> u64 {
    if a >= P63 {
        (a - P63 as int) as u64
    } else {
        (a + P63 as int) as u64
    }
}

/// Negation: flips the sign bit.
pub fn fneg(a: u64) -> (r: u64)
    ensures
        r == spec_fneg(a),
{
    if a >= P63 {
        a - P63
    } else {
        a + P63
    }
}

/// Apply a sticky bit to an already shifted significand: force the low bit
/// on when any shifted-out bit was set.
pub open spec fn spec_or_sticky(sh: int, lost: bool) -> int {
    if lost {
        if sh % 2 == 0 {
            sh + 1
        } else {
            sh
        }
    } else {
        sh
    }
}

/// Addition of two encodings, rounding to nearest even.
pub open spec fn spec_fadd(a: u64, b: u64) -> u64 {
    let sa = spec_sign(a);
    let ea = spec_exp(a);
    let ma = spec_frac(a);
    let sb = spec_sign(b);
    let eb = spec_exp(b);
    let mb = spec_frac(b);
    if ea == EXP_MAX || eb == EXP_MAX {
        if (ea == EXP_MAX && ma != 0) || (eb == EXP_MAX && mb != 0) {
            QNAN
        } else if ea == EXP_MAX && eb == EXP_MAX {
            if sa == sb {
                a
            } else {
                QNAN
            }
        } else if ea == EXP_MAX {
            a
        } else {
            b
        }
    } else if ea == 0 && ma == 0 {
        if eb == 0 && mb == 0 {
            if sa == sb {
                a
            } else {
                0
            }
        } else {
            b
        }
    } else if eb == 0 && mb == 0 {
        a
    } else {
        spec_fadd_core(sa, ea, ma, sb, eb, mb)
    }
}

/// Shift a working significand right by `d` places, folding the lost bits
/// into a sticky low bit.
pub open spec fn spec_align_sticky(sigb: int, d: int) -> int {
    if d > 60 {
        if sigb != 0 {
            1
        } else {
            0
        }
    } else if d > 0 {
        let p = vstd::arithmetic::power2::pow2(d as nat) as int;
        spec_or_sticky(sigb / p, sigb % p != 0)
    } else {
        sigb
    }
}

fn align_sticky(sigb: u64, d: i64) -> (r: u64)
    requires
        0 <= d,
        sigb < P56,
    ensures
        r == spec_align_sticky(sigb as int, d as int),
        r <= sigb,
        d > 0 ==> r <= P55,
{
    if d > 60 {
        if sigb != 0 {
            1
        } else {
            0
        }
    } else if d > 0 {
        let p = pow2_u64(d as u64);
        let sh = sigb / p;
        proof {
            vstd::arithmetic::div_mod::lemma_fundamental_div_mod(sigb as int, p as int);
            if p >= 2 {
                vstd::arithmetic::div_mod::lemma_div_is_ordered_by_denominator(sigb as int, 2, p as int);
                vstd::arithmetic::div_mod::lemma_div_is_ordered(sigb as int, P56 as int - 1, 2);
            }
            assert(p >= 2) by {
                vstd::arithmetic::power2::lemma2_to64();
                if d > 1 {
                    vstd::arithmetic::power2::lemma_pow2_strictly_increases(1, d as nat);
                }
            };
        }
        if sigb % p != 0 {
            if sh % 2 == 0 {
                sh + 1
            } else {
                sh
            }
        } else {
            sh
        }
    } else {
        sigb
    }
}

/// The finite nonzero path of addition.
pub open spec fn spec_fadd_core(sa: int, ea: int, ma: int, sb: int, eb: int, mb: int) -> u64 {
    {
        let (siga0, expa0) = spec_sig_exp(ea, ma);
        let (sigb0, expb0) = spec_sig_exp(eb, mb);
        let siga1 = siga0 * 8;
        let sigb1 = sigb0 * 8;
        let swap = expa0 < expb0 || (expa0 == expb0 && siga1 < sigb1);
        let (siga, sigb): (int, int) = if swap {
            (sigb1, siga1)
        } else {
            (siga1, sigb1)
        };
        let (expa, expb): (int, int) = if swap {
            (expb0, expa0)
        } else {
            (expa0, expb0)
        };
        let ssa: int = if swap {
            sb
        } else {
            sa
        };
        let d = expa - expb;
        let sigb2 = spec_align_sticky(sigb, d);
        if sa == sb {
            let sum = siga + sigb2;
            if sum >= P56 as int {
                spec_round_pack(ssa, expa + 1, spec_or_sticky(sum / 2, sum % 2 != 0))
            } else {
                spec_round_pack(ssa, expa, sum)
            }
        } else {
            let diff = siga - sigb2;
            if diff == 0 {
                0
            } else {
                let (sig2, sh) = spec_norm55(diff);
                spec_round_pack(ssa, expa - sh, sig2)
            }
        }
    }
}

/// Add two doubles (by encoding).
#[verifier::rlimit(100)]
pub fn fadd(a: u64, b: u64) -> (r: u64)
    ensures
        r == spec_fadd(a, b),
{
    let sa: u64 = a / P63;
    let ea: u64 = (a / P52) % 0x800;
    let ma: u64 = a % P52;
    let sb: u64 = b / P63;
    let eb: u64 = (b / P52) % 0x800;
    let mb: u64 = b % P52;
    if ea == EXP_MAX || eb == EXP_MAX {
        if (ea == EXP_MAX && ma != 0) || (eb == EXP_MAX && mb != 0) {
            QNAN
        } else if ea == EXP_MAX && eb == EXP_MAX {
            if sa == sb {
                a
            } else {
                QNAN
            }
        } else if ea == EXP_MAX {
            a
        } else {
            b
        }
    } else if ea == 0 && ma == 0 {
        if eb == 0 && mb == 0 {
            if sa == sb {
                a
            } else {
                0
            }
        } else {
            b
        }
    } else if eb == 0 && mb == 0 {
        a
    } else {
        fadd_core(sa, ea, ma, sb, eb, mb)
    }
}

#[verifier::rlimit(100)]
fn fadd_core(sa: u64, ea: u64, ma: u64, sb: u64, eb: u64, mb: u64) -> (r: u64)
    requires
        sa <= 1,
        sb <= 1,
        ea < EXP_MAX,
        eb < EXP_MAX,
        ma < P52,
        mb < P52,
        ea != 0 || ma != 0,
        eb != 0 || mb != 0,
    ensures
        r == spec_fadd_core(sa as int, ea as int, ma as int, sb as int, eb as int, mb as int),
{
    {
        let (siga0, expa0) = sig_exp(ea, ma);
        let (sigb0, expb0) = sig_exp(eb, mb);
        let siga1: u64 = siga0 * 8;
        let sigb1: u64 = sigb0 * 8;
        let swap = expa0 < expb0 || (expa0 == expb0 && siga1 < sigb1);
        let siga: u64 = if swap {
            sigb1
        } else {
            siga1
        };
        let sigb: u64 = if swap {
            siga1
        } else {
            sigb1
        };
        let expa: i64 = if swap {
            expb0
        } else {
            expa0
        };
        let expb: i64 = if swap {
            expa0
        } else {
            expb0
        };
        let ssa: u64 = if swap {
            sb
        } else {
            sa
        };
        let d: i64 = expa - expb;
        let sigb2: u64 = align_sticky(sigb, d);
        if sa == sb {
            let sum: u64 = siga + sigb2;
            if sum >= P56 {
                let half = sum / 2;
                let s2: u64 = if sum % 2 != 0 {
                    if half % 2 == 0 {
                        half + 1
                    } else {
                        half
                    }
                } else {
                    half
                };
                round_pack(ssa, expa + 1, s2)
            } else {
                round_pack(ssa, expa, sum)
            }
        } else {
            assert(sigb2 <= siga) by {
                assert(siga >= P55);
            };
            let diff: u64 = siga - sigb2;
            if diff == 0 {
                0
            } else {
                let (sig2, sh) = norm55(diff);
                round_pack(ssa, expa - (sh as i64), sig2)
            }
        }
    }
}

/// 2^49 as a wide integer.
pub const Q49: u128 = 0x2000000000000;

/// 2^50 as a wide integer.
pub const Q50: u128 = 0x4000000000000;

/// 2^55 as a wide integer.
pub const Q55: u128 = 0x80000000000000;

/// 2^56 as a wide integer.
pub const Q56: u128 = 0x100000000000000;

/// 2^104 as a wide integer.
pub const Q104: u128 = 0x100000000000000000000000000;

/// 2^105 as a wide integer.
pub const Q105: u128 = 0x200000000000000000000000000;

/// 2^110 as a wide integer.
pub const Q110: u128 = 0x4000000000000000000000000000;

/// Multiplication of two encodings, rounding to nearest even.
pub open spec fn spec_fmul(a: u64, b: u64) -> u64 {
    let sa = spec_sign(a);
    let ea = spec_exp(a);
    let ma = spec_frac(a);
    let sb = spec_sign(b);
    let eb = spec_exp(b);
    let mb = spec_frac(b);
    let sr: int = if sa == sb {
        0
    } else {
        1
    };
    if ea == EXP_MAX || eb == EXP_MAX {
        if (ea == EXP_MAX && ma != 0) || (eb == EXP_MAX && mb != 0) {
            QNAN
        } else if (ea == EXP_MAX && eb == 0 && mb == 0) || (eb == EXP_MAX && ea == 0 && ma == 0) {
            QNAN
        } else {
            (sr * P63 as int + EXP_MAX as int * P52 as int) as u64
        }
    } else if (ea == 0 && ma == 0) || (eb == 0 && mb == 0) {
        (sr * P63 as int) as u64
    } else {
        let (siga, expa) = spec_sig_exp(ea, ma);
        let (sigb, expb) = spec_sig_exp(eb, mb);
        let prod = siga * sigb;
        let exp = expa + expb - 1023;
        let (sh, exp2): (int, int) = if prod >= Q105 as int {
            (Q50 as int, exp + 1)
        } else {
            (Q49 as int, exp)
        };
        let sig = spec_or_sticky(prod / sh, prod % sh != 0);
        spec_round_pack(sr, exp2, sig)
    }
}

/// Multiply two doubles (by encoding).
#[verifier::rlimit(80)]
pub fn fmul(a: u64, b: u64) -> (r: u64)
    ensures
        r == spec_fmul(a, b),
{
    let sa: u64 = a / P63;
    let ea: u64 = (a / P52) % 0x800;
    let ma: u64 = a % P52;
    let sb: u64 = b / P63;
    let eb: u64 = (b / P52) % 0x800;
    let mb: u64 = b % P52;
    let sr: u64 = if sa == sb {
        0
    } else {
        1
    };
    if ea == EXP_MAX || eb == EXP_MAX {
        if (ea == EXP_MAX && ma != 0) || (eb == EXP_MAX && mb != 0) {
            QNAN
        } else if (ea == EXP_MAX && eb == 0 && mb == 0) || (eb == EXP_MAX && ea == 0 && ma == 0) {
            QNAN
        } else {
            sr * P63 + EXP_MAX * P52
        }
    } else if (ea == 0 && ma == 0) || (eb == 0 && mb == 0) {
        sr * P63
    } else {
        let (siga, expa) = sig_exp(ea, ma);
        let (sigb, expb) = sig_exp(eb, mb);
        assert(Q104 <= (siga as u128) * (sigb as u128) && (siga as u128) * (sigb as u128)
            < Q105 * 2) by (nonlinear_arith)
            requires
                P52 <= siga < P53 && P52 <= sigb < P53,
        ;
        let prod: u128 = (siga as u128) * (sigb as u128);
        let exp: i64 = expa + expb - 1023;
        let sh: u128;
        let exp2: i64;
        if prod >= Q105 {
            sh = Q50;
            exp2 = exp + 1;
        } else {
            sh = Q49;
            exp2 = exp;
        }
        let q = prod / sh;
        assert(Q55 <= q < Q56) by {
            vstd::arithmetic::div_mod::lemma_div_is_ordered(Q104 as int, prod as int, sh as int);
            if prod >= Q105 {
                vstd::arithmetic::div_mod::lemma_div_is_ordered(
                    Q105 as int,
                    prod as int,
                    Q50 as int,
                );
            }
            assert(Q104 as int / Q49 as int == Q55 as int);
            assert(Q105 as int / Q50 as int == Q55 as int);
            vstd::arithmetic::div_mod::lemma_fundamental_div_mod(prod as int, sh as int);
        };
        let sig: u64 = if prod % sh != 0 {
            if q % 2 == 0 {
                (q + 1) as u64
            } else {
                q as u64
            }
        } else {
            q as u64
        };
        round_pack(sr, exp2, sig)
    }
}

/// Division of two encodings, rounding to nearest even.
pub open spec fn spec_fdiv(a: u64, b: u64) -> u64 {
    let sa = spec_sign(a);
    let ea = spec_exp(a);
    let ma = spec_frac(a);
    let sb = spec_sign(b);
    let eb = spec_exp(b);
    let mb = spec_frac(b);
    let sr: int = if sa == sb {
        0
    } else {
        1
    };
    if ea == EXP_MAX || eb == EXP_MAX {
        if (ea == EXP_MAX && ma != 0) || (eb == EXP_MAX && mb != 0) {
            QNAN
        } else if ea == EXP_MAX && eb == EXP_MAX {
            QNAN
        } else if ea == EXP_MAX {
            (sr * P63 as int + EXP_MAX as int * P52 as int) as u64
        } else {
            (sr * P63 as int) as u64
        }
    } else if eb == 0 && mb == 0 {
        if ea == 0 && ma == 0 {
            QNAN
        } else {
            (sr * P63 as int + EXP_MAX as int * P52 as int) as u64
        }
    } else if ea == 0 && ma == 0 {
        (sr * P63 as int) as u64
    } else {
        let (siga, expa) = spec_sig_exp(ea, ma);
        let (sigb, expb) = spec_sig_exp(eb, mb);
        let exp = expa - expb + 1023;
        let num = siga * Q55 as int;
        let q = num / sigb;
        let rem = num % sigb;
        if q >= Q56 as int {
            let sig = if q % 2 != 0 || rem != 0 {
                spec_or_sticky(q / 2, true)
            } else {
                spec_or_sticky(q / 2, false)
            };
            spec_round_pack(sr, exp + 1, sig)
        } else if q < Q55 as int {
            let num2 = num * 2;
            let q2 = num2 / sigb;
            let rem2 = num2 % sigb;
            spec_round_pack(sr, exp - 1, spec_or_sticky(q2, rem2 != 0))
        } else {
            spec_round_pack(sr, exp, spec_or_sticky(q, rem != 0))
        }
    }
}

/// Divide two doubles (by encoding).
#[verifier::rlimit(100)]
pub fn fdiv(a: u64, b: u64) -> (r: u64)
    ensures
        r == spec_fdiv(a, b),
{
    let sa: u64 = a / P63;
    let ea: u64 = (a / P52) % 0x800;
    let ma: u64 = a % P52;
    let sb: u64 = b / P63;
    let eb: u64 = (b / P52) % 0x800;
    let mb: u64 = b % P52;
    let sr: u64 = if sa == sb {
        0
    } else {
        1
    };
    if ea == EXP_MAX || eb == EXP_MAX {
        if (ea == EXP_MAX && ma != 0) || (eb == EXP_MAX && mb != 0) {
            QNAN
        } else if ea == EXP_MAX && eb == EXP_MAX {
            QNAN
        } else if ea == EXP_MAX {
            sr * P63 + EXP_MAX * P52
        } else {
            sr * P63
        }
    } else if eb == 0 && mb == 0 {
        if ea == 0 && ma == 0 {
            QNAN
        } else {
            sr * P63 + EXP_MAX * P52
        }
    } else if ea == 0 && ma == 0 {
        sr * P63
    } else {
        let (siga, expa) = sig_exp(ea, ma);
        let (sigb, expb) = sig_exp(eb, mb);
        let exp: i64 = expa - expb + 1023;
        assert((siga as u128) * Q55 < Q104 * 0x10) by (nonlinear_arith)
            requires
                P52 <= siga < P53,
        ;
        let num: u128 = (siga as u128) * Q55;
        let q: u128 = num / (sigb as u128);
        let rem: u128 = num % (sigb as u128);
        proof {
            vstd::arithmetic::div_mod::lemma_fundamental_div_mod(num as int, sigb as int);
            assert(q < Q56 * 2 && q >= Q55 as int / 2) by (nonlinear_arith)
                requires
                    num == sigb * q + rem && 0 <= rem < sigb && P52 <= sigb < P53 && num == siga
                        * Q55 && P52 <= siga < P53 && Q55 == 0x80000000000000u128 && Q56
                        == 0x100000000000000u128 && P52 == 0x10000000000000u64 && P53
                        == 0x20000000000000u64,
            ;
        }
        if q >= Q56 {
            let half = (q / 2) as u64;
            let sig: u64 = if q % 2 != 0 || rem != 0 {
                if half % 2 == 0 {
                    half + 1
                } else {
                    half
                }
            } else {
                half
            };
            round_pack(sr, exp + 1, sig)
        } else if q < Q55 {
            let num2: u128 = num * 2;
            let q2x: u128 = num2 / (sigb as u128);
            let rem2: u128 = num2 % (sigb as u128);
            proof {
                vstd::arithmetic::div_mod::lemma_fundamental_div_mod(num2 as int, sigb as int);
                assert(2 * (q as int) <= q2x < 2 * (q as int) + 2) by (nonlinear_arith)
                    requires
                        num2 == sigb * q2x + rem2 && 0 <= rem2 < sigb && num == sigb * q + rem && 0
                            <= rem < sigb && num2 == 2 * num && sigb > 0,
                ;
                assert(q >= Q55 as int / 2);
            }
            let q2 = q2x as u64;
            let sig: u64 = if rem2 != 0 {
                if q2 % 2 == 0 {
                    q2 + 1
                } else {
                    q2
                }
            } else {
                q2
            };
            round_pack(sr, exp - 1, sig)
        } else {
            let qq = q as u64;
            let sig: u64 = if rem != 0 {
                if qq % 2 == 0 {
                    qq + 1
                } else {
                    qq
                }
            } else {
                qq
            };
            round_pack(sr, exp, sig)
        }
    }
}

/// One Newton step of the integer square root: `(y + x/y) / 2`.
pub open spec fn spec_newton_step(x: int, y: int) -> int {
    (y + x / y) / 2
}

/// The integer square-root candidate after seven Newton steps from 2^56,
/// with two final downward and one upward correction, held to the packing
/// range [2^55, 2^56) (the hold never fires for an exact square root of the
/// admitted inputs).
pub open spec fn spec_isqrt112(x: int) -> int {
    let y0 = Q56 as int;
    let y1 = spec_newton_step(x, y0);
    let y2 = spec_newton_step(x, y1);
    let y3 = spec_newton_step(x, y2);
    let y4 = spec_newton_step(x, y3);
    let y5 = spec_newton_step(x, y4);
    let y6 = spec_newton_step(x, y5);
    let y7 = spec_newton_step(x, y6);
    let y8: int = if y7 * y7 > x {
        y7 - 1
    } else {
        y7
    };
    let y9: int = if y8 * y8 > x {
        y8 - 1
    } else {
        y8
    };
    let yc: int = if (y9 + 1) * (y9 + 1) <= x {
        y9 + 1
    } else {
        y9
    };
    if yc < Q55 as int {
        Q55 as int
    } else if yc >= Q56 as int {
        Q56 as int - 1
    } else {
        yc
    }
}

fn newton_step(x: u128, y: u128) -> (r: u128)
    requires
        Q110 <= x < Q110 * 4,
        Q55 / 2 <= y <= Q56 * 4,
    ensures
        r == spec_newton_step(x as int, y as int),
        Q55 / 2 <= r <= Q56 * 4,
{
    proof {
        vstd::arithmetic::div_mod::lemma_fundamental_div_mod(x as int, y as int);
        assert(x / y <= Q56 * 4) by (nonlinear_arith)
            requires
                x == y * (x / y) + x % y && 0 <= x % y && y >= Q55 / 2 && x < Q110 * 4 && Q55
                    == 0x80000000000000u128 && Q110 == 0x4000000000000000000000000000u128 && Q56
                    == 0x100000000000000u128,
        ;
        if y <= Q55 {
            assert(x / y >= Q55) by (nonlinear_arith)
                requires
                    x == y * (x / y) + x % y && 0 <= x % y < y && Q55 / 2 <= y <= Q55 && x >= Q110
                        && Q55 == 0x80000000000000u128 && Q110
                        == 0x4000000000000000000000000000u128,
            ;
        }
        vstd::arithmetic::div_mod::lemma_div_is_ordered(0, x as int, y as int);
        vstd::arithmetic::div_mod::lemma_div_of0(y as int);
    }
    (y + x / y) / 2
}

fn isqrt112(x: u128) -> (r: u64)
    requires
        Q110 <= x < Q110 * 4,
    ensures
        r == spec_isqrt112(x as int),
        P55 <= r < P56,
{
    let y0: u128 = Q56;
    let y1 = newton_step(x, y0);
    let y2 = newton_step(x, y1);
    let y3 = newton_step(x, y2);
    let y4 = newton_step(x, y3);
    let y5 = newton_step(x, y4);
    let y6 = newton_step(x, y5);
    let y7 = newton_step(x, y6);
    proof {
        assert(y7 * y7 <= 0x400000000000000000000000000000u128 && (y7 - 1) * (y7 - 1) <= 0x400000000000000000000000000000u128) by (nonlinear_arith)
            requires
                1 <= y7 <= Q56 * 4 && Q56 == 0x100000000000000u128,
        ;
    }
    let y8: u128 = if y7 * y7 > x {
        y7 - 1
    } else {
        y7
    };
    proof {
        assert(y8 * y8 <= 0x400000000000000000000000000000u128) by (nonlinear_arith)
            requires
                0 <= y8 <= Q56 * 4 && Q56 == 0x100000000000000u128,
        ;
    }
    let y9: u128 = if y8 * y8 > x {
        y8 - 1
    } else {
        y8
    };
    proof {
        assert((y9 + 1) * (y9 + 1) <= 0x400000000000000000000000000000u128) by (nonlinear_arith)
            requires
                0 <= y9 <= Q56 * 4 && Q56 == 0x100000000000000u128,
        ;
    }
    let yc: u128 = if (y9 + 1) * (y9 + 1) <= x {
        y9 + 1
    } else {
        y9
    };
    let yf: u128 = if yc < Q55 {
        Q55
    } else if yc >= Q56 {
        Q56 - 1
    } else {
        yc
    };
    yf as u64
}

/// Square root of an encoding, rounding to nearest even.
pub open spec fn spec_fsqrt(a: u64) -> u64 {
    let sa = spec_sign(a);
    let ea = spec_exp(a);
    let ma = spec_frac(a);
    if ea == EXP_MAX {
        if ma != 0 {
            QNAN
        } else if sa == 1 {
            QNAN
        } else {
            a
        }
    } else if ea == 0 && ma == 0 {
        a
    } else if sa == 1 {
        QNAN
    } else {
        let (sig, exp) = spec_sig_exp(ea, ma);
        let par = ((exp + 2000) % 2 + 2) % 2;
        let (x, k): (int, int) = if par == 1 {
            (sig * 0x400000000000000, (exp - 1133) / 2)
        } else {
            (sig * 0x800000000000000, (exp - 1134) / 2)
        };
        let y = spec_isqrt112(x);
        let rem = x - y * y;
        spec_round_pack(0, k + 3 + 1075, spec_or_sticky(y, rem != 0))
    }
}

/// Square root of a double (by encoding).
#[verifier::rlimit(100)]
pub fn fsqrt(a: u64) -> (r: u64)
    ensures
        r == spec_fsqrt(a),
{
    let sa: u64 = a / P63;
    let ea: u64 = (a / P52) % 0x800;
    let ma: u64 = a % P52;
    if ea == EXP_MAX {
        if ma != 0 {
            QNAN
        } else if sa == 1 {
            QNAN
        } else {
            a
        }
    } else if ea == 0 && ma == 0 {
        a
    } else if sa == 1 {
        QNAN
    } else {
        let (sig, exp) = sig_exp(ea, ma);
        let t: u64 = (exp + 2000) as u64;
        let par: u64 = t % 2;
        proof {
            assert(((exp as int + 2000) % 2 + 2) % 2 == (t as int) % 2) by {
                vstd::arithmetic::div_mod::lemma_mod_bound((exp as int + 2000), 2);
            };
        }
        let x: u128;
        let k: i64;
        if par == 1 {
            x = (sig as u128) * 0x400000000000000;
            let n: i64 = exp - 1133;
            let u: u64 = (n + 4000) as u64;
            k = ((u / 2) as i64) - 2000;
            proof {
                assert((n as int + 4000) / 2 - 2000 == (n as int) / 2) by {
                    vstd::arithmetic::div_mod::lemma_hoist_over_denominator(n as int, 2000, 2);
                };
            }
        } else {
            x = (sig as u128) * 0x800000000000000;
            let n: i64 = exp - 1134;
            let u: u64 = (n + 4000) as u64;
            k = ((u / 2) as i64) - 2000;
            proof {
                assert((n as int + 4000) / 2 - 2000 == (n as int) / 2) by {
                    vstd::arithmetic::div_mod::lemma_hoist_over_denominator(n as int, 2000, 2);
                };
            }
        }
        assert(Q110 <= x < Q110 * 4) by (nonlinear_arith)
            requires
                (x == sig * 0x400000000000000u128 || x == sig * 0x800000000000000u128) && P52 <= sig
                    < P53 && P52 == 0x10000000000000u64 && P53 == 0x20000000000000u64 && Q110
                    == 0x4000000000000000000000000000u128,
        ;
        let y = isqrt112(x);
        proof {
            assert((y as u128) * (y as u128) < Q110 * 4 && (y as u128) * (y as u128) == (
            y as int) * (y as int)) by (nonlinear_arith)
                requires
                    0 <= y < P56 && P56 == 0x100000000000000u64 && Q110
                        == 0x4000000000000000000000000000u128,
            ;
        }
        let ysq: u128 = (y as u128) * (y as u128);
        let rem_nonzero: bool = ysq != x;
        let sig2: u64 = if rem_nonzero {
            if y % 2 == 0 {
                y + 1
            } else {
                y
            }
        } else {
            y
        };
        assert(sig2 == spec_or_sticky(y as int, (x as int) - (y as int) * (y as int) != 0)) by {
            assert((x as int) - (y as int) * (y as int) != 0 <==> rem_nonzero);
        };
        round_pack(0, k + 3 + 1075, sig2)
    }
}

/// Strict less-than on encodings (false when either side is NaN; the two
/// zeros compare equal).
pub open spec fn spec_flt(a: u64, b: u64) -> bool {
    if spec_is_nan(a) || spec_is_nan(b) {
        false
    } else {
        let sa = spec_sign(a);
        let sb = spec_sign(b);
        let maga = (a as int) % (P63 as int);
        let magb = (b as int) % (P63 as int);
        if maga == 0 && magb == 0 {
            false
        } else if sa != sb {
            sa == 1
        } else if sa == 0 {
            maga < magb
        } else {
            maga > magb
        }
    }
}

/// Strict less-than of two doubles (by encoding).
pub fn flt(a: u64, b: u64) -> (r: bool)
    ensures
        r == spec_flt(a, b),
{
    let ea: u64 = (a / P52) % 0x800;
    let ma: u64 = a % P52;
    let eb: u64 = (b / P52) % 0x800;
    let mb: u64 = b % P52;
    if (ea == EXP_MAX && ma != 0) || (eb == EXP_MAX && mb != 0) {
        false
    } else {
        let sa: u64 = a / P63;
        let sb: u64 = b / P63;
        let maga: u64 = a % P63;
        let magb: u64 = b % P63;
        if maga == 0 && magb == 0 {
            false
        } else if sa != sb {
            sa == 1
        } else if sa == 0 {
            maga < magb
        } else {
            maga > magb
        }
    }
}

/// Non-strict less-than on encodings (false when either side is NaN).
pub open spec fn spec_fle(a: u64, b: u64) -> bool {
    if spec_is_nan(a) || spec_is_nan(b) {
        false
    } else {
        !spec_flt(b, a)
    }
}

/// Non-strict less-than of two doubles (by encoding).
pub fn fle(a: u64, b: u64) -> (r: bool)
    ensures
        r == spec_fle(a, b),
{
    let ea: u64 = (a / P52) % 0x800;
    let ma: u64 = a % P52;
    let eb: u64 = (b / P52) % 0x800;
    let mb: u64 = b % P52;
    if (ea == EXP_MAX && ma != 0) || (eb == EXP_MAX && mb != 0) {
        false
    } else {
        !flt(b, a)
    }
}

/// Subtraction: addition of the negated second operand.
pub open spec fn spec_fsub(a: u64, b: u64) -> u64 {
    spec_fadd(a, spec_fneg(b))
}

/// Subtract two doubles (by encoding).
pub fn fsub(a: u64, b: u64) -> (r: u64)
    ensures
        r == spec_fsub(a, b),
{
    fadd(a, fneg(b))
}

/// The untruncated integer magnitude of a finite nonzero encoding, cut off
/// above 2^62.
pub open spec fn spec_int_mag(e: int, m: int) -> int {
    let sig = m + P52 as int;
    if e >= 1075 {
        if e - 1075 > 9 {
            0x4000000000000000
        } else {
            sig * vstd::arithmetic::power2::pow2((e - 1075) as nat)
        }
    } else {
        let sh = 1075 - e;
        if sh > 63 {
            0
        } else {
            sig / (vstd::arithmetic::power2::pow2(sh as nat) as int)
        }
    }
}

fn int_mag(e: u64, m: u64) -> (r: u64)
    requires
        1 <= e < EXP_MAX,
        m < P52,
    ensures
        r == spec_int_mag(e as int, m as int),
        r <= 0x4000000000000000,
{
    let sig: u64 = m + P52;
    if e >= 1075 {
        if e - 1075 > 9 {
            0x4000000000000000
        } else {
            let p = pow2_u64(e - 1075);
            proof {
                vstd::arithmetic::power2::lemma2_to64();
                if e - 1075 > 0 {
                    vstd::arithmetic::power2::lemma_pow2_strictly_increases(
                        (e - 1075) as nat,
                        10,
                    );
                }
                assert(sig * p <= 0x4000000000000000) by (nonlinear_arith)
                    requires
                        sig < P53 && p <= 512 && P53 == 0x20000000000000u64,
                ;
            }
            sig * p
        }
    } else {
        let sh: u64 = 1075 - e;
        if sh > 63 {
            0
        } else {
            let p = pow2_u64(sh);
            proof {
                vstd::arithmetic::div_mod::lemma_div_is_ordered_by_denominator(sig as int, 1, p as int);
            }
            sig / p
        }
    }
}

/// What the saturating cast of a double to a 32-bit signed integer yields:
/// truncation toward zero, NaN to 0, out-of-range to the nearest bound.
pub open spec fn spec_fto_i32(a: u64) -> int {
    let sa = spec_sign(a);
    let ea = spec_exp(a);
    let ma = spec_frac(a);
    if ea == EXP_MAX && ma != 0 {
        0
    } else if ea == EXP_MAX {
        if sa == 1 {
            -0x80000000
        } else {
            0x7fffffff
        }
    } else if ea == 0 {
        0
    } else {
        let v = spec_int_mag(ea, ma);
        if sa == 0 {
            if v > 0x7fffffff {
                0x7fffffff
            } else {
                v
            }
        } else {
            if v > 0x80000000 {
                -0x80000000
            } else {
                -v
            }
        }
    }
}

/// Saturating cast of a double to the 32-bit signed range (the result is
/// returned widened to 64 bits).
pub fn fto_i32(a: u64) -> (r: i64)
    ensures
        r as int == spec_fto_i32(a),
        -0x80000000 <= r as int <= 0x7fffffff,
{
    let sa: u64 = a / P63;
    let ea: u64 = (a / P52) % 0x800;
    let ma: u64 = a % P52;
    if ea == EXP_MAX && ma != 0 {
        0
    } else if ea == EXP_MAX {
        if sa == 1 {
            -0x80000000
        } else {
            0x7fffffff
        }
    } else if ea == 0 {
        0
    } else {
        let v = int_mag(ea, ma);
        if sa == 0 {
            if v > 0x7fffffff {
                0x7fffffff
            } else {
                v as i64
            }
        } else {
            if v > 0x80000000 {
                -0x80000000
            } else {
                -(v as i64)
            }
        }
    }
}

/// What the saturating cast of a double to a 32-bit unsigned integer yields.
pub open spec fn spec_fto_u32(a: u64) -> int {
    let sa = spec_sign(a);
    let ea = spec_exp(a);
    let ma = spec_frac(a);
    if ea == EXP_MAX && ma != 0 {
        0
    } else if sa == 1 {
        0
    } else if ea == EXP_MAX {
        0xffffffff
    } else if ea == 0 {
        0
    } else {
        let v = spec_int_mag(ea, ma);
        if v > 0xffffffff {
            0xffffffff
        } else {
            v
        }
    }
}

/// Saturating cast of a double to the 32-bit unsigned range.
pub fn fto_u32(a: u64) -> (r: u32)
    ensures
        r as int == spec_fto_u32(a),
{
    let sa: u64 = a / P63;
    let ea: u64 = (a / P52) % 0x800;
    let ma: u64 = a % P52;
    if ea == EXP_MAX && ma != 0 {
        0
    } else if sa == 1 {
        0
    } else if ea == EXP_MAX {
        0xffffffff
    } else if ea == 0 {
        0
    } else {
        let v = int_mag(ea, ma);
        if v > 0xffffffff {
            0xffffffff
        } else {
            v as u32
        }
    }
}

/// The encoding of a small nonnegative integer as a double (exact, since the
/// admitted range is far below 2^53).
pub open spec fn spec_from_u32(x: u32) -> u64 {
    if x == 0 {
        0
    } else {
        let (sig, sh) = spec_norm52(x as int);
        ((1075 - sh) * P52 as int + (sig - P52 as int)) as u64
    }
}

/// Convert a 32-bit unsigned integer to a double (by encoding).
pub fn from_u32(x: u32) -> (r: u64)
    ensures
        r == spec_from_u32(x),
{
    if x == 0 {
        0
    } else {
        let (sig, sh) = norm52(x as u64);
        (1075 - sh) * P52 + (sig - P52)
    }
}

/// The low byte of a signed integer, as the wrapping cast to `u8` takes it.
pub open spec fn spec_wrap_u8(v: int) -> int {
    v % 256
}

/// Reduce a signed integer to its low byte (two's-complement wrap).
pub fn wrap_u8(v: i64) -> (r: u8)
    requires
        -0x80000000 <= v as int <= 0x7fffffff,
    ensures
        r as int == spec_wrap_u8(v as int),
{
    if v >= 0 {
        let u: u64 = v as u64;
        proof {
            vstd::arithmetic::div_mod::lemma_mod_bound(u as int, 256);
        }
        (u % 256) as u8
    } else {
        let u: u64 = (-v) as u64;
        let m: u64 = u % 256;
        proof {
            vstd::arithmetic::div_mod::lemma_fundamental_div_mod(u as int, 256);
            vstd::arithmetic::div_mod::lemma_mod_bound(u as int, 256);
            if m == 0 {
                vstd::arithmetic::div_mod::lemma_fundamental_div_mod_converse_mod(
                    v as int,
                    256,
                    -(u as int / 256),
                    0,
                );
            } else {
                vstd::arithmetic::div_mod::lemma_fundamental_div_mod_converse_mod(
                    v as int,
                    256,
                    -(u as int / 256) - 1,
                    256 - m as int,
                );
            }
        }
        if m == 0 {
            0
        } else {
            (256 - m) as u8
        }
    }
}

} // verus!
