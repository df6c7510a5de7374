//! The share a split gives its low side, as a binary32 ratio.
//!
//! A layout stores each split's ratio as a single-precision number. Its bits
//! are kept here as a plain integer and the one thing the layout asks of a
//! ratio (how many of `total` cells the low side gets) is computed on them
//! with integer arithmetic, rounding exactly where the single-precision
//! product rounds.
use vstd::prelude::*;

verus! {

/// A single-precision ratio, held as its IEEE 754 binary32 bits.
#[derive(Debug, Clone, Copy, PartialEq, Eq, Structural)]
pub struct Ratio {
    /// The binary32 encoding: one sign bit, eight exponent bits, 23 fraction
    /// bits.
    pub bits: u32,
}

/// `2^n`.
pub open spec fn two_to(n: nat) -> nat
    decreases n,
{
    if n == 0 {
        1
    } else {
        2 * two_to((n - 1) as nat)
    }
}

/// The weight of the last of 24 significant bits of `p`: the power of two `u`
/// with `2^23 <= p / u < 2^24`, or 1 when `p` has no more than 24 bits.
pub open spec fn unit_of(p: nat) -> nat
    decreases p,
{
    if p < 0x100_0000 {
        1
    } else {
        2 * unit_of(p / 2)
    }
}

/// `p` rounded to 24 significant bits, ties to the even neighbour: the value
/// single precision holds for the integer `p`.
pub open spec fn to_single(p: nat) -> nat {
    let u = unit_of(p);
    let q = p / u;
    let rem = p % u;
    if 2 * rem > u || (2 * rem == u && q % 2 == 1) {
        (q + 1) * u
    } else {
        q * u
    }
}

/// `m * 2^e` rounded to the nearest integer, halves upward.
pub open spec fn scaled_round(m: nat, e: int) -> nat {
    if e >= 0 {
        m * two_to(e as nat)
    } else {
        let d = two_to((-e) as nat);
        (m + d / 2) / d
    }
}

impl Ratio {
    /// The ratio with the given binary32 encoding.
    pub fn from_bits(bits: u32) -> (r: Ratio)
        ensures
            r.bits == bits,
    {
        Ratio { bits }
    }

    /// Negative numbers, negative zero included.
    pub open spec fn is_negative(self) -> bool {
        self.bits >= 0x8000_0000
    }

    /// The biased exponent field.
    pub open spec fn exponent_field(self) -> int {
        (self.bits as int / 0x80_0000) % 256
    }

    /// The fraction field.
    pub open spec fn fraction_field(self) -> int {
        self.bits as int % 0x80_0000
    }

    pub open spec fn is_nan(self) -> bool {
        self.exponent_field() == 255 && self.fraction_field() != 0
    }

    pub open spec fn is_infinite(self) -> bool {
        self.exponent_field() == 255 && self.fraction_field() == 0
    }

    /// A finite ratio's magnitude is `significand() * 2^exponent()`.
    pub open spec fn significand(self) -> nat {
        if self.exponent_field() == 0 {
            self.fraction_field() as nat
        } else {
            (self.fraction_field() + 0x80_0000) as nat
        }
    }

    /// See [`Ratio::significand`].
    pub open spec fn exponent(self) -> int {
        if self.exponent_field() == 0 {
            -149
        } else {
            self.exponent_field() - 150
        }
    }
}

/// The cells out of `total` that a ratio asks for: the single-precision
/// product `total * ratio`, rounded half away from zero, held to
/// `0..=total`. A negative ratio or one that is not a number asks for none.
pub open spec fn share(total: nat, ratio: Ratio) -> nat {
    if ratio.is_negative() || ratio.is_nan() {
        0
    } else if ratio.is_infinite() {
        total
    } else {
        let cells = scaled_round(to_single(total * ratio.significand()), ratio.exponent());
        if cells > total {
            total
        } else {
            cells
        }
    }
}

proof fn lemma_two_to_monotone(a: nat, b: nat)
    requires
        a <= b,
    ensures
        two_to(a) <= two_to(b),
        two_to(a) >= 1,
    decreases b,
{
    if a == b {
        if a > 0 {
            lemma_two_to_monotone((a - 1) as nat, (a - 1) as nat);
        }
    } else {
        lemma_two_to_monotone(a, (b - 1) as nat);
    }
}

proof fn lemma_two_to_44()
    ensures
        two_to(44) == 0x1000_0000_0000,
{
    reveal_with_fuel(two_to, 45);
}

proof fn lemma_unit_bound(p: nat)
    ensures
        unit_of(p) >= 1,
        unit_of(p) <= p || unit_of(p) == 1,
    decreases p,
{
    if p >= 0x100_0000 {
        lemma_unit_bound(p / 2);
    }
}

/// Rounding to 24 bits at most doubles a positive integer and keeps zero.
proof fn lemma_to_single_bound(p: nat)
    ensures
        to_single(p) <= 2 * p,
        p > 0 ==> to_single(p) >= 1,
{
    let u = unit_of(p);
    lemma_unit_bound(p);
    let q = p / u;
    let rem = p % u;
    assert(p == q * u + rem) by {
        vstd::arithmetic::div_mod::lemma_fundamental_div_mod(p as int, u as int);
        vstd::arithmetic::mul::lemma_mul_is_commutative(u as int, q as int);
    }
    assert(rem < u);
    assert((q + 1) * u == q * u + u) by (nonlinear_arith);
    if p > 0 {
        assert(q >= 1) by {
            vstd::arithmetic::div_mod::lemma_div_is_ordered(u as int, p as int, u as int);
            vstd::arithmetic::div_mod::lemma_div_by_self(u as int);
        }
        assert(q * u >= 1) by (nonlinear_arith)
            requires
                q >= 1,
                u >= 1,
        ;
    } else {
        assert(q * u == 0);
    }
}

/// A product scaled down far enough rounds to zero.
proof fn lemma_tiny_rounds_to_zero(m: nat, e: int)
    requires
        m <= 0x200_0000_0000,
        e < -43,
    ensures
        scaled_round(m, e) == 0,
{
    let d = two_to((-e) as nat);
    lemma_two_to_monotone(44, (-e) as nat);
    lemma_two_to_44();
    assert(m + d / 2 < d);
    vstd::arithmetic::div_mod::lemma_basic_div((m + d / 2) as int, d as int);
}

/// A positive multiple of a large power of two exceeds any cell count.
proof fn lemma_huge_exceeds(m: nat, e: int)
    requires
        m >= 1,
        e >= 17,
    ensures
        scaled_round(m, e) > 0xffff,
{
    let d = two_to(e as nat);
    lemma_two_to_monotone(17, e as nat);
    assert(two_to(17) == 0x2_0000) by {
        reveal_with_fuel(two_to, 18);
    }
    assert(m * d >= d) by (nonlinear_arith)
        requires
            m >= 1,
    ;
}

fn power_of_two(n: u32) -> (d: u64)
    requires
        n <= 44,
    ensures
        d == two_to(n as nat),
{
    proof {
        lemma_two_to_monotone(n as nat, 44);
        lemma_two_to_44();
    }
    let mut d: u64 = 1;
    let mut i: u32 = 0;
    while i < n
        invariant
            i <= n,
            d == two_to(i as nat),
            two_to(n as nat) <= 0x1000_0000_0000,
        decreases n - i,
    {
        proof {
            lemma_two_to_monotone((i + 1) as nat, n as nat);
            assert(two_to((i + 1) as nat) == 2 * two_to(i as nat));
        }
        i = i + 1;
        d = d * 2;
    }
    d
}

/// Round an integer product to 24 significant bits, ties to even.
fn round_to_single(p: u64) -> (m: u64)
    requires
        p <= 0x100_0000_0000,
    ensures
        m == to_single(p as nat),
{
    let mut u: u64 = 1;
    let mut t: u64 = p;
    proof {
        assert(unit_of(p as nat) == u * unit_of(t as nat));
    }
    while t >= 0x100_0000
        invariant
            unit_of(p as nat) == u * unit_of(t as nat),
            u >= 1,
            p <= 0x100_0000_0000,
        decreases t,
    {
        proof {
            let half = unit_of((t / 2) as nat);
            assert(unit_of(t as nat) == 2 * half);
            assert(u * (2 * half) == (u * 2) * half) by (nonlinear_arith);
            lemma_unit_bound(p as nat);
            lemma_unit_bound((t / 2) as nat);
            assert(u * 2 <= (u * 2) * half) by (nonlinear_arith)
                requires
                    half >= 1,
            ;
        }
        t = t / 2;
        u = u * 2;
    }
    proof {
        lemma_unit_bound(p as nat);
        lemma_to_single_bound(p as nat);
        assert(u * 1 == u);
        assert(u == unit_of(p as nat));
    }
    let q: u64 = p / u;
    let rem: u64 = p % u;
    proof {
        assert(p == q * u + rem) by {
            vstd::arithmetic::div_mod::lemma_fundamental_div_mod(p as int, u as int);
            vstd::arithmetic::mul::lemma_mul_is_commutative(u as int, q as int);
        }
        assert((q + 1) * u == q * u + u) by (nonlinear_arith);
        assert(q <= p) by {
            vstd::arithmetic::div_mod::lemma_div_is_ordered_by_denominator(p as int, 1, u as int);
        }
    }
    if 2 * rem > u || (2 * rem == u && q % 2 == 1) {
        (q + 1) * u
    } else {
        q * u
    }
}

/// The low side's cells out of `total` under `ratio`.
pub fn split_dim(total: u16, ratio: Ratio) -> (cells: u16)
    ensures
        cells == share(total as nat, ratio),
        cells <= total,
{
    if ratio.bits >= 0x8000_0000 {
        return 0;
    }
    let field: u32 = (ratio.bits / 0x80_0000) % 256;
    let fraction: u32 = ratio.bits % 0x80_0000;
    if field == 255 {
        return if fraction == 0 {
            total
        } else {
            0
        };
    }
    let sig: u64 = if field == 0 {
        fraction as u64
    } else {
        fraction as u64 + 0x80_0000
    };
    proof {
        assert(total * sig <= 0xffff * 0xff_ffff) by (nonlinear_arith)
            requires
                total <= 0xffff,
                sig <= 0xff_ffff,
        ;
    }
    let product: u64 = total as u64 * sig;
    let m: u64 = round_to_single(product);
    proof {
        lemma_to_single_bound(product as nat);
    }
    let cells: u64 = if field >= 150 {
        let e: u32 = field - 150;
        if m == 0 {
            proof {
                assert(0 * two_to(e as nat) == 0);
            }
            0
        } else if e >= 17 {
            proof {
                lemma_huge_exceeds(m as nat, e as int);
            }
            total as u64
        } else {
            let d = power_of_two(e);
            proof {
                lemma_two_to_monotone(e as nat, 17);
                assert(two_to(17) == 0x2_0000) by {
                    reveal_with_fuel(two_to, 18);
                }
                assert(m * d <= 0x200_0000_0000 * 0x2_0000) by (nonlinear_arith)
                    requires
                        m <= 0x200_0000_0000,
                        d <= 0x2_0000,
                ;
            }
            m * d
        }
    } else {
        let back: u32 = if field == 0 {
            149
        } else {
            150 - field
        };
        if back > 43 {
            proof {
                lemma_tiny_rounds_to_zero(m as nat, -(back as int));
            }
            0
        } else {
            let d = power_of_two(back);
            proof {
                lemma_two_to_monotone(back as nat, 44);
                lemma_two_to_monotone(0, back as nat);
                lemma_two_to_44();
            }
            (m + d / 2) / d
        }
    };
    if cells > total as u64 {
        total
    } else {
        cells as u16
    }
}

proof fn lemma_unit_is_small(p: nat)
    ensures
        unit_of(p) == 1 || unit_of(p) * 0x80_0000 <= p,
    decreases p,
{
    if p >= 0x100_0000 {
        lemma_unit_is_small(p / 2);
    }
}

/// Rounding to 24 bits moves a number by one part in 2^24 at most.
proof fn lemma_to_single_is_close(p: nat)
    ensures
        0x100_0000 * (to_single(p) - p) <= p,
        0x100_0000 * (p - to_single(p)) <= p,
{
    let u = unit_of(p);
    lemma_unit_bound(p);
    lemma_unit_is_small(p);
    let q = p / u;
    let rem = p % u;
    assert(p == q * u + rem) by {
        vstd::arithmetic::div_mod::lemma_fundamental_div_mod(p as int, u as int);
        vstd::arithmetic::mul::lemma_mul_is_commutative(u as int, q as int);
    }
    assert(rem < u);
    assert((q + 1) * u == q * u + u) by (nonlinear_arith);
    if u == 1 {
        assert(rem == 0);
    }
}

/// The share is the product of the cells and the ratio, rounded: for a finite
/// ratio below 2^23 it is off the exact product, `total * significand *
/// 2^exponent`, by no more than half a cell and one part in 2^24, unless it is
/// held at `total`; a larger one asks for everything. A negative ratio and one
/// that is not a number ask for nothing.
pub proof fn law_the_share_is_the_rounded_product(total: nat, ratio: Ratio)
    requires
        total <= 0xffff,
    ensures
        share(total, ratio) <= total,
        ratio.bits >= 0x8000_0000 ==> share(total, ratio) == 0,
        0x7f80_0000 < ratio.bits < 0x8000_0000 ==> share(total, ratio) == 0,
        0x4b00_0000 <= ratio.bits <= 0x7f80_0000 ==> share(total, ratio) == total,
        ratio.bits < 0x4b00_0000 ==> ({
            let d = two_to((-ratio.exponent()) as nat);
            let p = total * ratio.significand();
            let cells = share(total, ratio);
            &&& 0x200_0000 * (cells * d - p) <= 0x100_0000 * d + 2 * p
            &&& cells < total ==> 0x200_0000 * (p - cells * d) <= 0x100_0000 * d + 2 * p
        }),
{
    if ratio.bits >= 0x8000_0000 || 0x7f80_0000 <= ratio.bits {
    } else if ratio.bits >= 0x4b00_0000 {
        let e = ratio.exponent();
        let p = total * ratio.significand();
        lemma_to_single_bound(p);
        lemma_to_single_is_close(p);
        if total > 0 {
            assert(p >= total * 0x80_0000) by (nonlinear_arith)
                requires
                    p == total * ratio.significand(),
                    ratio.significand() >= 0x80_0000,
            ;
            let m = to_single(p);
            let d = two_to(e as nat);
            lemma_two_to_monotone(0, e as nat);
            assert(m * d >= m) by (nonlinear_arith)
                requires
                    d >= 1,
            ;
        } else {
            assert(p == 0);
            assert(to_single(p) == 0);
        }
    } else {
        let e = ratio.exponent();
        let d = two_to((-e) as nat);
        let p = total * ratio.significand();
        let m = to_single(p);
        lemma_to_single_is_close(p);
        lemma_two_to_monotone(0, (-e - 1) as nat);
        assert(d == 2 * two_to((-e - 1) as nat));
        let cells = (m + d / 2) / d;
        vstd::arithmetic::div_mod::lemma_fundamental_div_mod((m + d / 2) as int, d as int);
        vstd::arithmetic::mul::lemma_mul_is_commutative(d as int, cells as int);
        let rem = (m + d / 2) % d;
        assert(0 <= rem < d);
        assert(cells * d == m + d / 2 - rem);
        if cells > total {
            assert(total * d <= cells * d) by (nonlinear_arith)
                requires
                    total < cells,
                    d >= 1,
            ;
        }
    }
}

} // verus!
