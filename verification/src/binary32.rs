//! Percentages as the binary32 (IEEE 754 single precision) values that the
//! monitors measure and configure, held as their bit patterns.
//!
//! A value is modelled exactly: `magnitude` is its absolute value times
//! 2^149, which is an integer for every finite binary32 value, and
//! `scaled` adds the sign.  Infinity has the magnitude 2^277, above that of
//! every finite value.  The comparisons below are those of IEEE 754: every
//! comparison with a NaN is false, and the two zeros are equal.

use vstd::prelude::*;
use vstd::arithmetic::power2::*;
use vstd::arithmetic::mul::*;
use vstd::arithmetic::div_mod::*;
use vstd::string::*;
use vstd::std_specs::cmp::PartialEqSpecImpl;
use crate::rounding::{half_even, half_up, pow2_u128, shortest_in_interval, shortest_decimal, lemma_half_even_common_factor, lemma_half_even_monotone, lemma_small_quotient};
use crate::text::{decimal, digit, digit_str, push_decimal};

verus! {

/// The number 2^23, the weight of the hidden bit of a normal significand.
pub open spec fn hidden_bit() -> nat {
    0x80_0000
}

/// The absolute value times 2^149 of the binary32 value with biased exponent
/// `e` and fraction `f`.
pub open spec fn scale_of(e: nat, f: nat) -> nat {
    if e == 0 {
        f
    } else {
        (hidden_bit() + f) * pow2((e - 1) as nat)
    }
}

/// A binary32 value, held as its bit pattern.
#[derive(Clone, Copy, Debug)]
pub struct Binary32(pub u32);

impl Binary32 {
    /// Whether the sign bit is set.
    pub open spec fn negative(self) -> bool {
        self.0 >= 0x8000_0000
    }

    /// The biased exponent field.
    pub open spec fn exponent(self) -> nat {
        ((self.0 / 0x80_0000) % 256) as nat
    }

    /// The fraction field.
    pub open spec fn fraction(self) -> nat {
        (self.0 % 0x80_0000) as nat
    }

    /// Whether the value is a NaN.
    pub open spec fn nan(self) -> bool {
        self.exponent() == 255 && self.fraction() != 0
    }

    /// Whether the value is an infinity.
    pub open spec fn infinite(self) -> bool {
        self.exponent() == 255 && self.fraction() == 0
    }

    /// The absolute value times 2^149.
    pub open spec fn magnitude(self) -> nat {
        scale_of(self.exponent(), self.fraction())
    }

    /// The value times 2^149.
    pub open spec fn scaled(self) -> int {
        if self.negative() {
            -self.magnitude()
        } else {
            self.magnitude() as int
        }
    }

    /// `self == other` as IEEE 754 defines it.
    pub open spec fn is_equal(self, other: Binary32) -> bool {
        !self.nan() && !other.nan() && self.scaled() == other.scaled()
    }

    /// `self <= other` as IEEE 754 defines it.
    pub open spec fn is_at_most(self, other: Binary32) -> bool {
        !self.nan() && !other.nan() && self.scaled() <= other.scaled()
    }

    /// Whether the value is a NaN.
    pub fn is_nan(&self) -> (r: bool)
        ensures
            r == self.nan(),
    {
        (self.0 / 0x80_0000) % 256 == 255 && self.0 % 0x80_0000 != 0
    }

    /// `self <= other` as IEEE 754 defines it.
    pub fn at_most(&self, other: &Binary32) -> (r: bool)
        ensures
            r == self.is_at_most(*other),
    {
        if self.is_nan() || other.is_nan() {
            false
        } else {
            proof {
                lemma_order_key(*self, *other);
            }
            order_key(self.0) <= order_key(other.0)
        }
    }

    /// `self >= other` as IEEE 754 defines it.
    pub fn at_least(&self, other: &Binary32) -> (r: bool)
        ensures
            r == other.is_at_most(*self),
    {
        other.at_most(self)
    }
}

impl Binary32 {
    /// The value rounded to a whole number, ties away from zero, without
    /// its sign.
    pub open spec fn rounded_magnitude(self) -> nat {
        half_up(self.magnitude(), pow2(149))
    }

    /// The value in tenths, rounded to the nearest tenth with ties to the
    /// even one, without its sign.
    pub open spec fn tenths(self) -> nat {
        half_even(self.magnitude() * 10, pow2(149))
    }

    /// The value is a percentage: a number from 0 to 100.
    pub open spec fn is_percentage(self) -> bool {
        !self.nan() && 0 <= self.scaled() <= 100 * pow2(149)
    }

    /// The value's sign as it is written: "-" for a set sign bit.
    pub open spec fn sign_text(self) -> Seq<char> {
        if self.negative() {
            seq!['-']
        } else {
            seq![]
        }
    }

    /// The number that Rust's `Display` writes, without its sign, for the
    /// value rounded to a whole number.  Below 2^24 (exponent field up to
    /// 150) that is the rounded value itself.  From 2^24 on, the value is
    /// already whole, M * 2^k with its significand M and k >= 1, and
    /// `Display` writes the number with the fewest significant digits that
    /// reads back as the value: the interval of such numbers reaches half
    /// the gap to each neighbouring value (the gap below is halved at the
    /// bottom of a binade, when the fraction is 0), endpoints included when
    /// M is even.
    pub open spec fn display_magnitude(self) -> nat {
        if self.exponent() >= 151 {
            let k = (self.exponent() - 150) as nat;
            let v = (hidden_bit() + self.fraction()) * pow2(k);
            let q2 = if self.fraction() == 0 {
                pow2((k - 1) as nat)
            } else {
                pow2(k)
            };
            shortest_in_interval(v, q2, pow2(k), self.fraction() % 2 == 0, 38)
        } else {
            self.rounded_magnitude()
        }
    }

    /// The text of the value rounded to a whole number (ties away from
    /// zero), as Rust's `Display` writes a binary32 value: "NaN", "inf" or
    /// "-inf", or the sign followed by the decimal digits of
    /// `display_magnitude`.
    pub open spec fn whole_text(self) -> Seq<char> {
        if self.nan() {
            seq!['N', 'a', 'N']
        } else if self.infinite() {
            self.sign_text() + seq!['i', 'n', 'f']
        } else {
            self.sign_text() + decimal(self.display_magnitude())
        }
    }

    /// The text of the value with one decimal, as Rust's `{:.1}` writes a
    /// binary32 value: "NaN", "inf" or "-inf", or the sign, the whole part,
    /// a point and the tenths digit of the value rounded to tenths (ties to
    /// even).
    pub open spec fn one_decimal_text(self) -> Seq<char> {
        if self.nan() {
            seq!['N', 'a', 'N']
        } else if self.infinite() {
            self.sign_text() + seq!['i', 'n', 'f']
        } else {
            self.sign_text() + decimal(self.tenths() / 10) + seq!['.', digit(
                (self.tenths() % 10) as int,
            )]
        }
    }

    /// The value rounded to a whole number, ties away from zero, without
    /// its sign.
    pub fn round_magnitude(&self) -> (r: u128)
        requires
            !self.nan(),
            !self.infinite(),
        ensures
            r == self.rounded_magnitude(),
    {
        proof {
            lemma_fields(*self);
            lemma2_to64();
            lemma_pow2_unfold(149);
            lemma_div_multiples_vanish(pow2(148) as int, 2);
        }
        let e: u32 = (self.0 / 0x80_0000) % 256;
        let f: u32 = self.0 % 0x80_0000;
        let big_m: u128 = 0x80_0000u128 + f as u128;
        if e == 0 {
            proof {
                lemma_pow2_strictly_increases(23, 148);
                lemma_small_quotient(f as nat + pow2(148), pow2(149));
            }
            0
        } else if e >= 150 {
            let p = pow2_u128(e - 150);
            proof {
                lemma_pow2_adds((e - 150) as nat, 149);
                lemma_pow2_strictly_increases(23, 24);
                lemma_pow2_adds(24, (e - 150) as nat);
                if 24 + e - 150 < 128 {
                    lemma_pow2_strictly_increases((24 + e - 150) as nat, 128);
                }
                lemma_pow2_pos((e - 150) as nat);
                lemma_mul_strict_inequality(big_m as int, pow2(24) as int, p as int);
                lemma_pow2_pos(148);
                assert(pow2(148) < pow2(149));
                lemma_mul_is_associative(big_m as int, p as int, pow2(149) as int);
                lemma_fundamental_div_mod_converse(
                    (big_m * p * pow2(149) + pow2(148)) as int,
                    pow2(149) as int,
                    (big_m * p) as int,
                    pow2(148) as int,
                );
                lemma_pow2_adds(64, 64);
            }
            big_m * p
        } else {
            let k: u32 = 150 - e;
            proof {
                lemma_pow2_adds(k as nat, (e - 1) as nat);
                lemma_pow2_pos((e - 1) as nat);
                lemma_pow2_pos(k as nat);
                lemma_pow2_unfold(k as nat);
                lemma_half_even_common_factor(big_m as nat, pow2(k as nat), pow2((e - 1) as nat));
                lemma_mul_is_commutative(pow2(k as nat) as int, pow2((e - 1) as nat) as int);
                lemma_div_multiples_vanish(pow2((k - 1) as nat) as int, 2);
            }
            if k >= 25 {
                proof {
                    if k > 25 {
                        lemma_pow2_strictly_increases(24, (k - 1) as nat);
                    }
                    lemma_small_quotient(big_m as nat + pow2((k - 1) as nat), pow2(k as nat));
                }
                0
            } else {
                let d = pow2_u128(k);
                let h = pow2_u128(k - 1);
                proof {
                    lemma_pow2_strictly_increases(k as nat, 64);
                }
                (big_m + h) / d
            }
        }
    }
    /// The value in tenths (ties to even), without its sign, split into
    /// the whole part and the tenths digit.
    pub fn tenths_parts(&self) -> (r: (u128, u8))
        requires
            !self.nan(),
            !self.infinite(),
        ensures
            r.0 * 10 + r.1 == self.tenths(),
            r.1 < 10,
    {
        proof {
            lemma_fields(*self);
            lemma2_to64();
            lemma_pow2_unfold(149);
        }
        let e: u32 = (self.0 / 0x80_0000) % 256;
        let f: u32 = self.0 % 0x80_0000;
        let big_m: u128 = 0x80_0000u128 + f as u128;
        if e == 0 {
            proof {
                lemma_pow2_strictly_increases(28, 149);
                lemma_small_quotient(f as nat * 10, pow2(149));
            }
            (0, 0)
        } else if e >= 150 {
            let p = pow2_u128(e - 150);
            proof {
                lemma_pow2_adds((e - 150) as nat, 149);
                lemma_pow2_strictly_increases(23, 24);
                lemma_pow2_adds(24, (e - 150) as nat);
                if 24 + e - 150 < 128 {
                    lemma_pow2_strictly_increases((24 + e - 150) as nat, 128);
                }
                lemma_pow2_pos((e - 150) as nat);
                lemma_pow2_pos(149);
                lemma_mul_strict_inequality(big_m as int, pow2(24) as int, p as int);
                assert(self.magnitude() * 10 == (big_m * p * 10) * pow2(149)) by (nonlinear_arith)
                    requires
                        self.magnitude() == big_m * pow2((e - 1) as nat),
                        pow2((e - 1) as nat) == p * pow2(149),
                ;
                lemma_fundamental_div_mod_converse(
                    (self.magnitude() * 10) as int,
                    pow2(149) as int,
                    (big_m * p * 10) as int,
                    0,
                );
                lemma_pow2_adds(64, 64);
            }
            (big_m * p, 0)
        } else {
            let k: u32 = 150 - e;
            proof {
                lemma_pow2_adds(k as nat, (e - 1) as nat);
                lemma_pow2_pos((e - 1) as nat);
                lemma_pow2_pos(k as nat);
                lemma_half_even_common_factor(
                    (big_m * 10) as nat,
                    pow2(k as nat),
                    pow2((e - 1) as nat),
                );
                lemma_mul_is_commutative(pow2(k as nat) as int, pow2((e - 1) as nat) as int);
                assert(self.magnitude() * 10 == (big_m * 10) * pow2((e - 1) as nat))
                    by (nonlinear_arith)
                    requires
                        self.magnitude() == big_m * pow2((e - 1) as nat),
                ;
            }
            if k >= 29 {
                proof {
                    if k > 29 {
                        lemma_pow2_strictly_increases(29, k as nat);
                    }
                    lemma_small_quotient((big_m * 10) as nat, pow2(k as nat));
                }
                (0, 0)
            } else {
                let d = pow2_u128(k);
                let n = big_m * 10;
                let q = n / d;
                let r = n % d;
                let t = if 2 * r > d || (2 * r == d && q % 2 == 1) {
                    q + 1
                } else {
                    q
                };
                proof {
                    lemma_pow2_strictly_increases(k as nat, 64);
                }
                (t / 10, (t % 10) as u8)
            }
        }
    }

    /// Appends the text of the value rounded to a whole number, as Rust's
    /// `Display` writes the rounded value.
    pub fn push_whole_text(&self, s: &mut String)
        ensures
            final(s)@ == old(s)@ + self.whole_text(),
    {
        if self.is_nan() {
            proof { reveal_strlit("NaN"); }
            s.append("NaN");
        } else {
            self.push_sign(s);
            if (self.0 / 0x80_0000) % 256 == 255 {
                proof { reveal_strlit("inf"); }
                s.append("inf");
            } else {
                let m = self.display_whole();
                push_decimal(s, m);
            }
        }
        proof {
            assert(old(s)@ + self.whole_text() =~= s@);
        }
    }

    /// The number that `Display` writes for the value rounded to a whole
    /// number, without its sign.
    pub fn display_whole(&self) -> (r: u128)
        requires
            !self.nan(),
            !self.infinite(),
        ensures
            r == self.display_magnitude(),
    {
        proof {
            lemma_fields(*self);
            lemma2_to64();
        }
        let e: u32 = (self.0 / 0x80_0000) % 256;
        let f: u32 = self.0 % 0x80_0000;
        if e >= 151 {
            let k: u32 = e - 150;
            let big_m: u128 = 0x80_0000u128 + f as u128;
            let p2 = pow2_u128(k);
            let half = pow2_u128(k - 1);
            proof {
                lemma_pow2_unfold(k as nat);
                lemma_pow2_pos((k - 1) as nat);
                lemma_pow2_adds(24, k as nat);
                if 24 + k < 128 {
                    lemma_pow2_strictly_increases((24 + k) as nat, 128);
                }
                lemma_pow2_adds(64, 64);
                lemma_div_multiples_vanish(pow2((k - 1) as nat) as int, 2);
                assert(big_m * p2 + half < pow2(24) * p2) by (nonlinear_arith)
                    requires
                        big_m <= pow2(24) - 1,
                        p2 == 2 * half,
                        half > 0,
                ;
            }
            let v = big_m * p2;
            let q2 = if f == 0 {
                half
            } else {
                p2
            };
            shortest_decimal(v, q2, p2, f % 2 == 0)
        } else {
            self.round_magnitude()
        }
    }

    /// Appends the text of the value with one decimal.
    pub fn push_one_decimal_text(&self, s: &mut String)
        ensures
            final(s)@ == old(s)@ + self.one_decimal_text(),
    {
        if self.is_nan() {
            proof { reveal_strlit("NaN"); }
            s.append("NaN");
        } else {
            self.push_sign(s);
            if (self.0 / 0x80_0000) % 256 == 255 {
                proof { reveal_strlit("inf"); }
                s.append("inf");
            } else {
                let (whole, tenth) = self.tenths_parts();
                proof {
                    assert((whole * 10 + tenth) / 10 == whole && (whole * 10 + tenth) % 10 == tenth);
                }
                push_decimal(s, whole);
                proof { reveal_strlit("."); }
                s.append(".");
                s.append(digit_str(tenth as u128));
            }
        }
        proof {
            assert(old(s)@ + self.one_decimal_text() =~= s@);
        }
    }

    fn push_sign(&self, s: &mut String)
        ensures
            final(s)@ == old(s)@ + self.sign_text(),
    {
        if self.0 >= 0x8000_0000 {
            proof { reveal_strlit("-"); }
            s.append("-");
        }
        proof {
            assert(old(s)@ + self.sign_text() =~= s@);
        }
    }
}

/// Equality as IEEE 754 defines it: a NaN equals nothing, and the two
/// zeros are equal.
impl PartialEq for Binary32 {
    fn eq(&self, other: &Binary32) -> (r: bool) {
        if self.is_nan() || other.is_nan() {
            false
        } else {
            proof {
                lemma_order_key(*self, *other);
                lemma_order_key(*other, *self);
            }
            order_key(self.0) == order_key(other.0)
        }
    }
}

impl PartialEqSpecImpl for Binary32 {
    open spec fn obeys_eq_spec() -> bool {
        true
    }

    open spec fn eq_spec(&self, other: &Binary32) -> bool {
        self.is_equal(*other)
    }
}

/// The number of low-order bits of `n` that a binary32 significand, 24 bits
/// wide, cannot hold.
pub open spec fn dropped_bits(n: nat) -> nat
    decreases n,
{
    if n < 0x100_0000 {
        0
    } else {
        1 + dropped_bits(n / 2)
    }
}

/// The binary32 value nearest to `n` (ties to the even significand): the
/// value that Rust's `as` conversion of `n` gives.
pub open spec fn nearest_binary32(n: nat) -> nat {
    half_even(n, pow2(dropped_bits(n))) * pow2(dropped_bits(n))
}

/// `n` converted to binary32, rounding to the nearest value (ties to the
/// even significand), as the significand `q` and the exponent `k` of
/// `q * 2^k`.
pub fn nearest_parts(n: u64) -> (r: (u128, u32))
    ensures
        r.1 == dropped_bits(n as nat),
        r.0 == half_even(n as nat, pow2(r.1 as nat)),
        r.1 <= 64,
        r.0 <= 0x100_0000,
        r.1 > 0 ==> r.0 >= 0x80_0000,
        r.0 * pow2(r.1 as nat) <= 0x2_0000_0000_0000_0000,
{
    let mut m: u64 = n;
    let mut k: u32 = 0;
    proof {
        lemma2_to64();
    }
    while m >= 0x100_0000
        invariant
            k <= 64,
            m == n as nat / pow2(k as nat),
            m * pow2(k as nat) <= n,
            dropped_bits(n as nat) == k + dropped_bits(m as nat),
        decreases m,
    {
        proof {
            lemma2_to64();
            lemma_pow2_pos(k as nat);
            lemma_div_denominator(n as int, pow2(k as nat) as int, 2);
            lemma_pow2_unfold((k + 1) as nat);
            lemma_fundamental_div_mod(m as int, 2);
            assert(m * pow2(k as nat) >= pow2(k as nat)) by (nonlinear_arith)
                requires
                    m >= 1,
            ;
            if k >= 64 {
                if k > 64 {
                    lemma_pow2_strictly_increases(64, k as nat);
                }
                assert(false);
            }
            assert((m / 2) * pow2((k + 1) as nat) <= m * pow2(k as nat)) by (nonlinear_arith)
                requires
                    pow2((k + 1) as nat) == 2 * pow2(k as nat),
                    (m / 2) * 2 <= m,
            ;
        }
        m = m / 2;
        k = k + 1;
    }
    proof {
        lemma_pow2_pos(k as nat);
        if k < 64 {
            lemma_pow2_strictly_increases(k as nat, 64);
        }
        lemma_dropped_bits_bounds(n as nat);
    }
    let d: u128 = pow2_u128(k);
    let q = n as u128 / d;
    let rem = n as u128 % d;
    let q2 = if 2 * rem > d || (2 * rem == d && q % 2 == 1) {
        q + 1
    } else {
        q
    };
    proof {
        lemma_fundamental_div_mod(n as int, d as int);
        assert(q2 * d <= n + d) by (nonlinear_arith)
            requires
                n == d * q + rem,
                q2 <= q + 1,
                rem >= 0,
        ;
        assert(q == m);
        if k > 0 {
            assert(n >= pow2((23 + k) as nat));
            lemma_pow2_adds(23, k as nat);
            lemma_div_multiples_vanish(pow2(23) as int, d as int);
            lemma_div_is_ordered((pow2(23) * d) as int, n as int, d as int);
            lemma_mul_is_commutative(pow2(23) as int, d as int);
        }
    }
    (q2, k)
}

/// `n` converted to binary32, rounding to the nearest value (ties to the
/// even significand).
pub fn to_nearest_binary32(n: u64) -> (r: u128)
    ensures
        r == nearest_binary32(n as nat),
        r <= 0x2_0000_0000_0000_0000,
{
    let (q, k) = nearest_parts(n);
    let d = pow2_u128(k);
    q * d
}

/// The number of dropped bits places `n` in its binade: below 2^(24 + k),
/// and, when bits are dropped, at least 2^(23 + k).
pub proof fn lemma_dropped_bits_bounds(n: nat)
    ensures
        n < pow2(24 + dropped_bits(n)),
        dropped_bits(n) > 0 ==> n >= pow2((23 + dropped_bits(n)) as nat),
    decreases n,
{
    lemma2_to64();
    if n >= 0x100_0000 {
        lemma_dropped_bits_bounds(n / 2);
        let k = dropped_bits(n / 2);
        lemma_pow2_unfold(24 + k + 1);
        lemma_pow2_unfold((23 + k + 1) as nat);
        if k == 0 {
            assert(n / 2 < 0x100_0000);
        }
    }
}

/// More dropped bits for a larger number.
pub proof fn lemma_dropped_bits_monotone(n1: nat, n2: nat)
    requires
        n1 <= n2,
    ensures
        dropped_bits(n1) <= dropped_bits(n2),
    decreases n2,
{
    if n1 >= 0x100_0000 {
        lemma_dropped_bits_monotone(n1 / 2, n2 / 2);
    }
}

/// Conversion to binary32 keeps the order of numbers.
pub proof fn lemma_nearest_monotone(n1: nat, n2: nat)
    requires
        n1 <= n2,
    ensures
        nearest_binary32(n1) <= nearest_binary32(n2),
{
    let k1 = dropped_bits(n1);
    let k2 = dropped_bits(n2);
    lemma_dropped_bits_monotone(n1, n2);
    lemma_pow2_pos(k1);
    lemma_pow2_pos(k2);
    lemma_half_even_monotone(n1, n2, pow2(k1));
    lemma_half_even_monotone(n2, n2, pow2(k2));
    if k1 == k2 {
        lemma_mul_inequality(
            half_even(n1, pow2(k1)) as int,
            half_even(n2, pow2(k1)) as int,
            pow2(k1) as int,
        );
    } else {
        lemma2_to64();
        lemma_dropped_bits_bounds(n1);
        lemma_dropped_bits_bounds(n2);
        // n1 / 2^k1 < 2^24, and n2 / 2^k2 >= 2^23
        lemma_pow2_adds(24, k1);
        lemma_pow2_adds(23, k2);
        lemma_div_multiples_vanish(pow2(24) as int, pow2(k1) as int);
        lemma_div_multiples_vanish(pow2(23) as int, pow2(k2) as int);
        lemma_mul_is_commutative(pow2(24) as int, pow2(k1) as int);
        lemma_mul_is_commutative(pow2(23) as int, pow2(k2) as int);
        lemma_div_is_ordered(n1 as int, (pow2(24) * pow2(k1)) as int, pow2(k1) as int);
        lemma_div_is_ordered((pow2(23) * pow2(k2)) as int, n2 as int, pow2(k2) as int);
        if n1 / pow2(k1) == pow2(24) {
            lemma_fundamental_div_mod(n1 as int, pow2(k1) as int);
            assert(false);
        }
        lemma_mul_inequality(
            half_even(n1, pow2(k1)) as int,
            pow2(24) as int,
            pow2(k1) as int,
        );
        lemma_mul_inequality(
            pow2(23) as int,
            half_even(n2, pow2(k2)) as int,
            pow2(k2) as int,
        );
        if k2 > k1 + 1 {
            lemma_pow2_strictly_increases(k1 + 1, k2);
        }
        lemma_pow2_unfold(k1 + 1);
        lemma_mul_inequality(pow2(k1 + 1) as int, pow2(k2) as int, pow2(23) as int);
        assert(pow2(24) * pow2(k1) == pow2(23) * pow2(k1 + 1)) by (nonlinear_arith)
            requires
                pow2(24) == 2 * pow2(23),
                pow2(k1 + 1) == 2 * pow2(k1),
        ;
    }
}

/// 100 as a binary32 value.
pub open spec fn hundred() -> Binary32 {
    Binary32(0x42C8_0000)
}

/// 0 as a binary32 value.
pub open spec fn zero() -> Binary32 {
    Binary32(0)
}

impl Binary32 {
    /// The value limited to the range from 0 to 100 as `min(100.0)` and
    /// then `max(0.0)` limit a binary32 value: a NaN becomes 100, a value
    /// above 100 becomes 100, a value below 0 becomes 0.
    pub open spec fn clamped_percentage(self) -> Binary32 {
        if self.nan() {
            hundred()
        } else if hundred().is_at_most(self) {
            hundred()
        } else if zero().is_at_most(self) {
            self
        } else {
            zero()
        }
    }

    /// The value limited to the range from 0 to 100.
    pub fn clamp_percentage(&self) -> (r: Binary32)
        ensures
            r == self.clamped_percentage(),
            r.is_percentage(),
    {
        proof {
            lemma_hundred();
        }
        let hundred = Binary32(0x42C8_0000);
        let zero = Binary32(0);
        if self.is_nan() {
            hundred
        } else if self.at_least(&hundred) {
            hundred
        } else if self.at_least(&zero) {
            *self
        } else {
            zero
        }
    }
}

/// Limiting to the range from 0 to 100: a percentage stays as it is, a
/// value of 100 or more (and a NaN) becomes 100, a value below 0 becomes 0.
pub proof fn clamping_keeps_percentages(x: Binary32)
    ensures
        x.is_percentage() ==> x.clamped_percentage().scaled() == x.scaled(),
        x.is_percentage() && x.scaled() < 100 * pow2(149) ==> x.clamped_percentage() == x,
        x.nan() ==> x.clamped_percentage() == Binary32(0x42C8_0000),
        !x.nan() && x.scaled() >= 100 * pow2(149) ==> x.clamped_percentage().scaled() == 100
            * pow2(149),
        !x.nan() && x.scaled() < 0 ==> x.clamped_percentage() == Binary32(0),
        x.clamped_percentage().is_percentage(),
{
    lemma_hundred();
}

/// The bit patterns of 100 and 0 are those values.
pub proof fn lemma_hundred()
    ensures
        hundred().scaled() == 100 * pow2(149),
        !hundred().nan(),
        zero().scaled() == 0,
        !zero().nan(),
{
    lemma2_to64();
    let h = hundred();
    assert(h.exponent() == 133 && h.fraction() == 0x48_0000);
    lemma_pow2_adds(17, 132);
    assert(h.magnitude() == (hidden_bit() + 0x48_0000) * pow2(132));
    assert((hidden_bit() + 0x48_0000) * pow2(132) == 100 * (pow2(17) * pow2(132)))
        by (nonlinear_arith)
        requires
            pow2(17) == 0x2_0000,
    ;
}

/// A percentage is shown as a whole number of at most 100.
pub proof fn lemma_percentage_shown_at_most_100(x: Binary32)
    requires
        x.is_percentage(),
    ensures
        x.display_magnitude() == x.rounded_magnitude(),
        x.rounded_magnitude() <= 100,
{
    lemma_pow2_unfold(149);
    lemma_pow2_pos(148);
    lemma_fields(x);
    if x.exponent() >= 151 {
        lemma_pow2_unfold(150);
        if x.exponent() > 151 {
            lemma_pow2_strictly_increases(150, (x.exponent() - 1) as nat);
        }
        assert((hidden_bit() + x.fraction()) * pow2((x.exponent() - 1) as nat) >= hidden_bit()
            * pow2(150)) by (nonlinear_arith)
            requires
                pow2((x.exponent() - 1) as nat) >= pow2(150),
                pow2(150) > 0,
        ;
        assert(false);
    }
    let d = pow2(149);
    lemma_div_multiples_vanish(pow2(148) as int, 2);
    assert(x.magnitude() + d / 2 < 101 * d);
    lemma_fundamental_div_mod((x.magnitude() + d / 2) as int, d as int);
    lemma_remainder_lower((x.magnitude() + d / 2) as int, d as int);
    if (x.magnitude() + d / 2) / d > 100 {
        assert(((x.magnitude() + d / 2) / d) * d >= 101 * d) by (nonlinear_arith)
            requires
                (x.magnitude() + d / 2) / d >= 101,
                d > 0,
        ;
        assert(false);
    }
}

/// A number whose order agrees with that of the values, for bit patterns
/// that are not NaN.
pub open spec fn spec_order_key(x: u32) -> int {
    if x >= 0x8000_0000 {
        0x8000_0000 - (x - 0x8000_0000)
    } else {
        0x8000_0000 + x
    }
}

fn order_key(x: u32) -> (k: u64)
    ensures
        k == spec_order_key(x),
{
    if x >= 0x8000_0000 {
        0x8000_0000u64 - (x - 0x8000_0000) as u64
    } else {
        0x8000_0000u64 + x as u64
    }
}

/// The magnitude grows with the exponent first and the fraction second.
proof fn lemma_scale_strictly_increases(e1: nat, f1: nat, e2: nat, f2: nat)
    requires
        e1 <= 255,
        e2 <= 255,
        f1 < hidden_bit(),
        f2 < hidden_bit(),
        e1 < e2 || (e1 == e2 && f1 < f2),
    ensures
        scale_of(e1, f1) < scale_of(e2, f2),
{
    lemma2_to64();
    if e1 == e2 {
        if e1 > 0 {
            lemma_pow2_pos((e1 - 1) as nat);
            lemma_mul_strict_inequality(
                (hidden_bit() + f1) as int,
                (hidden_bit() + f2) as int,
                pow2((e1 - 1) as nat) as int,
            );
        }
    } else {
        // Below 2^23 * 2^e1 at exponent e1; at least that at exponent e2.
        let bound = hidden_bit() * pow2(e1);
        if e1 == 0 {
            assert(scale_of(e1, f1) < bound);
        } else {
            lemma_pow2_pos((e1 - 1) as nat);
            lemma_pow2_unfold(e1);
            lemma_mul_strict_inequality(
                (hidden_bit() + f1) as int,
                (2 * hidden_bit()) as int,
                pow2((e1 - 1) as nat) as int,
            );
            lemma_mul_is_associative(2, hidden_bit() as int, pow2((e1 - 1) as nat) as int);
            assert(scale_of(e1, f1) < bound);
        }
        if (e2 - 1) as nat > e1 {
            lemma_pow2_strictly_increases(e1, (e2 - 1) as nat);
        }
        lemma_mul_inequality(pow2(e1) as int, pow2((e2 - 1) as nat) as int, hidden_bit() as int);
        lemma_mul_inequality(
            hidden_bit() as int,
            (hidden_bit() + f2) as int,
            pow2((e2 - 1) as nat) as int,
        );
        lemma_pow2_pos((e2 - 1) as nat);
        assert(bound <= scale_of(e2, f2));
    }
}

/// The magnitude is zero exactly for the zero bit patterns of the fields.
proof fn lemma_scale_zero(e: nat, f: nat)
    ensures
        scale_of(e, f) == 0 <==> (e == 0 && f == 0),
{
    if e > 0 {
        lemma_pow2_pos((e - 1) as nat);
        lemma_mul_strictly_positive((hidden_bit() + f) as int, pow2((e - 1) as nat) as int);
    }
}

/// The fields of a bit pattern, below the sign bit.
proof fn lemma_fields(x: Binary32)
    ensures
        x.0 % 0x8000_0000 == x.exponent() * 0x80_0000 + x.fraction(),
        x.exponent() <= 255,
        x.fraction() < hidden_bit(),
        x.negative() ==> x.0 % 0x8000_0000 == x.0 - 0x8000_0000,
        !x.negative() ==> x.0 % 0x8000_0000 == x.0,
{
    let b = x.0;
    assert(b % 0x8000_0000 == ((b / 0x80_0000) % 256) * 0x80_0000 + b % 0x80_0000)
        by (bit_vector);
}

/// For values that are not NaN, the order keys compare as the values do.
proof fn lemma_order_key(a: Binary32, b: Binary32)
    requires
        !a.nan(),
        !b.nan(),
    ensures
        (spec_order_key(a.0) <= spec_order_key(b.0)) == (a.scaled() <= b.scaled()),
{
    lemma_fields(a);
    lemma_fields(b);
    lemma_scale_zero(a.exponent(), a.fraction());
    lemma_scale_zero(b.exponent(), b.fraction());
    let ma = a.0 % 0x8000_0000;
    let mb = b.0 % 0x8000_0000;
    if ma < mb {
        lemma_scale_strictly_increases(a.exponent(), a.fraction(), b.exponent(), b.fraction());
    } else if mb < ma {
        lemma_scale_strictly_increases(b.exponent(), b.fraction(), a.exponent(), a.fraction());
    } else {
        assert(a.exponent() == b.exponent() && a.fraction() == b.fraction());
    }
}

} // verus!
