//! Single-precision numbers, as the bits of their binary32 encoding.
//!
//! The renderer passes matrices and colors on to the graphics library without
//! calculating with them. What it does need of them is here: comparing them, and
//! converting them from and to integers.
use vstd::arithmetic::power2::{lemma2_to64, lemma_pow2_unfold, pow2};
use vstd::bits::{lemma_u32_shl_is_mul, lemma_u32_shr_is_div};
use vstd::prelude::*;

verus! {

/// A single-precision number. `==` compares the bits; [`FloatBits::float_eq`]
/// compares the numbers.
#[derive(Clone, Copy, PartialEq, Eq, Structural, Debug)]
pub struct FloatBits {
    pub bits: u32,
}

impl FloatBits {
    /// The number 0.
    #[verifier::allow_in_spec]
    pub fn zero() -> FloatBits
        returns
            (FloatBits { bits: 0 }),
    {
        FloatBits { bits: 0 }
    }

    /// The number 1.
    #[verifier::allow_in_spec]
    pub fn one() -> FloatBits
        returns
            (FloatBits { bits: 0x3f80_0000 }),
    {
        FloatBits { bits: 0x3f80_0000 }
    }

    /// The number 2.
    #[verifier::allow_in_spec]
    pub fn two() -> FloatBits
        returns
            (FloatBits { bits: 0x4000_0000 }),
    {
        FloatBits { bits: 0x4000_0000 }
    }

    /// The number -1.
    #[verifier::allow_in_spec]
    pub fn minus_one() -> FloatBits
        returns
            (FloatBits { bits: 0xbf80_0000 }),
    {
        FloatBits { bits: 0xbf80_0000 }
    }

    /// The encoding has the sign bit set.
    pub open spec fn is_negative(self) -> bool {
        self.bits >= 0x8000_0000
    }

    /// The encoding without the sign bit.
    pub open spec fn magnitude(self) -> nat {
        (self.bits as nat) % 0x8000_0000
    }

    /// The biased exponent of the encoding.
    pub open spec fn exponent(self) -> nat {
        self.magnitude() / 0x80_0000
    }

    /// The significand of a normal number, as an integer.
    pub open spec fn significand(self) -> nat {
        0x80_0000 + self.magnitude() % 0x80_0000
    }

    /// No number is encoded.
    pub open spec fn is_nan(self) -> bool {
        self.magnitude() > 0x7f80_0000
    }

    /// The numbers are equal: nothing equals a not-a-number, and the two zeros
    /// are equal.
    pub open spec fn same_number(self, other: FloatBits) -> bool {
        &&& !self.is_nan()
        &&& !other.is_nan()
        &&& self.bits == other.bits || self.magnitude() == 0 && other.magnitude() == 0
    }

    /// The absolute value of a finite number, rounded towards zero to an
    /// integer.
    pub open spec fn integer_part(self) -> nat {
        if self.exponent() < 127 {
            0
        } else if self.exponent() < 150 {
            self.significand() / pow2((150 - self.exponent()) as nat)
        } else {
            self.significand() * pow2((self.exponent() - 150) as nat)
        }
    }

    /// The positive integer `n` is encoded, as a normal number.
    pub open spec fn encodes(self, n: nat) -> bool {
        &&& !self.is_negative()
        &&& 127 <= self.exponent() < 255
        &&& if self.exponent() < 150 {
            self.significand() == n * pow2((150 - self.exponent()) as nat)
        } else {
            self.significand() * pow2((self.exponent() - 150) as nat) == n
        }
    }

    /// The number rounded towards zero, or the nearest integer that there is;
    /// 0 for a not-a-number.
    pub open spec fn truncated(self) -> i32 {
        if self.is_nan() {
            0
        } else if self.exponent() >= 158 {
            if self.is_negative() {
                i32::MIN
            } else {
                i32::MAX
            }
        } else if self.is_negative() {
            (-self.integer_part()) as i32
        } else {
            self.integer_part() as i32
        }
    }

    /// Whether the numbers are equal.
    pub fn float_eq(self, other: FloatBits) -> (equal: bool)
        ensures
            equal == self.same_number(other),
    {
        let a: u32 = self.bits % 0x8000_0000;
        let b: u32 = other.bits % 0x8000_0000;
        a <= 0x7f80_0000 && b <= 0x7f80_0000 && (self.bits == other.bits || a == 0 && b == 0)
    }

    /// The number that is nearest to an integer, and of two that are equally
    /// near the one with the even significand.
    pub fn from_u32(n: u32) -> (number: FloatBits)
        ensures
            number == nearest(n),
            n == 0 ==> number == FloatBits::zero(),
            n != 0 ==> number.encodes(rounded(n)),
    {
        if n == 0 {
            FloatBits::zero()
        } else {
            let number: FloatBits = FloatBits::from_positive(n);
            proof {
                law_encoding_is_unique(number, nearest(n), rounded(n));
            }
            number
        }
    }

    fn from_positive(n: u32) -> (number: FloatBits)
        requires
            n != 0,
        ensures
            number.encodes(rounded(n)),
    {
        proof {
            lemma2_to64();
        }
        if n < 0x100_0000 {
            let mut significand: u32 = n;
            let mut exponent: u32 = 150;
            while significand < 0x80_0000
                invariant
                    0 < n < 0x100_0000,
                    127 <= exponent <= 150,
                    0 < significand < 0x100_0000,
                    significand == n * pow2((150 - exponent) as nat),
                decreases exponent,
            {
                proof {
                    let shift = (150 - exponent) as nat;
                    lemma_pow2_unfold(shift + 1);
                    assert(n * pow2(shift + 1) == 2 * (n * pow2(shift))) by (nonlinear_arith)
                        requires
                            pow2(shift + 1) == 2 * pow2(shift),
                    ;
                    if exponent == 127 {
                        lemma2_to64();
                        assert(n * pow2(23) >= pow2(23)) by (nonlinear_arith)
                            requires
                                n > 0,
                        ;
                    }
                }
                significand = significand * 2;
                exponent = exponent - 1;
            }
            let number = FloatBits { bits: exponent * 0x80_0000 + (significand - 0x80_0000) };
            proof {
                assert(number.exponent() == exponent);
                assert(number.significand() == significand);
                assert(rounded(n) == n);
                if exponent == 150 {
                    assert(pow2(0) == 1);
                    assert(number.significand() * pow2(0) == n) by (nonlinear_arith)
                        requires
                            pow2(0) == 1,
                            number.significand() == n * pow2(0),
                    ;
                }
            }
            return number;
        }
        let (spacing, exponent): (u32, u32) = if n < 0x200_0000 {
            (2, 151)
        } else if n < 0x400_0000 {
            (4, 152)
        } else if n < 0x800_0000 {
            (8, 153)
        } else if n < 0x1000_0000 {
            (16, 154)
        } else if n < 0x2000_0000 {
            (32, 155)
        } else if n < 0x4000_0000 {
            (64, 156)
        } else if n < 0x8000_0000 {
            (128, 157)
        } else {
            (256, 158)
        };
        let quotient: u32 = n / spacing;
        let remainder: u32 = n % spacing;
        let up: bool = remainder > spacing / 2 || remainder == spacing / 2 && quotient % 2 == 1;
        let significand: u32 = if up {
            quotient + 1
        } else {
            quotient
        };
        let number = FloatBits { bits: exponent * 0x80_0000 + (significand - 0x80_0000) };
        proof {
            assert(spacing == spacing_at(n));
            assert(spacing == pow2((exponent - 150) as nat));
            assert(rounded(n) == significand * spacing);
            if significand == 0x100_0000 {
                assert(number.exponent() == exponent + 1);
                assert(number.significand() == 0x80_0000);
                lemma_pow2_unfold((exponent + 1 - 150) as nat);
            } else {
                assert(number.exponent() == exponent);
                assert(number.significand() == significand);
            }
        }
        number
    }

    /// The number rounded towards zero, or the nearest integer that there is;
    /// 0 for a not-a-number.
    pub fn to_i32(self) -> (n: i32)
        ensures
            n == self.truncated(),
    {
        let magnitude: u32 = self.bits % 0x8000_0000;
        if magnitude > 0x7f80_0000 {
            return 0;
        }
        let negative: bool = self.bits >= 0x8000_0000;
        let exponent: u32 = magnitude / 0x80_0000;
        let significand: u32 = 0x80_0000 + magnitude % 0x80_0000;
        if exponent >= 158 {
            return if negative {
                i32::MIN
            } else {
                i32::MAX
            };
        }
        let whole: u32 = if exponent < 127 {
            0
        } else if exponent < 150 {
            proof {
                lemma_u32_shr_is_div(significand, (150 - exponent) as u32);
            }
            significand >> (150 - exponent)
        } else {
            proof {
                let shift = (exponent - 150) as nat;
                lemma2_to64();
                assert(pow2(shift) <= 128);
                assert(significand * pow2(shift) < 0x8000_0000) by (nonlinear_arith)
                    requires
                        significand < 0x100_0000,
                        0 <= pow2(shift) <= 128,
                ;
                lemma_u32_shl_is_mul(significand, shift as u32);
            }
            significand << (exponent - 150)
        };
        proof {
            if 127 <= exponent < 150 {
                let shift = (150 - exponent) as nat;
                vstd::arithmetic::power2::lemma_pow2_pos(shift);
                assert(significand as nat / pow2(shift) <= significand) by (nonlinear_arith)
                    requires
                        pow2(shift) > 0,
                ;
            }
        }
        if negative {
            -(whole as i32)
        } else {
            whole as i32
        }
    }
}

/// How far apart single-precision numbers are between the powers of two below
/// and above an integer, or 1 where every integer is one.
pub open spec fn spacing_at(n: u32) -> nat {
    if n < 0x100_0000 {
        1
    } else if n < 0x200_0000 {
        2
    } else if n < 0x400_0000 {
        4
    } else if n < 0x800_0000 {
        8
    } else if n < 0x1000_0000 {
        16
    } else if n < 0x2000_0000 {
        32
    } else if n < 0x4000_0000 {
        64
    } else if n < 0x8000_0000 {
        128
    } else {
        256
    }
}

/// The integer that a single-precision number can hold and that is nearest to
/// `n`, and of two that are equally near the even multiple of their distance.
pub open spec fn rounded(n: u32) -> nat {
    let spacing = spacing_at(n);
    let below = n as nat / spacing;
    let over = n as nat % spacing;
    if 2 * over > spacing || 2 * over == spacing && below % 2 == 1 {
        (below + 1) * spacing
    } else {
        below * spacing
    }
}

/// The single-precision number that is nearest to an integer.
pub open spec fn nearest(n: u32) -> FloatBits {
    if n == 0 {
        FloatBits::zero()
    } else {
        choose|number: FloatBits| number.encodes(rounded(n))
    }
}

/// A positive integer has at most one encoding.
pub proof fn law_encoding_is_unique(a: FloatBits, b: FloatBits, n: nat)
    requires
        a.encodes(n),
        b.encodes(n),
    ensures
        a == b,
{
    lemma_exponents_do_not_differ(a, b, n);
    lemma_exponents_do_not_differ(b, a, n);
    let e = a.exponent();
    if e >= 150 {
        let scale = pow2((e - 150) as nat);
        vstd::arithmetic::power2::lemma_pow2_pos((e - 150) as nat);
        assert(a.significand() == b.significand()) by (nonlinear_arith)
            requires
                a.significand() * scale == b.significand() * scale,
                scale > 0,
        ;
    }
    assert(a.magnitude() == b.magnitude());
}

proof fn lemma_exponents_do_not_differ(a: FloatBits, b: FloatBits, n: nat)
    requires
        a.encodes(n),
        b.encodes(n),
    ensures
        a.exponent() >= b.exponent(),
{
    let ea = a.exponent();
    let eb = b.exponent();
    if ea < eb {
        let gap = (eb - ea) as nat;
        lemma_pow2_unfold(gap);
        vstd::arithmetic::power2::lemma_pow2_pos((gap - 1) as nat);
        let step = pow2(gap);
        assert(step >= 2);
        if eb < 150 {
            let small = pow2((150 - eb) as nat);
            vstd::arithmetic::power2::lemma_pow2_adds((150 - eb) as nat, gap);
            assert(pow2((150 - ea) as nat) == small * step);
            assert(n * (small * step) >= 2 * (n * small)) by (nonlinear_arith)
                requires
                    step >= 2,
                    n >= 0,
                    small >= 0,
            ;
        } else if ea < 150 {
            let sa = pow2((150 - ea) as nat);
            let sb = pow2((eb - 150) as nat);
            lemma_pow2_unfold((150 - ea) as nat);
            vstd::arithmetic::power2::lemma_pow2_pos((149 - ea) as nat);
            vstd::arithmetic::power2::lemma_pow2_pos((eb - 150) as nat);
            assert(n * sa >= 2 * n) by (nonlinear_arith)
                requires
                    sa >= 2,
                    n >= 0,
            ;
            assert(b.significand() * sb >= b.significand()) by (nonlinear_arith)
                requires
                    sb >= 1,
                    b.significand() >= 0,
            ;
        } else {
            let sa = pow2((ea - 150) as nat);
            let sb = pow2((eb - 150) as nat);
            vstd::arithmetic::power2::lemma_pow2_adds((ea - 150) as nat, gap);
            vstd::arithmetic::power2::lemma_pow2_pos((ea - 150) as nat);
            assert(sb == sa * step);
            assert(a.significand() >= 2 * b.significand()) by (nonlinear_arith)
                requires
                    a.significand() * sa == b.significand() * sb,
                    sb == sa * step,
                    step >= 2,
                    sa > 0,
                    b.significand() >= 0,
            ;
        }
    }
}

/// Converting an integer to a single-precision number and back gives the nearest
/// integer that such a number can hold, or the largest `i32`; an integer below
/// 2^24 comes back as it is.
pub proof fn law_integer_through_float(n: u32)
    ensures
        nearest(n).truncated() == if rounded(n) > i32::MAX {
            i32::MAX as int
        } else {
            rounded(n) as int
        },
        n < 0x100_0000 ==> nearest(n).truncated() == n,
{
    if n == 0 {
        assert(FloatBits::zero().exponent() == 0);
    } else {
        law_nearest_encodes(n);
        lemma_integer_part(n, nearest(n));
    }
}

/// Every positive integer has a nearest single-precision number: the one that
/// encodes the integer after rounding.
pub proof fn law_nearest_encodes(n: u32)
    requires
        n != 0,
    ensures
        nearest(n).encodes(rounded(n)),
{
    lemma2_to64();
    if n < 0x100_0000 {
        assert(rounded(n) == n);
        assert(n * pow2(0) == n) by (nonlinear_arith)
            requires
                pow2(0) == 1,
        ;
        lemma_normalized(n as nat, n as nat, 150);
    } else {
        let spacing = spacing_at(n);
        let exponent: nat = if n < 0x200_0000 {
            151
        } else if n < 0x400_0000 {
            152
        } else if n < 0x800_0000 {
            153
        } else if n < 0x1000_0000 {
            154
        } else if n < 0x2000_0000 {
            155
        } else if n < 0x4000_0000 {
            156
        } else if n < 0x8000_0000 {
            157
        } else {
            158
        };
        assert(spacing == pow2((exponent - 150) as nat));
        let significand = rounded(n) / spacing;
        let below = n as nat / spacing;
        assert(0x80_0000 <= below < 0x100_0000);
        assert((below * spacing) / spacing == below) by (nonlinear_arith)
            requires
                spacing > 0,
        ;
        assert(((below + 1) * spacing) / spacing == below + 1) by (nonlinear_arith)
            requires
                spacing > 0,
        ;
        assert(significand * spacing == rounded(n));
        let number = FloatBits {
            bits: (exponent * 0x80_0000 + (significand - 0x80_0000)) as u32,
        };
        if significand == 0x100_0000 {
            assert(number.exponent() == exponent + 1);
            assert(number.significand() == 0x80_0000);
            lemma_pow2_unfold((exponent + 1 - 150) as nat);
            assert(0x80_0000 * (2 * spacing) == 0x100_0000 * spacing);
        } else {
            assert(number.exponent() == exponent);
            assert(number.significand() == significand);
        }
        assert(number.encodes(rounded(n)));
    }
}

/// A positive integer below 2^24, shifted far enough to be a significand, has an
/// encoding.
proof fn lemma_normalized(n: nat, significand: nat, exponent: nat)
    requires
        0 < n < 0x100_0000,
        127 <= exponent <= 150,
        0 < significand < 0x100_0000,
        significand == n * pow2((150 - exponent) as nat),
    ensures
        exists|number: FloatBits| number.encodes(n),
    decreases exponent,
{
    lemma2_to64();
    if significand >= 0x80_0000 {
        let number = FloatBits {
            bits: (exponent * 0x80_0000 + (significand - 0x80_0000)) as u32,
        };
        assert(number.exponent() == exponent);
        assert(number.significand() == significand);
        if exponent == 150 {
            assert(significand * pow2(0) == n) by (nonlinear_arith)
                requires
                    pow2(0) == 1,
                    significand == n * pow2(0),
            ;
        }
        assert(number.encodes(n));
    } else {
        let shift = (150 - exponent) as nat;
        lemma_pow2_unfold(shift + 1);
        assert(n * pow2(shift + 1) == 2 * (n * pow2(shift))) by (nonlinear_arith)
            requires
                pow2(shift + 1) == 2 * pow2(shift),
        ;
        if exponent == 127 {
            assert(n * pow2(23) >= pow2(23)) by (nonlinear_arith)
                requires
                    n > 0,
            ;
        }
        lemma_normalized(n, 2 * significand, (exponent - 1) as nat);
    }
}

proof fn lemma_integer_part(n: u32, number: FloatBits)
    requires
        n != 0,
        number.encodes(rounded(n)),
    ensures
        !number.is_nan(),
        !number.is_negative(),
        number.exponent() >= 158 <==> rounded(n) > i32::MAX,
        number.exponent() < 158 ==> number.integer_part() == rounded(n),
{
    lemma2_to64();
    let e = number.exponent();
    if e < 150 {
        let shift = (150 - e) as nat;
        vstd::arithmetic::power2::lemma_pow2_pos(shift);
        assert((rounded(n) * pow2(shift)) / pow2(shift) == rounded(n)) by (nonlinear_arith)
            requires
                pow2(shift) > 0,
        ;
        assert(rounded(n) <= rounded(n) * pow2(shift)) by (nonlinear_arith)
            requires
                pow2(shift) > 0,
        ;
    } else if e < 158 {
        let shift = (e - 150) as nat;
        assert(pow2(shift) <= 128);
        assert(number.significand() * pow2(shift) < 0x8000_0000) by (nonlinear_arith)
            requires
                number.significand() < 0x100_0000,
                0 <= pow2(shift) <= 128,
        ;
    } else {
        let shift = (e - 150) as nat;
        if shift > 8 {
            vstd::arithmetic::power2::lemma_pow2_strictly_increases(8, shift);
        }
        assert(number.significand() * pow2(shift) >= 0x8000_0000) by (nonlinear_arith)
            requires
                number.significand() >= 0x80_0000,
                pow2(shift) >= 256,
        ;
    }
}

/// Converting a number to an integer rounds towards zero. A number below 1 gives
/// 0; below 2^23 the fraction is dropped; from there up to 2^31 the number is an
/// integer, and comes out as it is. Larger numbers give the largest or the
/// smallest integer there is, and a not-a-number gives 0.
pub proof fn law_rounds_towards_zero(number: FloatBits)
    ensures
        ({
            let magnitude = number.bits as int % 0x8000_0000;
            let exponent = magnitude / 0x80_0000;
            let significand = 0x80_0000 + magnitude % 0x80_0000;
            let size = if number.bits >= 0x8000_0000 {
                -number.truncated()
            } else {
                number.truncated() as int
            };
            if magnitude > 0x7f80_0000 {
                size == 0
            } else if exponent < 127 {
                size == 0
            } else if exponent < 150 {
                let scale = pow2((150 - exponent) as nat);
                size * scale <= significand < (size + 1) * scale
            } else if exponent < 158 {
                size == significand * pow2((exponent - 150) as nat)
            } else {
                number.truncated() == if number.bits >= 0x8000_0000 {
                    -0x8000_0000
                } else {
                    0x7fff_ffff
                }
            }
        }),
{
    let exponent = number.exponent();
    let significand = number.significand();
    if 127 <= exponent < 150 {
        let scale = pow2((150 - exponent) as nat);
        vstd::arithmetic::power2::lemma_pow2_pos((150 - exponent) as nat);
        let whole = significand / scale;
        vstd::arithmetic::div_mod::lemma_fundamental_div_mod(significand as int, scale as int);
        assert(whole * scale <= significand < (whole + 1) * scale) by (nonlinear_arith)
            requires
                significand == scale * whole + significand % scale,
                0 <= significand % scale < scale,
        ;
        assert(whole <= significand) by (nonlinear_arith)
            requires
                whole * scale <= significand,
                scale > 0,
                whole >= 0,
        ;
    } else if 150 <= exponent < 158 {
        let scale = pow2((exponent - 150) as nat);
        lemma2_to64();
        assert(scale <= 128);
        assert(significand * scale < 0x8000_0000) by (nonlinear_arith)
            requires
                significand < 0x100_0000,
                0 <= scale <= 128,
        ;
    }
}

/// Numbers are equal where their bits are, and the two zeros are equal. Nothing
/// is equal to a not-a-number. Being equal is symmetric and transitive.
pub proof fn law_equal_numbers(a: FloatBits, b: FloatBits, c: FloatBits)
    ensures
        a.same_number(b) <==> {
            &&& a.bits % 0x8000_0000 <= 0x7f80_0000
            &&& b.bits % 0x8000_0000 <= 0x7f80_0000
            &&& a.bits == b.bits || (a.bits == 0 || a.bits == 0x8000_0000) && (b.bits == 0 || b.bits
                == 0x8000_0000)
        },
        a.same_number(b) == b.same_number(a),
        a.same_number(b) && b.same_number(c) ==> a.same_number(c),
{
}

/// How far apart two integers are.
pub open spec fn distance(a: nat, b: nat) -> nat {
    if a <= b {
        (b - a) as nat
    } else {
        (a - b) as nat
    }
}

/// No integer that a single-precision number holds is nearer to `n` than the one
/// that `n` is rounded to.
pub proof fn law_nearest_is_nearest(n: u32, number: FloatBits, held: nat)
    requires
        number.encodes(held),
    ensures
        distance(rounded(n), n as nat) <= distance(held, n as nat),
{
    lemma2_to64();
    if n >= 0x100_0000 {
        let (spacing, shift): (nat, nat) = if n < 0x200_0000 {
            (2, 1)
        } else if n < 0x400_0000 {
            (4, 2)
        } else if n < 0x800_0000 {
            (8, 3)
        } else if n < 0x1000_0000 {
            (16, 4)
        } else if n < 0x2000_0000 {
            (32, 5)
        } else if n < 0x4000_0000 {
            (64, 6)
        } else if n < 0x8000_0000 {
            (128, 7)
        } else {
            (256, 8)
        };
        assert(spacing == pow2(shift));
        assert(spacing == spacing_at(n));
        let exponent = number.exponent();
        let significand = number.significand();
        if exponent < 150 {
            let scale = pow2((150 - exponent) as nat);
            vstd::arithmetic::power2::lemma_pow2_pos((150 - exponent) as nat);
            assert(held <= significand) by (nonlinear_arith)
                requires
                    significand == held * scale,
                    scale > 0,
            ;
            lemma_multiple_is_not_nearer(n as nat, spacing, 0x80_0000);
        } else if exponent - 150 < shift {
            let gap = (shift - (exponent - 150)) as nat;
            let scale = pow2((exponent - 150) as nat);
            vstd::arithmetic::power2::lemma_pow2_adds((exponent - 150) as nat, gap);
            lemma_pow2_unfold(gap);
            vstd::arithmetic::power2::lemma_pow2_pos((gap - 1) as nat);
            assert(held <= 0x80_0000 * spacing) by (nonlinear_arith)
                requires
                    held == significand * scale,
                    significand < 0x100_0000,
                    spacing == scale * pow2(gap),
                    pow2(gap) >= 2,
                    scale >= 0,
            ;
            lemma_multiple_is_not_nearer(n as nat, spacing, 0x80_0000);
        } else {
            let more = (exponent - 150 - shift) as nat;
            vstd::arithmetic::power2::lemma_pow2_adds(shift, more);
            let times = significand * pow2(more);
            assert(held == times * spacing) by (nonlinear_arith)
                requires
                    held == significand * (spacing * pow2(more)),
                    times == significand * pow2(more),
            ;
            lemma_multiple_is_not_nearer(n as nat, spacing, times);
        }
    }
}

/// No multiple of a distance is nearer to an integer than the nearest of them.
proof fn lemma_multiple_is_not_nearer(n: nat, spacing: nat, times: nat)
    requires
        spacing > 0,
    ensures
        ({
            let below = n / spacing;
            let over = n % spacing;
            let nearest = if 2 * over > spacing || 2 * over == spacing && below % 2 == 1 {
                (below + 1) * spacing
            } else {
                below * spacing
            };
            distance(nearest as nat, n) <= distance(times * spacing, n)
        }),
{
    let below = n / spacing;
    let over = n % spacing;
    vstd::arithmetic::div_mod::lemma_fundamental_div_mod(n as int, spacing as int);
    assert(n == below * spacing + over) by (nonlinear_arith)
        requires
            n == spacing * below + over,
    ;
    assert((below + 1) * spacing == below * spacing + spacing) by (nonlinear_arith);
    if times <= below {
        assert(times * spacing <= below * spacing) by (nonlinear_arith)
            requires
                times <= below,
        ;
    } else {
        assert(times * spacing >= (below + 1) * spacing) by (nonlinear_arith)
            requires
                times >= below + 1,
        ;
    }
}

} // verus!
