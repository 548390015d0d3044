//! The runtime number type.
//!
//! Numbers are exact fixed-point decimals with six fractional digits: a sign
//! and a magnitude of scaled units, each unit worth one millionth. A number's
//! view is the signed count of scaled units it stands for. Arithmetic is
//! exact while the result fits; a result too large in magnitude saturates at
//! the largest representable number, and multiplication and division truncate
//! toward zero below the sixth fractional digit. Division by zero yields the
//! saturated bound with the sign of the dividend, and zero over zero yields
//! zero. There is a single zero, which is never negative.

use vstd::prelude::*;

use crate::text::chars_to_string;
use crate::text::dec_digits;
use crate::text::digit_char;

verus! {

/// Scaled units per whole unit: the magnitude of `1`.
pub const SCALE: u64 = 1000000;

/// A runtime number: `mag` scaled units, negated when `neg` is set.
#[derive(Clone, Copy, Debug)]
pub struct Num {
    neg: bool,
    mag: u64,
}

/// The largest representable magnitude, in scaled units.
pub open spec fn num_max() -> int {
    0xffff_ffff_ffff_ffff
}

/// Clamp a scaled value into the representable range.
pub open spec fn sat(x: int) -> int {
    if x > num_max() {
        num_max()
    } else if x < -num_max() {
        -num_max()
    } else {
        x
    }
}

pub open spec fn abs_int(x: int) -> int {
    if x >= 0 {
        x
    } else {
        -x
    }
}

/// Division truncating toward zero, for a nonzero divisor.
pub open spec fn tdiv(a: int, b: int) -> int {
    if (a >= 0) == (b >= 0) {
        abs_int(a) / abs_int(b)
    } else {
        -(abs_int(a) / abs_int(b))
    }
}

/// Sum of two scaled values, saturated.
pub open spec fn num_add(a: int, b: int) -> int {
    sat(a + b)
}

/// Difference of two scaled values, saturated.
pub open spec fn num_sub(a: int, b: int) -> int {
    sat(a - b)
}

/// Negation of a scaled value.
pub open spec fn num_neg(a: int) -> int {
    -a
}

/// Product of two scaled values: rescaled with truncation, then saturated.
pub open spec fn num_mul(a: int, b: int) -> int {
    sat(tdiv(a * b, SCALE as int))
}

/// Quotient of two scaled values: rescaled with truncation, then saturated.
/// A zero divisor saturates, keeping the dividend's sign.
pub open spec fn num_div(a: int, b: int) -> int {
    if b == 0 {
        if a == 0 {
            0
        } else if a > 0 {
            num_max()
        } else {
            -num_max()
        }
    } else {
        sat(tdiv(a * (SCALE as int), b))
    }
}

impl View for Num {
    type V = int;

    /// The scaled value this number stands for.
    closed spec fn view(&self) -> int {
        if self.neg {
            -(self.mag as int)
        } else {
            self.mag as int
        }
    }
}

impl Num {
    /// Zero carries a positive sign, so each value has one representation.
    #[verifier::type_invariant]
    spec fn wf(self) -> bool {
        self.mag == 0 ==> !self.neg
    }

    pub fn zero() -> (r: Num)
        ensures
            r@ == 0,
    {
        Num { neg: false, mag: 0 }
    }

    /// The number worth `units` whole units.
    pub fn from_units(units: u64) -> (r: Num)
        ensures
            r@ == sat(units * SCALE),
    {
        let mag: u64 = if units <= u64::MAX / SCALE {
            units * SCALE
        } else {
            u64::MAX
        };
        proof {
            if units > u64::MAX as int / SCALE as int {
                assert(units * SCALE > u64::MAX) by (nonlinear_arith)
                    requires
                        units > u64::MAX as int / SCALE as int,
                        SCALE == 1000000,
                ;
            }
        }
        Num { neg: false, mag }
    }

    pub fn add(self, other: Num) -> (r: Num)
        ensures
            r@ == num_add(self@, other@),
    {
        proof {
            use_type_invariant(&self);
            use_type_invariant(&other);
        }
        if self.neg == other.neg {
            let mag: u64 = if self.mag <= u64::MAX - other.mag {
                self.mag + other.mag
            } else {
                u64::MAX
            };
            Num { neg: self.neg && mag != 0, mag }
        } else if self.mag >= other.mag {
            let mag: u64 = self.mag - other.mag;
            Num { neg: self.neg && mag != 0, mag }
        } else {
            let mag: u64 = other.mag - self.mag;
            Num { neg: other.neg && mag != 0, mag }
        }
    }

    pub fn negate(self) -> (r: Num)
        ensures
            r@ == num_neg(self@),
    {
        proof {
            use_type_invariant(&self);
        }
        if self.mag == 0 {
            self
        } else {
            Num { neg: !self.neg, mag: self.mag }
        }
    }

    pub fn sub(self, other: Num) -> (r: Num)
        ensures
            r@ == num_sub(self@, other@),
    {
        self.add(other.negate())
    }

    pub fn mul(self, other: Num) -> (r: Num)
        ensures
            r@ == num_mul(self@, other@),
    {
        proof {
            use_type_invariant(&self);
            use_type_invariant(&other);
            assert((self.mag as int) * (other.mag as int) <= 0xffff_ffff_ffff_ffff
                * 0xffff_ffff_ffff_ffff) by (nonlinear_arith)
                requires
                    self.mag <= 0xffff_ffff_ffff_ffff,
                    other.mag <= 0xffff_ffff_ffff_ffff,
            ;
        }
        let p: u128 = (self.mag as u128) * (other.mag as u128);
        let q: u128 = p / (SCALE as u128);
        let mag: u64 = if q > u64::MAX as u128 {
            u64::MAX
        } else {
            q as u64
        };
        proof {
            assert(p == (self.mag as int) * (other.mag as int)) by (nonlinear_arith)
                requires
                    p == (self.mag as u128) * (other.mag as u128),
                    self.mag <= 0xffff_ffff_ffff_ffff,
                    other.mag <= 0xffff_ffff_ffff_ffff,
            ;
            assert(self@ * other@ == if self.neg == other.neg {
                (self.mag as int) * (other.mag as int)
            } else {
                -((self.mag as int) * (other.mag as int))
            }) by (nonlinear_arith)
                requires
                    self@ == if self.neg { -(self.mag as int) } else { self.mag as int },
                    other@ == if other.neg { -(other.mag as int) } else { other.mag as int },
            ;
        }
        Num { neg: (self.neg != other.neg) && mag != 0, mag }
    }

    pub fn div(self, other: Num) -> (r: Num)
        ensures
            r@ == num_div(self@, other@),
    {
        proof {
            use_type_invariant(&self);
            use_type_invariant(&other);
        }
        if other.mag == 0 {
            if self.mag == 0 {
                Num { neg: false, mag: 0 }
            } else {
                Num { neg: self.neg, mag: u64::MAX }
            }
        } else {
            let p: u128 = (self.mag as u128) * (SCALE as u128);
            let q: u128 = p / (other.mag as u128);
            let mag: u64 = if q > u64::MAX as u128 {
                u64::MAX
            } else {
                q as u64
            };
            proof {
                assert(p == (self.mag as int) * (SCALE as int)) by (nonlinear_arith)
                    requires
                        p == (self.mag as u128) * (SCALE as u128),
                        self.mag <= 0xffff_ffff_ffff_ffff,
                        SCALE == 1000000,
                ;
                assert(self@ * (SCALE as int) == if self.neg {
                    -((self.mag as int) * (SCALE as int))
                } else {
                    (self.mag as int) * (SCALE as int)
                }) by (nonlinear_arith)
                    requires
                        self@ == if self.neg { -(self.mag as int) } else { self.mag as int },
                ;
            }
            Num { neg: (self.neg != other.neg) && mag != 0, mag }
        }
    }

    /// Strictly less, on the values the numbers stand for.
    pub fn lt(self, other: Num) -> (r: bool)
        ensures
            r == (self@ < other@),
    {
        proof {
            use_type_invariant(&self);
            use_type_invariant(&other);
        }
        if self.neg && other.neg {
            other.mag < self.mag
        } else if self.neg {
            true
        } else if other.neg {
            false
        } else {
            self.mag < other.mag
        }
    }

    pub fn le(self, other: Num) -> (r: bool)
        ensures
            r == (self@ <= other@),
    {
        !other.lt(self)
    }

    pub fn gt(self, other: Num) -> (r: bool)
        ensures
            r == (self@ > other@),
    {
        other.lt(self)
    }

    pub fn ge(self, other: Num) -> (r: bool)
        ensures
            r == (self@ >= other@),
    {
        !self.lt(other)
    }

    /// Exact equality of the values the numbers stand for.
    pub fn eq_val(self, other: Num) -> (r: bool)
        ensures
            r == (self@ == other@),
    {
        proof {
            use_type_invariant(&self);
            use_type_invariant(&other);
        }
        self.neg == other.neg && self.mag == other.mag
    }
}

/// Whether a character is a decimal digit.
pub open spec fn is_digit_char(c: char) -> bool {
    48 <= c as int && c as int <= 57
}

/// The value of one decimal digit character.
pub open spec fn digit_val(c: char) -> int {
    c as int - 48
}

/// The value of a run of decimal digit characters, most significant first.
pub open spec fn int_digits_val(s: Seq<char>) -> int
    decreases s.len(),
{
    if s.len() == 0 {
        0
    } else {
        int_digits_val(s.drop_last()) * 10 + digit_val(s.last())
    }
}

/// Ten to a small power; six at most.
pub open spec fn pow10_small(k: int) -> int {
    if k <= 0 {
        1
    } else if k == 1 {
        10
    } else if k == 2 {
        100
    } else if k == 3 {
        1000
    } else if k == 4 {
        10000
    } else if k == 5 {
        100000
    } else {
        1000000
    }
}

/// The scaled value of a fractional digit run: the first six digits count,
/// weighted down to the sixth place; digits past the sixth are truncated.
pub open spec fn frac_scaled(s: Seq<char>) -> int {
    if s.len() >= 6 {
        int_digits_val(s.take(6))
    } else {
        int_digits_val(s) * pow10_small(6 - s.len())
    }
}

/// The scaled value of a numeric literal: its integer digits and its
/// fractional digits, saturated at the representable bound.
pub open spec fn num_lit_val(ip: Seq<char>, fp: Seq<char>) -> int {
    sat(int_digits_val(ip) * (SCALE as int) + frac_scaled(fp))
}

pub proof fn lemma_int_digits_nonneg(s: Seq<char>)
    requires
        forall|i: int| 0 <= i < s.len() ==> is_digit_char(#[trigger] s[i]),
    ensures
        int_digits_val(s) >= 0,
    decreases s.len(),
{
    if s.len() > 0 {
        assert(forall|i: int|
            0 <= i < s.drop_last().len() ==> is_digit_char(#[trigger] s.drop_last()[i]));
        lemma_int_digits_nonneg(s.drop_last());
    }
}

/// The six fractional digit characters of a scaled remainder.
pub open spec fn six_frac_chars(fp: int) -> Seq<char> {
    seq![
        digit_char(fp / 100000 % 10),
        digit_char(fp / 10000 % 10),
        digit_char(fp / 1000 % 10),
        digit_char(fp / 100 % 10),
        digit_char(fp / 10 % 10),
        digit_char(fp % 10),
    ]
}

/// A digit run with its trailing zeros removed.
pub open spec fn trim_trailing_zeros(s: Seq<char>) -> Seq<char>
    decreases s.len(),
{
    if s.len() > 0 && s.last() == '0' {
        trim_trailing_zeros(s.drop_last())
    } else {
        s
    }
}

/// The decimal text of a scaled value: an optional minus sign, the whole
/// part, and the fractional digits when there are any, trailing zeros
/// trimmed.
pub open spec fn num_chars(v: int) -> Seq<char> {
    let m = abs_int(v);
    let sign: Seq<char> = if v < 0 {
        seq!['-']
    } else {
        Seq::empty()
    };
    let ip = m / (SCALE as int);
    let fp = m % (SCALE as int);
    if fp == 0 {
        sign + dec_digits(ip)
    } else {
        sign + dec_digits(ip) + seq!['.'] + trim_trailing_zeros(six_frac_chars(fp))
    }
}

impl Num {
    /// Read a numeric literal from its digit runs inside the source text:
    /// the integer digits at `a..b` and the fractional digits at `c..d`.
    pub fn from_digits(src: &Vec<char>, a: usize, b: usize, c: usize, d: usize) -> (r: Num)
        requires
            a <= b <= src.len(),
            c <= d <= src.len(),
            forall|i: int| a <= i < b ==> is_digit_char(#[trigger] src@[i]),
            forall|i: int| c <= i < d ==> is_digit_char(#[trigger] src@[i]),
        ensures
            r@ == num_lit_val(
                src@.subrange(a as int, b as int),
                src@.subrange(c as int, d as int),
            ),
    {
        let ghost ip: Seq<char> = src@.subrange(a as int, b as int);
        let ghost fp: Seq<char> = src@.subrange(c as int, d as int);

        // Fold the integer digits, clamping at the representable bound.
        let mut acc: u64 = 0;
        let mut i: usize = a;
        while i < b
            invariant
                a <= i <= b <= src.len(),
                c <= d <= src.len(),
                forall|k: int| a <= k < b ==> is_digit_char(#[trigger] src@[k]),
                int_digits_val(src@.subrange(a as int, i as int)) >= 0,
                acc as int == if int_digits_val(src@.subrange(a as int, i as int)) > num_max() {
                    num_max()
                } else {
                    int_digits_val(src@.subrange(a as int, i as int))
                },
            decreases b - i,
        {
            let ghost pre = src@.subrange(a as int, i as int);
            let ghost post = src@.subrange(a as int, i + 1);
            proof {
                assert(post.drop_last() =~= pre);
                assert(post.last() == src@[i as int]);
                lemma_int_digits_nonneg(post);
            }
            let ch = src[i];
            let dv: u64 = (ch as u64) - 48;
            acc = if acc <= (u64::MAX - dv) / 10 {
                acc * 10 + dv
            } else {
                u64::MAX
            };
            i = i + 1;
        }

        // Fold at most six fractional digits, then weight them down to the
        // sixth place.
        let flen: usize = if d - c > 6 {
            6
        } else {
            d - c
        };
        let mut facc: u64 = 0;
        let mut j: usize = c;
        while j < c + flen
            invariant
                c <= j <= c + flen,
                flen <= d - c,
                flen <= 6,
                c + flen <= src.len(),
                forall|k: int| c <= k < d ==> is_digit_char(#[trigger] src@[k]),
                facc as int == int_digits_val(src@.subrange(c as int, j as int)),
                facc < pow10_small(j - c),
            decreases c + flen - j,
        {
            let ghost pre = src@.subrange(c as int, j as int);
            let ghost post = src@.subrange(c as int, j + 1);
            proof {
                assert(post.drop_last() =~= pre);
                assert(post.last() == src@[j as int]);
            }
            let ch = src[j];
            let dv: u64 = (ch as u64) - 48;
            facc = facc * 10 + dv;
            j = j + 1;
        }
        let mult: u64 = match 6 - flen {
            0 => 1,
            1 => 10,
            2 => 100,
            3 => 1000,
            4 => 10000,
            5 => 100000,
            _ => 1000000,
        };
        proof {
            assert(mult as int == pow10_small(6 - flen));
            assert(facc * mult < 1000000 && facc * mult == facc as int * pow10_small(6 - flen))
                by (nonlinear_arith)
                requires
                    facc < pow10_small(flen as int),
                    mult as int == pow10_small(6 - flen),
                    0 <= flen <= 6,
                    facc >= 0,
                    pow10_small(flen as int) * pow10_small(6 - flen) == 1000000,
            ;
        }
        let frac_total: u64 = facc * mult;
        proof {
            if flen == 6 {
                assert(fp.len() >= 6 && src@.subrange(c as int, c + flen) =~= fp.take(6));
                assert(frac_total as int == frac_scaled(fp));
            } else {
                assert(src@.subrange(c as int, c + flen) =~= fp);
                assert(frac_total as int == frac_scaled(fp));
            }
        }

        let t: u128 = (acc as u128) * (SCALE as u128) + (frac_total as u128);
        let mag: u64 = if t > u64::MAX as u128 {
            u64::MAX
        } else {
            t as u64
        };
        proof {
            let iv = int_digits_val(ip);
            if iv > num_max() {
                assert(iv * (SCALE as int) >= iv > num_max());
            }
        }
        Num { neg: false, mag }
    }

    /// The decimal text of this number.
    pub fn to_display_string(&self) -> (r: String)
        ensures
            r@ == num_chars(self@),
    {
        proof {
            use_type_invariant(self);
        }
        let mut out: Vec<char> = Vec::new();
        if self.neg {
            out.push('-');
        }
        let ip: u64 = self.mag / SCALE;
        let fp: u64 = self.mag % SCALE;
        crate::text::push_dec_digits(ip, &mut out);
        if fp != 0 {
            out.push('.');
            let mut frac: Vec<char> = Vec::new();
            frac.push(crate::text::exec_digit_char(fp / 100000 % 10));
            frac.push(crate::text::exec_digit_char(fp / 10000 % 10));
            frac.push(crate::text::exec_digit_char(fp / 1000 % 10));
            frac.push(crate::text::exec_digit_char(fp / 100 % 10));
            frac.push(crate::text::exec_digit_char(fp / 10 % 10));
            frac.push(crate::text::exec_digit_char(fp % 10));
            proof {
                assert(frac@ =~= six_frac_chars(fp as int));
            }
            while frac.len() > 0 && frac[frac.len() - 1] == '0'
                invariant
                    trim_trailing_zeros(frac@) == trim_trailing_zeros(six_frac_chars(fp as int)),
                decreases frac.len(),
            {
                let ghost before = frac@;
                frac.pop();
                proof {
                    assert(frac@ =~= before.drop_last());
                }
            }
            let mut k: usize = 0;
            let ghost head = out@;
            while k < frac.len()
                invariant
                    k <= frac.len(),
                    out@ == head + frac@.take(k as int),
                decreases frac.len() - k,
            {
                out.push(frac[k]);
                proof {
                    assert(head + frac@.take(k + 1) =~= (head + frac@.take(k as int)).push(
                        frac@[k as int],
                    ));
                }
                k = k + 1;
            }
            proof {
                assert(frac@.take(frac@.len() as int) =~= frac@);
                assert(trim_trailing_zeros(frac@) == frac@);
            }
        }
        proof {
            assert(out@ =~= num_chars(self@));
        }
        chars_to_string(&out)
    }
}

} // verus!
