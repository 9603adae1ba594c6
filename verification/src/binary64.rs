//! IEEE 754 double-precision numbers, held as bit patterns and worked on in
//! exact integer arithmetic: division by a whole number, rounded as the
//! hardware rounds it, and notation with two decimal places.

use crate::decimal::{
    all_digits, append_digits, canonical, decimal, digit_char, digit_str, digits_of, le_value,
    lemma_le_text_is_decimal, lemma_le_value_push, pow10,
};
use vstd::arithmetic::power2::{
    lemma2_to64, lemma_pow2_pos, lemma_pow2_strictly_increases, lemma_pow2_unfold, pow2,
};
use vstd::prelude::*;

verus! {

/// Two to the power 52: the weight of the hidden bit of a double.
pub const HIDDEN_BIT: u64 = 0x10_0000_0000_0000;

/// The integer nearest to `n / d`; of two equally near, the even one.
pub open spec fn round_half_even(n: nat, d: nat) -> nat {
    let q = n / d;
    let r = n % d;
    if 2 * r < d || (2 * r == d && q % 2 == 0) {
        q
    } else {
        q + 1
    }
}

/// Rounding goes to a nearest integer: the result is at most half a unit away
/// from `n / d`.
pub proof fn lemma_round_half_even_is_nearest(n: nat, d: nat)
    requires
        d > 0,
    ensures
        2 * (round_half_even(n, d) * d - n) <= d,
        2 * (n - round_half_even(n, d) * d) <= d,
{
    let q = n / d;
    let r = n % d;
    assert(n == q * d + r && 0 <= r < d) by (nonlinear_arith)
        requires
            q == n / d,
            r == n % d,
            d > 0,
    ;
    assert((q + 1) * d == q * d + d) by (nonlinear_arith);
}

/// By how much `n` falls short of `2^52 * d`.
pub open spec fn shortfall(n: nat, d: nat) -> nat {
    if n < HIDDEN_BIT * d {
        (HIDDEN_BIT * d - n) as nat
    } else {
        0
    }
}

/// The least number of doublings that bring `n` up to `2^52 * d`, so that
/// `n * 2^k / d` has 53 binary digits before the point. Zero for `n == 0`.
pub open spec fn doublings(n: nat, d: nat) -> nat
    decreases shortfall(n, d),
{
    if n == 0 || shortfall(n, d) == 0 {
        0
    } else {
        1 + doublings(2 * n, d)
    }
}

/// The doublings do what they are counted for: after all of them `n` has
/// reached `2^52 * d`, after fewer it has not, and the last one does not take
/// it to `2^53 * d`.
pub proof fn lemma_doublings_reach(n: nat, d: nat)
    requires
        n > 0,
        d > 0,
    ensures
        n * pow2(doublings(n, d)) >= HIDDEN_BIT * d,
        doublings(n, d) > 0 ==> n * pow2(doublings(n, d)) < 2 * HIDDEN_BIT * d,
        forall|j: nat| j < doublings(n, d) ==> n * #[trigger] pow2(j) < HIDDEN_BIT * d,
    decreases shortfall(n, d),
{
    lemma2_to64();
    assert(n * pow2(0) == n) by (nonlinear_arith)
        requires
            pow2(0) == 1,
    ;
    if shortfall(n, d) > 0 {
        let k = doublings(2 * n, d);
        lemma_doublings_reach(2 * n, d);
        lemma_pow2_unfold(k + 1);
        assert(n * pow2(k + 1) == (2 * n) * pow2(k)) by (nonlinear_arith)
            requires
                pow2(k + 1) == 2 * pow2(k),
        ;
        assert(k == 0 ==> (2 * n) * pow2(k) == 2 * n);
        assert forall|j: nat| j < doublings(n, d) implies n * #[trigger] pow2(j)
            < HIDDEN_BIT * d by {
            if j > 0 {
                let i = (j - 1) as nat;
                lemma_pow2_unfold(j);
                assert(n * pow2(j) == (2 * n) * pow2(i)) by (nonlinear_arith)
                    requires
                        pow2(j) == 2 * pow2(i),
                ;
            }
        }
    }
}

/// A double as its 64 bits: sign, eleven bits of exponent, 52 bits of fraction.
#[derive(Clone, Copy, Debug, PartialEq, Eq, Structural)]
pub struct Binary64 {
    pub bits: u64,
}

/// The magnitude `significand * 2^scale`, with its sign.
#[derive(Clone, Copy, Debug, PartialEq, Eq, Structural)]
pub struct Finite {
    pub negative: bool,
    pub significand: u64,
    pub scale: i32,
}

/// What a bit pattern stands for.
#[derive(Clone, Copy, Debug, PartialEq, Eq, Structural)]
pub enum Class {
    Nan,
    Infinite { negative: bool },
    Finite(Finite),
}

impl Binary64 {
    /// The sign bit is set.
    pub open spec fn negative(self) -> bool {
        self.bits >= 0x8000_0000_0000_0000
    }

    /// The eleven exponent bits.
    pub open spec fn exponent_field(self) -> nat {
        ((self.bits / HIDDEN_BIT) % 2048) as nat
    }

    /// The 52 fraction bits.
    pub open spec fn fraction_field(self) -> nat {
        (self.bits % HIDDEN_BIT) as nat
    }

    /// What the bits stand for: a subnormal number has no hidden bit and the
    /// least scale, a normal number has the hidden bit, and the largest
    /// exponent field marks infinities and NaNs.
    pub open spec fn class(self) -> Class {
        if self.exponent_field() == 2047 {
            if self.fraction_field() == 0 {
                Class::Infinite { negative: self.negative() }
            } else {
                Class::Nan
            }
        } else if self.exponent_field() == 0 {
            Class::Finite(
                Finite {
                    negative: self.negative(),
                    significand: self.fraction_field() as u64,
                    scale: -1074i32,
                },
            )
        } else {
            Class::Finite(
                Finite {
                    negative: self.negative(),
                    significand: (HIDDEN_BIT + self.fraction_field()) as u64,
                    scale: (self.exponent_field() - 1075) as i32,
                },
            )
        }
    }

    /// The double with the given bits.
    pub fn from_bits(bits: u64) -> (number: Binary64)
        ensures
            number.bits == bits,
    {
        Binary64 { bits }
    }

    /// Takes the bits apart.
    pub fn classify(&self) -> (class: Class)
        ensures
            class == self.class(),
            class.wf(),
    {
        let negative = self.bits >= 0x8000_0000_0000_0000;
        let field: u64 = (self.bits / HIDDEN_BIT) % 2048;
        let fraction: u64 = self.bits % HIDDEN_BIT;
        if field == 2047 {
            if fraction == 0 {
                Class::Infinite { negative }
            } else {
                Class::Nan
            }
        } else if field == 0 {
            Class::Finite(Finite { negative, significand: fraction, scale: -1074 })
        } else {
            Class::Finite(
                Finite { negative, significand: HIDDEN_BIT + fraction, scale: (field as i32) - 1075 },
            )
        }
    }
}

impl Finite {
    /// The significand has at most 53 bits, or is `2^53` after a rounding
    /// upwards, and the scale is one that a double can have.
    pub open spec fn wf(self) -> bool {
        self.significand <= 2 * HIDDEN_BIT && -1074 <= self.scale <= 971
    }

    /// By how many binary places the significand is moved before the division
    /// by `d`: as many as bring the quotient up to 53 binary digits, but no
    /// more than the least scale of a double allows.
    pub open spec fn shift(self, d: nat) -> nat {
        let full = doublings(self.significand as nat, d);
        let room = (self.scale + 1074) as nat;
        if full <= room {
            full
        } else {
            room
        }
    }

    /// The double nearest to `self / d`; of two equally near, the one with the
    /// even significand.
    pub open spec fn quotient(self, d: nat) -> Finite {
        let k = self.shift(d);
        Finite {
            negative: self.negative,
            significand: round_half_even(self.significand as nat * pow2(k), d) as u64,
            scale: (self.scale - k) as i32,
        }
    }

    /// The magnitude in hundredths, rounded to the nearest whole number; of
    /// two equally near, the even one.
    pub open spec fn hundredths(self) -> nat {
        if self.scale >= 0 {
            100 * self.significand as nat * pow2(self.scale as nat)
        } else {
            round_half_even(100 * self.significand as nat, pow2((-self.scale) as nat))
        }
    }

    /// The number with two decimal places; the sign is written for every
    /// negative number, also where the digits are all zero.
    pub open spec fn text(self) -> Seq<char> {
        (if self.negative {
            seq!['-']
        } else {
            Seq::<char>::empty()
        }) + two_places(self.hundredths())
    }

    /// The quotient is a double nearest to `self / d`: its significand is at
    /// most half a unit away from the exact quotient at the quotient's scale,
    /// and that scale is the finest that a double of this size has, so that a
    /// quotient above the least scale has its 53 binary digits.
    pub proof fn lemma_quotient_is_nearest(self, d: nat)
        requires
            self.wf(),
            d > 0,
        ensures
            self.quotient(d).wf(),
            self.quotient(d).scale == self.scale - self.shift(d),
            2 * (self.quotient(d).significand * d - self.significand * pow2(self.shift(d))) <= d,
            2 * (self.significand * pow2(self.shift(d)) - self.quotient(d).significand * d) <= d,
            self.significand > 0 && self.quotient(d).scale > -1074 ==> self.quotient(
                d,
            ).significand >= HIDDEN_BIT,
    {
        let m = self.significand as nat;
        let k = self.shift(d);
        let n = m * pow2(k);
        let rounded = round_half_even(n, d);
        lemma2_to64();
        assert(m * pow2(0) == m) by (nonlinear_arith)
            requires
                pow2(0) == 1,
        ;
        if m > 0 {
            lemma_doublings_reach(m, d);
        } else {
            assert(n == 0) by (nonlinear_arith)
                requires
                    n == m * pow2(k),
                    m == 0,
            ;
        }
        assert(n <= 2 * HIDDEN_BIT * d) by {
            if m > 0 && k < doublings(m, d) {
                assert(m * pow2(k) < HIDDEN_BIT * d);
            }
        }
        lemma_round_half_even_is_nearest(n, d);
        assert(rounded <= 2 * HIDDEN_BIT && (k == doublings(m, d) && m > 0 ==> rounded
            >= HIDDEN_BIT)) by (nonlinear_arith)
            requires
                d > 0,
                n <= 2 * HIDDEN_BIT * d,
                k == doublings(m, d) && m > 0 ==> n >= HIDDEN_BIT * d,
                2 * (rounded * d - n) <= d,
                2 * (n - rounded * d) <= d,
        ;
    }

    /// The hundredths are a whole number nearest to a hundred times the
    /// magnitude.
    pub proof fn lemma_hundredths_is_nearest(self)
        requires
            self.scale < 0,
        ensures
            2 * (self.hundredths() * pow2((-self.scale) as nat) - 100 * self.significand) <= pow2(
                (-self.scale) as nat,
            ),
            2 * (100 * self.significand - self.hundredths() * pow2((-self.scale) as nat)) <= pow2(
                (-self.scale) as nat,
            ),
    {
        lemma_pow2_pos((-self.scale) as nat);
        lemma_round_half_even_is_nearest(
            100 * self.significand as nat,
            pow2((-self.scale) as nat),
        );
    }

    /// Dividing and then rounding to hundredths stays close to the exact
    /// quotient. With `p` the number of the quotient's units in one, the
    /// hundredths are at most `1/2 + 50/p` away from a hundred times
    /// `self / d`: half a hundredth from the second rounding, and half a unit
    /// of the quotient's last place from the first.
    pub proof fn lemma_quotient_hundredths_error(self, d: nat)
        requires
            self.wf(),
            d > 0,
            self.quotient(d).scale < 0,
        ensures
            ({
                let exact = 100 * self.significand * pow2(self.shift(d));
                let p = pow2((-self.quotient(d).scale) as nat);
                let found = self.quotient(d).hundredths() * p * d;
                &&& 2 * (found - exact) <= p * d + 100 * d
                &&& 2 * (exact - found) <= p * d + 100 * d
            }),
    {
        let q = self.quotient(d);
        let p = pow2((-q.scale) as nat) as int;
        let h = q.hundredths() as int;
        let big = q.significand as int;
        let m = self.significand as int;
        let moved = pow2(self.shift(d)) as int;
        let by = d as int;
        self.lemma_quotient_is_nearest(d);
        q.lemma_hundredths_is_nearest();
        assert(2 * (h * p * by - 100 * m * moved) <= p * by + 100 * by && 2 * (100 * m * moved - h
            * p * by) <= p * by + 100 * by) by (nonlinear_arith)
            requires
                by > 0,
                2 * (h * p - 100 * big) <= p,
                2 * (100 * big - h * p) <= p,
                2 * (big * by - m * moved) <= by,
                2 * (m * moved - big * by) <= by,
        ;
    }

    /// Divides by `d` and rounds to the nearest double.
    pub fn divided_by(&self, d: u32) -> (q: Finite)
        requires
            self.wf(),
            d >= 1,
        ensures
            q == self.quotient(d as nat),
            q.wf(),
    {
        let m: u128 = self.significand as u128;
        let den: u128 = d as u128;
        if m == 0 {
            assert(round_half_even(0, d as nat) == 0) by (nonlinear_arith)
                requires
                    d >= 1,
            ;
            assert(0 * pow2(0) == 0);
            return *self;
        }
        let target: u128 = (HIDDEN_BIT as u128) * den;
        let room: i32 = self.scale + 1074;
        let mut n: u128 = m;
        let mut k: i32 = 0;
        proof {
            lemma2_to64();
        }
        assert(m * pow2(0) == m) by (nonlinear_arith)
            requires
                pow2(0) == 1,
        ;
        while n < target && k < room
            invariant
                0 <= k <= room <= 2045,
                0 < n <= 2 * target,
                target == HIDDEN_BIT * den,
                den == d,
                1 <= d,
                n == m * pow2(k as nat),
                doublings(m as nat, d as nat) == k + doublings(n as nat, d as nat),
            decreases room - k,
        {
            proof {
                lemma_pow2_unfold((k + 1) as nat);
                assert(2 * (m * pow2(k as nat)) == m * (2 * pow2(k as nat))) by (nonlinear_arith);
            }
            n = 2 * n;
            k = k + 1;
        }
        assert(k as nat == self.shift(d as nat));
        let whole: u128 = n / den;
        let rest: u128 = n % den;
        assert(whole <= 2 * HIDDEN_BIT && (whole == 2 * HIDDEN_BIT ==> rest == 0))
            by (nonlinear_arith)
            requires
                n <= 2 * HIDDEN_BIT * den,
                den >= 1,
                whole == n / den,
                rest == n % den,
        ;
        let rounded: u128 = if 2 * rest < den || (2 * rest == den && whole % 2 == 0) {
            whole
        } else {
            whole + 1
        };
        Finite { negative: self.negative, significand: rounded as u64, scale: self.scale - k }
    }

    /// The digits of the magnitude in hundredths.
    fn hundredths_digits(&self) -> (d: Vec<u8>)
        requires
            self.wf(),
        ensures
            canonical(d@),
            le_value(d@) == self.hundredths(),
    {
        let scaled: u128 = 100 * (self.significand as u128);
        if self.scale >= 0 {
            let mut digits = digits_of(scaled);
            let mut i: i32 = 0;
            proof {
                lemma2_to64();
            }
            assert(scaled * pow2(0) == scaled) by (nonlinear_arith)
                requires
                    pow2(0) == 1,
            ;
            while i < self.scale
                invariant
                    0 <= i <= self.scale,
                    canonical(digits@),
                    le_value(digits@) == scaled * pow2(i as nat),
                decreases self.scale - i,
            {
                proof {
                    lemma_pow2_unfold((i + 1) as nat);
                    assert(2 * (scaled * pow2(i as nat)) == scaled * (2 * pow2(i as nat)))
                        by (nonlinear_arith);
                }
                digits = double_digits(&digits);
                i = i + 1;
            }
            digits
        } else if self.scale <= -64 {
            proof {
                let places = (-self.scale) as nat;
                lemma2_to64();
                if places > 64 {
                    lemma_pow2_strictly_increases(64, places);
                }
                let whole = pow2(places);
                assert(scaled as nat / whole == 0 && scaled as nat % whole == scaled)
                    by (nonlinear_arith)
                    requires
                        scaled < whole,
                ;
            }
            Vec::new()
        } else {
            let whole: u128 = power_of_two((-self.scale) as u32);
            let h: u128 = nearest(scaled, whole);
            digits_of(h)
        }
    }

    /// The number with two decimal places.
    pub fn two_places(&self) -> (s: String)
        requires
            self.wf(),
        ensures
            s@ == self.text(),
    {
        let digits = self.hundredths_digits();
        let mut s = String::new();
        if self.negative {
            s.append("-");
            proof {
                reveal_strlit("-");
            }
            assert(s@ =~= seq!['-']);
        }
        append_two_places(&mut s, &digits);
        s
    }
}

impl Class {
    /// A finite number is well formed.
    pub open spec fn wf(self) -> bool {
        self matches Class::Finite(x) ==> x.wf()
    }

    /// The quotient by `d`: a NaN stays a NaN, an infinity stays what it is,
    /// and a finite number is divided and rounded.
    pub open spec fn quotient(self, d: nat) -> Class {
        match self {
            Class::Finite(x) => Class::Finite(x.quotient(d)),
            other => other,
        }
    }

    /// The number with two decimal places; `NaN`, `inf` and `-inf` for what is
    /// no finite number.
    pub open spec fn text(self) -> Seq<char> {
        match self {
            Class::Nan => seq!['N', 'a', 'N'],
            Class::Infinite { negative } => if negative {
                seq!['-', 'i', 'n', 'f']
            } else {
                seq!['i', 'n', 'f']
            },
            Class::Finite(x) => x.text(),
        }
    }

    /// Divides by `d`.
    pub fn divided_by(&self, d: u32) -> (q: Class)
        requires
            self.wf(),
            d >= 1,
        ensures
            q == self.quotient(d as nat),
            q.wf(),
    {
        match self {
            Class::Finite(x) => Class::Finite(x.divided_by(d)),
            Class::Nan => Class::Nan,
            Class::Infinite { negative } => Class::Infinite { negative: *negative },
        }
    }

    /// The number with two decimal places.
    pub fn two_places(&self) -> (s: String)
        requires
            self.wf(),
        ensures
            s@ == self.text(),
    {
        match self {
            Class::Finite(x) => x.two_places(),
            Class::Nan => {
                proof {
                    reveal_strlit("NaN");
                }
                let s = "NaN".to_owned();
                assert(s@ =~= seq!['N', 'a', 'N']);
                s
            },
            Class::Infinite { negative } => {
                proof {
                    reveal_strlit("-inf");
                    reveal_strlit("inf");
                }
                let s = if *negative {
                    "-inf".to_owned()
                } else {
                    "inf".to_owned()
                };
                assert(*negative ==> s@ =~= seq!['-', 'i', 'n', 'f']);
                assert(!*negative ==> s@ =~= seq!['i', 'n', 'f']);
                s
            },
        }
    }
}

/// A number of hundredths written with two decimal places.
pub open spec fn two_places(h: nat) -> Seq<char> {
    decimal(h / 100) + seq!['.', digit_char((h / 10) % 10), digit_char(h % 10)]
}

/// Two to the power `k`.
fn power_of_two(k: u32) -> (p: u128)
    requires
        k <= 64,
    ensures
        p == pow2(k as nat),
        1 <= p <= 0x1_0000_0000_0000_0000,
{
    let mut p: u128 = 1;
    let mut i: u32 = 0;
    proof {
        lemma2_to64();
    }
    while i < k
        invariant
            i <= k <= 64,
            p == pow2(i as nat),
            1 <= p <= 0x1_0000_0000_0000_0000,
        decreases k - i,
    {
        proof {
            lemma_pow2_unfold((i + 1) as nat);
            lemma2_to64();
            if i + 1 < 64 {
                lemma_pow2_strictly_increases((i + 1) as nat, 64);
            }
        }
        p = 2 * p;
        i = i + 1;
    }
    p
}

/// The integer nearest to `n / d`, ties to the even one.
fn nearest(n: u128, d: u128) -> (r: u128)
    requires
        0 < d <= 0x1_0000_0000_0000_0000,
        n <= 0x1_0000_0000_0000_0000,
    ensures
        r == round_half_even(n as nat, d as nat),
{
    let whole: u128 = n / d;
    let rest: u128 = n % d;
    assert(whole <= n) by (nonlinear_arith)
        requires
            whole == n / d,
            d > 0,
    ;
    if 2 * rest < d || (2 * rest == d && whole % 2 == 0) {
        whole
    } else {
        whole + 1
    }
}

/// Twice the number that the digits write.
fn double_digits(d: &Vec<u8>) -> (twice: Vec<u8>)
    requires
        canonical(d@),
    ensures
        canonical(twice@),
        le_value(twice@) == 2 * le_value(d@),
{
    let mut twice: Vec<u8> = Vec::new();
    let mut carry: u8 = 0;
    let mut i: usize = 0;
    assert(d@.take(0) =~= Seq::<u8>::empty());
    assert(pow10(0) == 1);
    while i < d.len()
        invariant
            i <= d@.len(),
            canonical(d@),
            all_digits(twice@),
            twice@.len() == i,
            carry <= 1,
            le_value(twice@) + carry * pow10(i as nat) == 2 * le_value(d@.take(i as int)),
            i > 0 ==> 10 * carry + twice@.last() >= 2 * d@[i - 1],
        decreases d@.len() - i,
    {
        let sum: u8 = 2 * d[i] + carry;
        let low: u8 = sum % 10;
        let high: u8 = sum / 10;
        proof {
            lemma_le_value_push(twice@, low);
            lemma_le_value_push(d@.take(i as int), d@[i as int]);
            assert(d@.take(i as int).push(d@[i as int]) =~= d@.take(i + 1));
            let p = pow10(i as nat);
            assert(pow10((i + 1) as nat) == 10 * p);
            assert(low * p + high * (10 * p) == 2 * (d@[i as int] * p) + carry * p)
                by (nonlinear_arith)
                requires
                    low + 10 * high == 2 * d@[i as int] + carry,
            ;
        }
        twice.push(low);
        carry = high;
        i = i + 1;
    }
    assert(d@.take(i as int) =~= d@);
    if carry > 0 {
        proof {
            lemma_le_value_push(twice@, carry);
        }
        twice.push(carry);
    }
    twice
}

/// Appends the number of hundredths that `d` writes, with two decimal places.
fn append_two_places(out: &mut String, d: &Vec<u8>)
    requires
        canonical(d@),
    ensures
        final(out)@ == old(out)@ + two_places(le_value(d@)),
{
    let ghost before = out@;
    let ghost h = le_value(d@);
    let len = d.len();
    let tenths: u8 = if len >= 2 {
        d[1]
    } else {
        0
    };
    let units: u8 = if len >= 1 {
        d[0]
    } else {
        0
    };
    proof {
        let rest = d@.drop_first();
        if len >= 1 {
            assert(h == d@[0] + 10 * le_value(rest));
            if len >= 2 {
                assert(rest.drop_first() =~= d@.skip(2));
                assert(le_value(rest) == d@[1] + 10 * le_value(d@.skip(2)));
            } else {
                assert(le_value(rest) == 0);
            }
        }
        assert(h % 10 == units as nat);
        assert((h / 10) % 10 == tenths as nat);
    }
    if len > 2 {
        proof {
            let upper = d@.skip(2);
            assert(upper.last() == d@.last());
            assert(canonical(upper));
            lemma_le_text_is_decimal(upper);
            assert(h / 100 == le_value(upper));
            assert(d@.subrange(2, len as int) =~= upper);
        }
        append_digits(out, d, 2, len);
    } else {
        out.append(digit_str(0));
        assert(h / 100 == 0);
    }
    out.append(".");
    out.append(digit_str(tenths));
    out.append(digit_str(units));
    proof {
        reveal_strlit(".");
        assert(out@ =~= before + two_places(h));
    }
}

} // verus!
