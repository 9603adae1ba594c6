//! Decimal notation of natural numbers, and numbers held as a vector of
//! decimal digits, least significant digit first.

use vstd::prelude::*;

verus! {

/// The character that writes the digit `d`.
pub open spec fn digit_char(d: nat) -> char {
    if d == 0 {
        '0'
    } else if d == 1 {
        '1'
    } else if d == 2 {
        '2'
    } else if d == 3 {
        '3'
    } else if d == 4 {
        '4'
    } else if d == 5 {
        '5'
    } else if d == 6 {
        '6'
    } else if d == 7 {
        '7'
    } else if d == 8 {
        '8'
    } else {
        '9'
    }
}

/// Decimal notation of `n`: most significant digit first, no leading zero,
/// and the single digit `0` for zero.
pub open spec fn decimal(n: nat) -> Seq<char>
    decreases n,
{
    if n < 10 {
        seq![digit_char(n)]
    } else {
        decimal(n / 10).push(digit_char(n % 10))
    }
}

/// Ten to the power `k`.
pub open spec fn pow10(k: nat) -> nat
    decreases k,
{
    if k == 0 {
        1
    } else {
        10 * pow10((k - 1) as nat)
    }
}

/// Every element is a decimal digit.
pub open spec fn all_digits(d: Seq<u8>) -> bool {
    forall|i: int| 0 <= i < d.len() ==> #[trigger] d[i] < 10
}

/// Digits without a leading zero: the most significant one, which stands
/// last, is not zero. The empty sequence stands for zero.
pub open spec fn canonical(d: Seq<u8>) -> bool {
    all_digits(d) && (d.len() > 0 ==> d.last() != 0)
}

/// The number that the digits `d` write, least significant digit first.
pub open spec fn le_value(d: Seq<u8>) -> nat
    decreases d.len(),
{
    if d.len() == 0 {
        0
    } else {
        d[0] as nat + 10 * le_value(d.drop_first())
    }
}

/// The digits `d` as text, most significant digit first.
pub open spec fn le_text(d: Seq<u8>) -> Seq<char> {
    Seq::new(d.len(), |i: int| digit_char(d[d.len() - 1 - i] as nat))
}

/// A digit appended at the significant end counts by its power of ten.
pub proof fn lemma_le_value_push(d: Seq<u8>, x: u8)
    ensures
        le_value(d.push(x)) == le_value(d) + x as nat * pow10(d.len()),
    decreases d.len(),
{
    let e = d.push(x);
    if d.len() == 0 {
        assert(e.drop_first() =~= Seq::<u8>::empty());
        assert(le_value(e.drop_first()) == 0);
        assert(e[0] == x);
        assert(pow10(0) == 1);
        assert(x as nat * 1 == x as nat);
    } else {
        lemma_le_value_push(d.drop_first(), x);
        assert(e.drop_first() =~= d.drop_first().push(x));
        assert(e[0] == d[0]);
        assert(le_value(e) == d[0] as nat + 10 * le_value(e.drop_first()));
        assert(10 * (x as nat * pow10((d.len() - 1) as nat)) == x as nat * pow10(d.len()))
            by (nonlinear_arith)
            requires
                pow10(d.len()) == 10 * pow10((d.len() - 1) as nat),
        ;
    }
}

/// Canonical digits of a positive length write a positive number.
pub proof fn lemma_canonical_positive(d: Seq<u8>)
    requires
        canonical(d),
        d.len() > 0,
    ensures
        le_value(d) > 0,
    decreases d.len(),
{
    if d.len() > 1 {
        assert(d.drop_first().last() == d.last());
        lemma_canonical_positive(d.drop_first());
    }
}

/// Canonical digits, read from the significant end, are the decimal
/// notation of their value.
pub proof fn lemma_le_text_is_decimal(d: Seq<u8>)
    requires
        canonical(d),
        d.len() > 0,
    ensures
        le_text(d) == decimal(le_value(d)),
    decreases d.len(),
{
    let rest = d.drop_first();
    if d.len() == 1 {
        assert(le_value(rest) == 0);
        assert(le_text(d) =~= seq![digit_char(d[0] as nat)]);
    } else {
        assert(rest.last() == d.last());
        lemma_canonical_positive(rest);
        lemma_le_text_is_decimal(rest);
        let n = le_value(d);
        assert(n / 10 == le_value(rest));
        assert(n % 10 == d[0] as nat);
        assert(le_text(d) =~= le_text(rest).push(digit_char(d[0] as nat)));
    }
}

/// Decimal notation tells numbers apart.
pub proof fn lemma_decimal_injective(a: nat, b: nat)
    requires
        decimal(a) == decimal(b),
    ensures
        a == b,
    decreases a,
{
    if a < 10 || b < 10 {
        if a >= 10 {
            lemma_decimal_len(a / 10);
            assert(decimal(a).len() == decimal(a / 10).len() + 1);
        }
        if b >= 10 {
            lemma_decimal_len(b / 10);
            assert(decimal(b).len() == decimal(b / 10).len() + 1);
        }
        assert(decimal(a).len() == decimal(b).len());
        assert(a < 10 && b < 10);
        assert(decimal(a)[0] == digit_char(a));
        assert(decimal(b)[0] == digit_char(b));
    } else {
        let da = decimal(a / 10);
        let db = decimal(b / 10);
        assert(da =~= decimal(a).drop_last());
        assert(db =~= decimal(b).drop_last());
        assert(decimal(a).last() == digit_char(a % 10));
        assert(decimal(b).last() == digit_char(b % 10));
        assert(a % 10 == b % 10);
        lemma_decimal_injective(a / 10, b / 10);
    }
}

/// Decimal notation is never empty.
pub proof fn lemma_decimal_len(n: nat)
    ensures
        decimal(n).len() >= 1,
    decreases n,
{
    if n >= 10 {
        lemma_decimal_len(n / 10);
    }
}

/// The one-character string of a digit.
pub fn digit_str(d: u8) -> (s: &'static str)
    requires
        d < 10,
    ensures
        s@ == seq![digit_char(d as nat)],
{
    proof {
        reveal_strlit("0");
        reveal_strlit("1");
        reveal_strlit("2");
        reveal_strlit("3");
        reveal_strlit("4");
        reveal_strlit("5");
        reveal_strlit("6");
        reveal_strlit("7");
        reveal_strlit("8");
        reveal_strlit("9");
    }
    let s = if d == 0 {
        "0"
    } else if d == 1 {
        "1"
    } else if d == 2 {
        "2"
    } else if d == 3 {
        "3"
    } else if d == 4 {
        "4"
    } else if d == 5 {
        "5"
    } else if d == 6 {
        "6"
    } else if d == 7 {
        "7"
    } else if d == 8 {
        "8"
    } else {
        "9"
    };
    assert(s@ =~= seq![digit_char(d as nat)]);
    s
}

/// The canonical digits of `n`, least significant first.
pub fn digits_of(n: u128) -> (d: Vec<u8>)
    ensures
        canonical(d@),
        le_value(d@) == n,
{
    let mut d: Vec<u8> = Vec::new();
    let mut m: u128 = n;
    assert(pow10(0) == 1 && le_value(d@) == 0);
    while m > 0
        invariant
            all_digits(d@),
            n == le_value(d@) + m * pow10(d@.len()),
            m == 0 && d@.len() > 0 ==> d@.last() != 0,
        decreases m,
    {
        let low: u8 = (m % 10) as u8;
        proof {
            lemma_le_value_push(d@, low);
            assert(m * pow10(d@.len()) == low * pow10(d@.len()) + (m / 10) * pow10(
                d@.len() + 1,
            )) by (nonlinear_arith)
                requires
                    m == 10 * (m / 10) + low,
                    pow10(d@.len() + 1) == 10 * pow10(d@.len()),
            ;
        }
        d.push(low);
        m = m / 10;
    }
    d
}

/// Appends to `out` the digits `d[from..upto]`, most significant first.
pub fn append_digits(out: &mut String, d: &Vec<u8>, from: usize, upto: usize)
    requires
        all_digits(d@),
        from <= upto <= d@.len(),
    ensures
        final(out)@ == old(out)@ + le_text(d@.subrange(from as int, upto as int)),
{
    let ghost before = out@;
    let ghost part = d@.subrange(from as int, upto as int);
    let mut i: usize = upto;
    while i > from
        invariant
            from <= i <= upto <= d@.len(),
            all_digits(d@),
            part == d@.subrange(from as int, upto as int),
            out@ == before + le_text(part).take(upto - i),
        decreases i,
    {
        i = i - 1;
        out.append(digit_str(d[i]));
        assert(out@ =~= before + le_text(part).take(upto - i)) by {
            assert(le_text(part)[upto - i - 1] == digit_char(d@[i as int] as nat));
        }
    }
    assert(le_text(part).take(upto - from) =~= le_text(part));
}

/// The decimal notation of `n` as a string.
pub fn decimal_string(n: u128) -> (s: String)
    ensures
        s@ == decimal(n as nat),
{
    let d = digits_of(n);
    let mut s = String::new();
    if d.len() == 0 {
        s.append(digit_str(0));
        assert(s@ =~= decimal(0));
    } else {
        proof {
            lemma_le_text_is_decimal(d@);
            assert(d@.subrange(0, d@.len() as int) =~= d@);
        }
        append_digits(&mut s, &d, 0, d.len());
        assert(s@ =~= decimal(n as nat));
    }
    s
}

} // verus!
