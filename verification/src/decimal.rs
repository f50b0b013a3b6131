//! Decimal notation of a position, as it appears in a menu identifier.

use vstd::prelude::*;

verus! {

/// The character that writes the digit `d`.
pub open spec fn digit_char(d: nat) -> char
    recommends
        d < 10,
{
    if d == 0 {
        '0'
    } else if d == 1 {
        '1'
    } else if d == 2 {
        '2'
    } else if d == 3 {
        '3'
    } else if d == 4 {
        '4'
    } else if d == 5 {
        '5'
    } else if d == 6 {
        '6'
    } else if d == 7 {
        '7'
    } else if d == 8 {
        '8'
    } else {
        '9'
    }
}

/// Whether `c` is one of the ten decimal digits.
pub open spec fn is_digit(c: char) -> bool {
    exists|d: nat| d < 10 && c == #[trigger] digit_char(d)
}

/// The decimal notation of `n`: most significant digit first, no sign, no
/// leading zero (zero itself is written `0`).
pub open spec fn decimal_digits(n: nat) -> Seq<char>
    decreases n,
{
    if n < 10 {
        seq![digit_char(n)]
    } else {
        decimal_digits(n / 10).push(digit_char(n % 10))
    }
}

/// Different digits are written with different characters.
pub proof fn lemma_digit_char_injective(a: nat, b: nat)
    requires
        a < 10,
        b < 10,
        digit_char(a) == digit_char(b),
    ensures
        a == b,
{
}

/// A decimal notation is never empty, and each of its characters is a digit.
pub proof fn lemma_decimal_digits_are_digits(n: nat)
    ensures
        decimal_digits(n).len() >= 1,
        forall|i: int|
            0 <= i < decimal_digits(n).len() ==> is_digit(#[trigger] decimal_digits(n)[i]),
    decreases n,
{
    if n < 10 {
        assert(is_digit(digit_char(n)));
    } else {
        lemma_decimal_digits_are_digits(n / 10);
        assert(is_digit(digit_char(n % 10)));
    }
}

/// A number below ten is written with one digit, any other with more.
pub proof fn lemma_decimal_digits_len(n: nat)
    ensures
        (decimal_digits(n).len() == 1) == (n < 10),
    decreases n,
{
    if n >= 10 {
        lemma_decimal_digits_are_digits(n / 10);
    }
}

/// Two numbers with the same decimal notation are the same number.
pub proof fn lemma_decimal_digits_injective(a: nat, b: nat)
    requires
        decimal_digits(a) == decimal_digits(b),
    ensures
        a == b,
    decreases a,
{
    lemma_decimal_digits_len(a);
    lemma_decimal_digits_len(b);
    if a < 10 {
        assert(decimal_digits(a)[0] == digit_char(a));
        assert(decimal_digits(b)[0] == digit_char(b));
        lemma_digit_char_injective(a, b);
    } else {
        let front_a = decimal_digits(a / 10);
        let front_b = decimal_digits(b / 10);
        assert(decimal_digits(a).drop_last() =~= front_a);
        assert(decimal_digits(b).drop_last() =~= front_b);
        assert(decimal_digits(a).last() == digit_char(a % 10));
        assert(decimal_digits(b).last() == digit_char(b % 10));
        lemma_digit_char_injective(a % 10, b % 10);
        lemma_decimal_digits_injective(a / 10, b / 10);
    }
}

/// The digits that stand in front of the ones already written, when `rest` is
/// what remains of the number: none once nothing remains.
spec fn leading_digits(rest: nat) -> Seq<char> {
    if rest == 0 {
        Seq::empty()
    } else {
        decimal_digits(rest)
    }
}

proof fn lemma_leading_digits_step(rest: nat)
    requires
        rest > 0,
    ensures
        leading_digits(rest) == leading_digits(rest / 10) + seq![digit_char(rest % 10)],
{
    if rest < 10 {
        assert(leading_digits(rest) =~= leading_digits(rest / 10) + seq![digit_char(rest % 10)]);
    } else {
        assert(leading_digits(rest) =~= leading_digits(rest / 10) + seq![digit_char(rest % 10)]);
    }
}

fn digit_str(d: usize) -> (s: &'static str)
    requires
        d < 10,
    ensures
        s@ == seq![digit_char(d as nat)],
{
    proof {
        reveal_strlit("0");
        reveal_strlit("1");
        reveal_strlit("2");
        reveal_strlit("3");
        reveal_strlit("4");
        reveal_strlit("5");
        reveal_strlit("6");
        reveal_strlit("7");
        reveal_strlit("8");
        reveal_strlit("9");
    }
    let s = if d == 0 {
        "0"
    } else if d == 1 {
        "1"
    } else if d == 2 {
        "2"
    } else if d == 3 {
        "3"
    } else if d == 4 {
        "4"
    } else if d == 5 {
        "5"
    } else if d == 6 {
        "6"
    } else if d == 7 {
        "7"
    } else if d == 8 {
        "8"
    } else {
        "9"
    };
    assert(s@ =~= seq![digit_char(d as nat)]);
    s
}

/// Writes `n` in decimal notation.
pub fn decimal_string(n: usize) -> (s: String)
    ensures
        s@ == decimal_digits(n as nat),
{
    let mut out = String::from_str(digit_str(n % 10));
    let mut rest: usize = n / 10;
    assert(decimal_digits(n as nat) =~= leading_digits(rest as nat) + out@);
    while rest > 0
        invariant
            decimal_digits(n as nat) == leading_digits(rest as nat) + out@,
        decreases rest,
    {
        let digit = digit_str(rest % 10);
        proof {
            lemma_leading_digits_step(rest as nat);
            assert(leading_digits(rest as nat) + out@ =~= leading_digits((rest / 10) as nat) + (
            digit@ + out@));
        }
        out = String::from_str(digit).concat(out.as_str());
        rest = rest / 10;
    }
    assert(decimal_digits(n as nat) =~= out@);
    out
}

} // verus!
