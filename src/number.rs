//! Exact decimal numbers and their canonical text.
use vstd::prelude::*;
use vstd::arithmetic::div_mod::lemma_div_denominator;

verus! {

/// A decimal number: `mantissa / 10^scale`.
///
/// `Number::new(25, 1)` is 2.5, `Number::new(-3, 0)` is -3. The same value may be
/// written with several scales (`Number::new(250, 2)` is 2.5 too); all of them
/// render alike.
#[derive(Clone, Copy, Debug, PartialEq, Eq, Structural)]
pub struct Number {
    pub mantissa: i64,
    /// Digits after the decimal point.
    pub scale: u8,
}

/// Ten to the power `n`.
pub open spec fn pow10(n: nat) -> nat
    decreases n,
{
    if n == 0 {
        1
    } else {
        10 * pow10((n - 1) as nat)
    }
}

/// The absolute value of `m`.
pub open spec fn magnitude(m: int) -> nat {
    if m < 0 {
        (-m) as nat
    } else {
        m as nat
    }
}

/// `a / 10^s` with trailing zeros of `a` removed from the fraction:
/// the same value, with the fewest digits after the point.
pub open spec fn trimmed(a: nat, s: nat) -> (nat, nat)
    decreases s,
{
    if s > 0 && a % 10 == 0 {
        trimmed(a / 10, (s - 1) as nat)
    } else {
        (a, s)
    }
}

/// The decimal digit `d` as a character.
pub open spec fn digit_char(d: nat) -> char {
    if d == 0 {
        '0'
    } else if d == 1 {
        '1'
    } else if d == 2 {
        '2'
    } else if d == 3 {
        '3'
    } else if d == 4 {
        '4'
    } else if d == 5 {
        '5'
    } else if d == 6 {
        '6'
    } else if d == 7 {
        '7'
    } else if d == 8 {
        '8'
    } else {
        '9'
    }
}

/// The decimal digits of `n`, without leading zeros (`0` is written `0`).
pub open spec fn digits(n: nat) -> Seq<char>
    decreases n,
{
    if n < 10 {
        seq![digit_char(n)]
    } else {
        digits(n / 10).push(digit_char(n % 10))
    }
}

/// The last `w` decimal digits of `n`, with leading zeros where `n` has fewer.
pub open spec fn padded(n: nat, w: nat) -> Seq<char>
    decreases w,
{
    if w == 0 {
        seq![]
    } else {
        padded(n / 10, (w - 1) as nat).push(digit_char(n % 10))
    }
}

/// The canonical text of a number: an optional `-`, the integral digits, and,
/// only where the value is not integral, `.` followed by the fraction without
/// trailing zeros.
pub open spec fn number_text(n: Number) -> Seq<char> {
    let (a, s) = trimmed(magnitude(n.mantissa as int), n.scale as nat);
    let sign = if n.mantissa < 0 {
        seq!['-']
    } else {
        seq![]
    };
    let fraction = if s == 0 {
        seq![]
    } else {
        seq!['.'] + padded(a, s)
    };
    sign + digits(a / pow10(s)) + fraction
}

impl Number {
    /// The number `mantissa / 10^scale`.
    pub fn new(mantissa: i64, scale: u8) -> (r: Number)
        ensures
            r.mantissa == mantissa,
            r.scale == scale,
    {
        Number { mantissa, scale }
    }

    /// The integer `value`.
    pub fn integer(value: i64) -> (r: Number)
        ensures
            r.mantissa == value,
            r.scale == 0,
    {
        Number { mantissa: value, scale: 0 }
    }

    /// Appends the canonical text of this number to `out`.
    pub fn write_to(&self, out: &mut String)
        ensures
            final(out)@ == old(out)@ + number_text(*self),
    {
        let m = self.mantissa;
        let mut a: u64 = if m < 0 {
            ((-(m + 1)) as u64) + 1
        } else {
            m as u64
        };
        let mut s: u8 = self.scale;
        assert(a == magnitude(m as int));
        while s > 0 && a % 10 == 0
            invariant
                trimmed(a as nat, s as nat) == trimmed(magnitude(m as int), self.scale as nat),
            decreases s,
        {
            a = a / 10;
            s = s - 1;
        }
        if m < 0 {
            proof {
                reveal_strlit("-");
            }
            out.append("-");
        }
        let mut q: u64 = a;
        let mut i: u8 = 0;
        assert(pow10(0) == 1);
        while i < s
            invariant
                i <= s,
                q as nat == a as nat / pow10(i as nat),
            decreases s - i,
        {
            proof {
                lemma_pow10_positive(i as nat);
                lemma_div_denominator(a as int, pow10(i as nat) as int, 10);
                assert(pow10((i + 1) as nat) == pow10(i as nat) * 10);
            }
            q = q / 10;
            i = i + 1;
        }
        write_digits(out, q);
        if s > 0 {
            proof {
                reveal_strlit(".");
            }
            out.append(".");
            write_padded(out, a, s);
        }
    }
}

proof fn lemma_pow10_positive(n: nat)
    ensures
        pow10(n) > 0,
    decreases n,
{
    if n > 0 {
        lemma_pow10_positive((n - 1) as nat);
    }
}

/// The digit `d` as a one-character string.
fn digit_str(d: u64) -> (r: &'static str)
    requires
        d < 10,
    ensures
        r@ == seq![digit_char(d as nat)],
{
    proof {
        reveal_strlit("0");
        reveal_strlit("1");
        reveal_strlit("2");
        reveal_strlit("3");
        reveal_strlit("4");
        reveal_strlit("5");
        reveal_strlit("6");
        reveal_strlit("7");
        reveal_strlit("8");
        reveal_strlit("9");
    }
    match d {
        0 => "0",
        1 => "1",
        2 => "2",
        3 => "3",
        4 => "4",
        5 => "5",
        6 => "6",
        7 => "7",
        8 => "8",
        _ => "9",
    }
}

/// Appends the decimal digits of `n` to `out`.
fn write_digits(out: &mut String, n: u64)
    ensures
        final(out)@ == old(out)@ + digits(n as nat),
    decreases n,
{
    if n >= 10 {
        write_digits(out, n / 10);
    }
    out.append(digit_str(n % 10));
}

/// Appends the last `w` decimal digits of `n` to `out`.
fn write_padded(out: &mut String, n: u64, w: u8)
    ensures
        final(out)@ == old(out)@ + padded(n as nat, w as nat),
    decreases w,
{
    if w > 0 {
        write_padded(out, n / 10, w - 1);
        out.append(digit_str(n % 10));
    }
}

/// Whether every character of `s` is a decimal digit.
pub open spec fn all_digits(s: Seq<char>) -> bool {
    forall|i: int| 0 <= i < s.len() ==> '0' <= #[trigger] s[i] <= '9'
}

proof fn lemma_digits_are_digits(n: nat)
    ensures
        all_digits(digits(n)),
        digits(n).len() > 0,
    decreases n,
{
    if n >= 10 {
        lemma_digits_are_digits(n / 10);
    }
}

proof fn lemma_padded_are_digits(n: nat, w: nat)
    ensures
        all_digits(padded(n, w)),
        padded(n, w).len() == w,
        w > 0 ==> padded(n, w).last() == digit_char(n % 10),
    decreases w,
{
    if w > 0 {
        lemma_padded_are_digits(n / 10, (w - 1) as nat);
    }
}

proof fn lemma_trimmed_ends(a: nat, s: nat)
    ensures
        trimmed(a, s).1 > 0 ==> trimmed(a, s).0 % 10 != 0,
        trimmed(a, s).1 <= s,
    decreases s,
{
    if s > 0 && a % 10 == 0 {
        lemma_trimmed_ends(a / 10, (s - 1) as nat);
    }
}

/// Every character of a number's text is a digit, `-` or `.`.
pub proof fn lemma_number_text_chars(n: Number)
    ensures
        forall|i: int|
            0 <= i < number_text(n).len() ==> {
                let c = #[trigger] number_text(n)[i];
                ('0' <= c <= '9') || c == '-' || c == '.'
            },
        number_text(n).len() > 0,
{
    let (a, s) = trimmed(magnitude(n.mantissa as int), n.scale as nat);
    lemma_pow10_positive(s);
    lemma_digits_are_digits(a / pow10(s));
    lemma_padded_are_digits(a, s);
}

/// Numbers render canonically: an integer renders as its digits alone, with
/// no fractional part; a text that holds a decimal point never ends in `0`;
/// and a trailing zero added to the mantissa, with one more decimal place,
/// leaves the text as it was (so `20` at scale 1 renders as `2`).
pub proof fn lemma_canonical_number(n: Number)
    ensures
        n.scale == 0 ==> number_text(n) == (if n.mantissa < 0 {
            seq!['-']
        } else {
            seq![]
        }) + digits(magnitude(n.mantissa as int)),
        number_text(n).contains('.') ==> number_text(n).last() != '0',
        n.scale < 255 && i64::MIN <= n.mantissa * 10 <= i64::MAX ==> number_text(n) == number_text(
            Number { mantissa: (n.mantissa * 10) as i64, scale: (n.scale + 1) as u8 },
        ),
{
    let (a, s) = trimmed(magnitude(n.mantissa as int), n.scale as nat);
    lemma_trimmed_ends(magnitude(n.mantissa as int), n.scale as nat);
    lemma_pow10_positive(s);
    lemma_digits_are_digits(a / pow10(s));
    lemma_padded_are_digits(a, s);
    let sign = if n.mantissa < 0 {
        seq!['-']
    } else {
        seq![]
    };
    if n.scale == 0 {
        assert(trimmed(magnitude(n.mantissa as int), 0) == (magnitude(n.mantissa as int), 0nat));
        assert(s == 0 && pow10(0) == 1);
        assert(a / 1 == a);
        assert(number_text(n) =~= sign + digits(a));
    }
    if number_text(n).contains('.') {
        if s == 0 {
            let t = number_text(n);
            assert(t == sign + digits(a / pow10(s)) + Seq::<char>::empty());
            let i = choose|i: int| 0 <= i < t.len() && t[i] == '.';
            if i < sign.len() {
                assert(t[i] == sign[i]);
            } else {
                assert(t[i] == digits(a / pow10(s))[i - sign.len()]);
            }
        } else {
            assert(a % 10 < 10);
        }
    }
    let m10 = n.mantissa * 10;
    if n.scale < 255 && i64::MIN <= m10 <= i64::MAX {
        let b = magnitude(m10);
        assert(b == 10 * magnitude(n.mantissa as int));
        assert(b % 10 == 0 && b / 10 == magnitude(n.mantissa as int));
        assert(trimmed(b, (n.scale + 1) as nat) == trimmed(
            magnitude(n.mantissa as int),
            n.scale as nat,
        ));
    }
}

} // verus!
