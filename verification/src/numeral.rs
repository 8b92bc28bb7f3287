//! Decimal numerals: writing unsigned integers as digits and reading them back.

use vstd::prelude::*;
use vstd::string::StringExecFns;

verus! {

/// The character that writes the digit `d`.
pub open spec fn digit(d: int) -> char {
    if d == 0 {
        '0'
    } else if d == 1 {
        '1'
    } else if d == 2 {
        '2'
    } else if d == 3 {
        '3'
    } else if d == 4 {
        '4'
    } else if d == 5 {
        '5'
    } else if d == 6 {
        '6'
    } else if d == 7 {
        '7'
    } else if d == 8 {
        '8'
    } else {
        '9'
    }
}

/// `c` is one of the ten decimal digits.
pub open spec fn is_digit(c: char) -> bool {
    '0' <= c <= '9'
}

/// The number that the digit `c` stands for.
pub open spec fn digit_value(c: char) -> nat {
    (c as u32 - '0' as u32) as nat
}

/// The shortest decimal numeral of `n`.
pub open spec fn decimal_digits(n: nat) -> Seq<char>
    decreases n,
{
    if n < 10 {
        seq![digit(n as int)]
    } else {
        decimal_digits(n / 10).push(digit((n % 10) as int))
    }
}

/// The last three decimal digits of `n`, with leading zeros.
pub open spec fn three_digits(n: nat) -> Seq<char> {
    seq![digit((n / 100 % 10) as int), digit((n / 10 % 10) as int), digit((n % 10) as int)]
}

/// `s` is a decimal numeral: at least one character, and digits only.
pub open spec fn is_numeral(s: Seq<char>) -> bool {
    &&& s.len() > 0
    &&& forall|i: int| 0 <= i < s.len() ==> is_digit(#[trigger] s[i])
}

/// The number that a sequence of digits writes, leading zeros allowed.
pub open spec fn numeral_value(s: Seq<char>) -> nat
    decreases s.len(),
{
    if s.len() == 0 {
        0
    } else {
        numeral_value(s.drop_last()) * 10 + digit_value(s.last())
    }
}

/// What reading `s` as a 16-bit unsigned decimal numeral gives: no sign, no blank, and no value
/// above 65535.
pub open spec fn parsed_u16(s: Seq<char>) -> Option<u16> {
    if is_numeral(s) && numeral_value(s) <= 65535 {
        Some(numeral_value(s) as u16)
    } else {
        None
    }
}

/// The one-character string of a digit.
fn digit_text(d: u8) -> (r: &'static str)
    requires
        d < 10,
    ensures
        r@ == seq![digit(d as int)],
{
    proof {
        reveal_strlit("0");
        reveal_strlit("1");
        reveal_strlit("2");
        reveal_strlit("3");
        reveal_strlit("4");
        reveal_strlit("5");
        reveal_strlit("6");
        reveal_strlit("7");
        reveal_strlit("8");
        reveal_strlit("9");
    }
    let r = if d == 0 {
        "0"
    } else if d == 1 {
        "1"
    } else if d == 2 {
        "2"
    } else if d == 3 {
        "3"
    } else if d == 4 {
        "4"
    } else if d == 5 {
        "5"
    } else if d == 6 {
        "6"
    } else if d == 7 {
        "7"
    } else if d == 8 {
        "8"
    } else {
        "9"
    };
    assert(r@ =~= seq![digit(d as int)]);
    r
}

/// Appends the shortest decimal numeral of `n` to `out`.
pub fn push_decimal(out: &mut String, n: u128)
    ensures
        final(out)@ == old(out)@ + decimal_digits(n as nat),
    decreases n,
{
    if n >= 10 {
        push_decimal(out, n / 10);
    }
    let d: u8 = (n % 10) as u8;
    out.append(digit_text(d));
    assert(final(out)@ =~= old(out)@ + decimal_digits(n as nat));
}

/// The shortest decimal numeral of `n`.
pub fn decimal_string(n: u128) -> (s: String)
    ensures
        s@ == decimal_digits(n as nat),
{
    let mut s = String::new();
    push_decimal(&mut s, n);
    assert(s@ =~= decimal_digits(n as nat));
    s
}

/// Appends the three digits of `n`, which is below 1000, to `out`.
pub fn push_three_digits(out: &mut String, n: u128)
    requires
        n < 1000,
    ensures
        final(out)@ == old(out)@ + three_digits(n as nat),
{
    let hundreds: u8 = (n / 100) as u8;
    let tens: u8 = (n / 10 % 10) as u8;
    let units: u8 = (n % 10) as u8;
    out.append(digit_text(hundreds));
    out.append(digit_text(tens));
    out.append(digit_text(units));
    assert(final(out)@ =~= old(out)@ + three_digits(n as nat));
}

/// A numeral's value does not shrink when digits are appended.
pub proof fn lemma_numeral_value_grows(s: Seq<char>, k: int)
    requires
        0 <= k <= s.len(),
    ensures
        numeral_value(s.take(k)) <= numeral_value(s),
    decreases s.len() - k,
{
    if k == s.len() {
        assert(s.take(k) =~= s);
    } else {
        assert(s.take(k + 1).drop_last() =~= s.take(k));
        lemma_numeral_value_grows(s, k + 1);
    }
}

/// The shortest numeral of a number is a numeral, and its value is the number.
pub proof fn lemma_digits_read_back(n: nat)
    ensures
        is_numeral(decimal_digits(n)),
        numeral_value(decimal_digits(n)) == n,
    decreases n,
{
    let s = decimal_digits(n);
    if n < 10 {
        assert(s.drop_last() =~= Seq::<char>::empty());
        assert(numeral_value(s.drop_last()) == 0);
    } else {
        lemma_digits_read_back(n / 10);
        assert(s.drop_last() =~= decimal_digits(n / 10));
        assert(s.last() == digit((n % 10) as int));
    }
}

/// A 16-bit number is read back from its shortest numeral.
pub proof fn lemma_u16_read_back(u: u16)
    ensures
        parsed_u16(decimal_digits(u as nat)) == Some(u),
{
    lemma_digits_read_back(u as nat);
}

/// Reads a 16-bit unsigned decimal numeral.
pub fn parse_u16(s: &str) -> (r: Option<u16>)
    ensures
        r == parsed_u16(s@),
{
    let mut value: u32 = 0;
    let mut seen: bool = false;
    for c in it: s.chars()
        invariant
            it.seq() == s@,
            seen == (it.index() > 0),
            value == numeral_value(s@.take(it.index() as int)),
            value <= 65535,
            forall|i: int| 0 <= i < it.index() ==> is_digit(#[trigger] s@[i]),
    {
        let ghost k = it.index() as int;
        let u: u32 = c as u32;
        if u < 48 || u > 57 {
            assert(!is_digit(s@[k]));
            return None;
        }
        proof {
            assert(s@.take(k + 1).drop_last() =~= s@.take(k));
            assert(is_digit(s@[k])) by {
                vstd::utf8::char_u32_cast(c, u);
            }
        }
        value = value * 10 + (u - 48);
        seen = true;
        if value > 65535 {
            proof {
                lemma_numeral_value_grows(s@, k + 1);
            }
            return None;
        }
    }
    proof {
        assert(s@.take(s@.len() as int) =~= s@);
    }
    if seen {
        Some(value as u16)
    } else {
        None
    }
}

} // verus!
