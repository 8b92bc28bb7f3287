//! Amounts of a token, and how they are written.

use crate::numeral::{decimal_digits, push_decimal, push_three_digits, three_digits};
use num_format::{CustomFormat, ToFormattedString};
use vstd::prelude::*;
use vstd::string::StringExecFns;

verus! {

/// An amount of a token, counted in the token's smallest unit.
#[derive(Clone, PartialEq, Eq, PartialOrd, Ord, Hash)]
pub struct Token {
    /// The token's ticker.
    pub name: &'static str,
    /// The number of decimals of the token: one token is `10^decimals` smallest units.
    pub decimals: u8,
    /// The amount, in smallest units.
    pub amount: u128,
}

/// Ten to the power of `n`.
pub open spec fn pow10(n: nat) -> nat
    decreases n,
{
    if n == 0 {
        1
    } else {
        10 * pow10((n - 1) as nat)
    }
}

/// The decimal digits of `n` in groups of three, counted from the right, with `separator`
/// between the groups.
pub open spec fn grouped_digits(n: nat, separator: Seq<char>) -> Seq<char>
    decreases n,
{
    if n < 1000 {
        decimal_digits(n)
    } else {
        grouped_digits(n / 1000, separator) + separator + three_digits(n % 1000)
    }
}

/// The whole tokens in an amount.
pub open spec fn integer_part(decimals: u8, amount: u128) -> nat {
    amount as nat / pow10(decimals as nat)
}

/// The first three decimal digits of the fraction of a token in an amount.
pub open spec fn fraction_part(decimals: u8, amount: u128) -> nat {
    (amount as nat % pow10(decimals as nat)) / (pow10(decimals as nat) / 1000)
}

/// The separator between groups of three digits.
pub open spec fn group_separator() -> Seq<char> {
    seq!['_']
}

/// How an amount is shown: the whole tokens with their digits in groups, a comma, three
/// digits of the fraction, a blank and the ticker.
pub open spec fn display_form(name: Seq<char>, decimals: u8, amount: u128) -> Seq<char> {
    grouped_digits(integer_part(decimals, amount), group_separator()) + seq![','] + three_digits(
        fraction_part(decimals, amount),
    ) + seq![' '] + name
}

/// How an amount is shown for inspection: the whole tokens without grouping, a comma, three
/// digits of the fraction, a blank, the ticker and, in brackets, the amount in smallest units
/// with its digits in groups.
pub open spec fn debug_form(name: Seq<char>, decimals: u8, amount: u128) -> Seq<char> {
    decimal_digits(integer_part(decimals, amount)) + seq![','] + three_digits(
        fraction_part(decimals, amount),
    ) + seq![' '] + name + seq![' ', '('] + grouped_digits(amount as nat, group_separator())
        + seq![')']
}

/// `ToFormattedString::to_formatted_string` of the crate num-format on a `u128`, under the
/// format that `CustomFormat::builder()` builds with the given decimal mark and separator
/// and its standard grouping: the decimal digits of the number in groups of three, counted
/// from the right, with the separator between the groups. The decimal mark plays no part
/// in writing an integer. Both marks are one ASCII character here; the builder refuses
/// marks of more than eight bytes.
#[verifier::external_body]
fn format_grouped(n: u128, decimal: &str, separator: &str) -> (s: String)
    requires
        decimal@.len() == 1,
        decimal.is_ascii(),
        separator@.len() == 1,
        separator.is_ascii(),
    ensures
        s@ == grouped_digits(n as nat, separator@),
{
    let format = CustomFormat::builder().decimal(decimal).separator(separator).build().unwrap();
    n.to_formatted_string(&format)
}

/// The powers of ten grow with the exponent.
pub proof fn lemma_pow10_grows(m: nat, n: nat)
    requires
        m <= n,
    ensures
        pow10(m) <= pow10(n),
        pow10(m) >= 1,
    decreases n,
{
    if m < n {
        lemma_pow10_grows(m, (n - 1) as nat);
    } else if m > 0 {
        lemma_pow10_grows((m - 1) as nat, (n - 1) as nat);
    }
}

/// The largest power of ten that a `u128` holds.
pub proof fn lemma_pow10_38()
    ensures
        pow10(38) == 100_000_000_000_000_000_000_000_000_000_000_000_000,
        pow10(3) == 1000,
{
    reveal_with_fuel(pow10, 40);
}

/// A power of ten from the third on is a thousand times the power three below.
pub proof fn lemma_pow10_thousand(n: nat)
    requires
        n >= 3,
    ensures
        pow10(n) == 1000 * pow10((n - 3) as nat),
{
    reveal_with_fuel(pow10, 4);
}

/// Computes ten to the power of `n`.
pub fn power_of_ten(n: u8) -> (r: u128)
    requires
        n <= 38,
    ensures
        r == pow10(n as nat),
{
    let mut r: u128 = 1;
    let mut i: u8 = 0;
    while i < n
        invariant
            i <= n <= 38,
            r == pow10(i as nat),
        decreases n - i,
    {
        proof {
            lemma_pow10_grows((i + 1) as nat, 38);
            lemma_pow10_38();
        }
        r = r * 10;
        i = i + 1;
    }
    r
}

impl Token {
    /// The amount can be written: the token has at least the three decimals that are shown,
    /// and no more than the 38 whose power of ten a `u128` holds.
    pub open spec fn writable(&self) -> bool {
        3 <= self.decimals <= 38
    }

    /// Whether the amount can be written.
    pub fn is_writable(&self) -> (r: bool)
        ensures
            r == self.writable(),
    {
        3 <= self.decimals && self.decimals <= 38
    }

    /// The whole tokens and the first three digits of the fraction.
    fn parts(&self) -> (r: (u128, u128))
        requires
            self.writable(),
        ensures
            r.0 == integer_part(self.decimals, self.amount),
            r.1 == fraction_part(self.decimals, self.amount),
            r.1 < 1000,
    {
        let multiplier = power_of_ten(self.decimals);
        proof {
            lemma_pow10_thousand(self.decimals as nat);
            lemma_pow10_grows(0, (self.decimals - 3) as nat);
        }
        let unit = multiplier / 1000;
        let rest = self.amount % multiplier;
        let fraction = rest / unit;
        assert(fraction < 1000) by (nonlinear_arith)
            requires
                rest < multiplier,
                multiplier == 1000 * unit,
                unit >= 1,
                fraction == rest / unit,
        ;
        (self.amount / multiplier, fraction)
    }

    /// Writes the amount for a reader: `1_000,000 DOT`.
    pub fn to_string(&self) -> (s: String)
        requires
            self.writable(),
        ensures
            s@ == display_form(self.name@, self.decimals, self.amount),
    {
        let (integer, fraction) = self.parts();
        proof {
            reveal_strlit(",");
            reveal_strlit("_");
            reveal_strlit(" ");
            assert(","@ =~= seq![',']);
            assert("_"@ =~= group_separator());
            assert(" "@ =~= seq![' ']);
        }
        let mut s = format_grouped(integer, ",", "_");
        s.append(",");
        push_three_digits(&mut s, fraction);
        s.append(" ");
        s.append(self.name);
        assert(s@ =~= display_form(self.name@, self.decimals, self.amount));
        s
    }

    /// Writes the amount for inspection: `1000,000 DOT (10_000_000_000_000)`.
    pub fn to_debug_string(&self) -> (s: String)
        requires
            self.writable(),
        ensures
            s@ == debug_form(self.name@, self.decimals, self.amount),
    {
        let (integer, fraction) = self.parts();
        proof {
            reveal_strlit(",");
            reveal_strlit("_");
            reveal_strlit(" ");
            reveal_strlit(" (");
            reveal_strlit(")");
            assert(","@ =~= seq![',']);
            assert("_"@ =~= group_separator());
            assert(" "@ =~= seq![' ']);
            assert(" ("@ =~= seq![' ', '(']);
            assert(")"@ =~= seq![')']);
        }
        let mut s = String::new();
        push_decimal(&mut s, integer);
        s.append(",");
        push_three_digits(&mut s, fraction);
        s.append(" ");
        s.append(self.name);
        s.append(" (");
        let grouped = format_grouped(self.amount, ",", "_");
        s.append(grouped.as_str());
        s.append(")");
        assert(s@ =~= debug_form(self.name@, self.decimals, self.amount));
        s
    }
}

} // verus!
