//! Variant identifiers: how one is derived from a network name, and when a string is one.

use crate::numeral::is_digit;
use crate::text::code;
use unicode_xid::UnicodeXID;
use vstd::prelude::*;
use vstd::string::StringExecFns;

verus! {

/// What `inflector::cases::pascalcase::to_pascal_case` makes of a string.
pub uninterp spec fn pascal_case(s: Seq<char>) -> Seq<char>;

/// Whether a character has the Unicode property XID_Start, as `UnicodeXID::is_xid_start` tells.
pub uninterp spec fn xid_start(c: char) -> bool;

/// Whether a character has the Unicode property XID_Continue, as `UnicodeXID::is_xid_continue`
/// tells.
pub uninterp spec fn xid_continue(c: char) -> bool;

/// A letter of the basic Latin alphabet.
pub open spec fn is_ascii_letter(c: char) -> bool {
    'a' <= c <= 'z' || 'A' <= c <= 'Z'
}

/// The suffix that every variant identifier ends with.
pub open spec fn account_suffix() -> Seq<char> {
    seq!['A', 'c', 'c', 'o', 'u', 'n', 't']
}

/// The variant identifier of a network: its name in pascal case, then `Account`.
pub open spec fn identifier_of(network: Seq<char>) -> Seq<char> {
    pascal_case(network) + account_suffix()
}

/// Every character after the first, up to position `k`, may continue an identifier.
pub open spec fn continues_before(s: Seq<char>, k: int) -> bool {
    forall|i: int| 1 <= i < k ==> xid_continue(#[trigger] s[i])
}

/// `s` is a program identifier: it starts with an XID_Start character and goes on with
/// XID_Continue characters.
pub open spec fn is_identifier(s: Seq<char>) -> bool {
    &&& s.len() > 0
    &&& xid_start(s[0])
    &&& continues_before(s, s.len() as int)
}

/// Why a string is no program identifier.
#[derive(Clone, Copy, Debug, PartialEq, Eq, Structural)]
pub enum IdentifierError {
    /// The string is empty.
    Empty,
    /// The first character may not start an identifier.
    InvalidStart { found: char },
    /// A later character, the first such, may not continue an identifier.
    InvalidChar { found: char },
}

/// What checking `s` gives: success for an identifier, else the first reason why it is none.
pub open spec fn identifier_check(s: Seq<char>, r: Result<(), IdentifierError>) -> bool {
    match r {
        Ok(_) => is_identifier(s),
        Err(IdentifierError::Empty) => s.len() == 0,
        Err(IdentifierError::InvalidStart { found }) => s.len() > 0 && found == s[0] && !xid_start(
            found,
        ),
        Err(IdentifierError::InvalidChar { found }) => s.len() > 0 && xid_start(s[0]) && exists|
            k: int,
        |
            1 <= k < s.len() && continues_before(s, k) && found == s[k] && !xid_continue(found),
    }
}

/// A string has one answer to the check.
pub proof fn lemma_identifier_check_decides(
    s: Seq<char>,
    a: Result<(), IdentifierError>,
    b: Result<(), IdentifierError>,
)
    requires
        identifier_check(s, a),
        identifier_check(s, b),
    ensures
        a == b,
{
    match (a, b) {
        (Ok(u), Ok(v)) => {
            assert(u == () && v == ());
        },
        (Err(IdentifierError::Empty), Err(IdentifierError::Empty)) => {},
        (
            Err(IdentifierError::InvalidStart { .. }),
            Err(IdentifierError::InvalidStart { .. }),
        ) => {},
        (
            Err(IdentifierError::InvalidChar { found }),
            Err(IdentifierError::InvalidChar { found: other }),
        ) => {
            let k = choose|k: int|
                1 <= k < s.len() && continues_before(s, k) && found == s[k] && !xid_continue(found);
            let m = choose|m: int|
                1 <= m < s.len() && continues_before(s, m) && other == s[m] && !xid_continue(other);
            assert(k == m);
        },
        (Err(IdentifierError::InvalidChar { found }), _) => {
            let k = choose|k: int|
                1 <= k < s.len() && continues_before(s, k) && found == s[k] && !xid_continue(found);
            assert(!continues_before(s, s.len() as int));
        },
        (_, Err(IdentifierError::InvalidChar { found })) => {
            let k = choose|k: int|
                1 <= k < s.len() && continues_before(s, k) && found == s[k] && !xid_continue(found);
            assert(!continues_before(s, s.len() as int));
        },
        _ => {},
    }
}

/// `inflector::cases::pascalcase::to_pascal_case`: splits at characters that are neither
/// letters nor digits and at case boundaries, and joins the segments, each with its first
/// letter in upper case. The result is a function of the argument alone.
#[verifier::external_body]
fn to_pascal_case(s: &str) -> (r: String)
    ensures
        r@ == pascal_case(s@),
{
    inflector::cases::pascalcase::to_pascal_case(s)
}

/// `UnicodeXID::is_xid_start` on a character. Up to U+007F it holds of the letters `a` to `z`
/// and `A` to `Z` and of nothing else; above, a table of the Unicode standard decides.
#[verifier::external_body]
fn is_xid_start(c: char) -> (r: bool)
    ensures
        r == xid_start(c),
        code(c) <= 0x7f ==> r == is_ascii_letter(c),
{
    UnicodeXID::is_xid_start(c)
}

/// `UnicodeXID::is_xid_continue` on a character. Up to U+007F it holds of the letters `a` to
/// `z` and `A` to `Z`, the digits and the underscore, and of nothing else; above, a table of
/// the Unicode standard decides.
#[verifier::external_body]
fn is_xid_continue(c: char) -> (r: bool)
    ensures
        r == xid_continue(c),
        code(c) <= 0x7f ==> r == (is_ascii_letter(c) || is_digit(c) || c == '_'),
{
    UnicodeXID::is_xid_continue(c)
}

/// The identifier made of a pascal-cased stem: the stem, then `Account`.
pub fn account_identifier(stem: &str) -> (r: String)
    ensures
        r@ == stem@ + account_suffix(),
{
    let mut r = String::from_str(stem);
    r.append("Account");
    proof {
        reveal_strlit("Account");
        assert("Account"@ =~= account_suffix());
    }
    r
}

/// Derives the variant identifier of a network.
pub fn derive_identifier(network: &str) -> (r: String)
    ensures
        r@ == identifier_of(network@),
{
    let stem = to_pascal_case(network);
    account_identifier(stem.as_str())
}

/// Derives the variant identifier of a token from its ticker: the ticker in pascal case.
pub fn derive_token_identifier(symbol: &str) -> (r: String)
    ensures
        r@ == pascal_case(symbol@),
{
    to_pascal_case(symbol)
}

/// Checks that `id` is a program identifier, and says why where it is none.
pub fn check_identifier(id: &str) -> (r: Result<(), IdentifierError>)
    ensures
        identifier_check(id@, r),
{
    let mut first: bool = true;
    for c in it: id.chars()
        invariant
            it.seq() == id@,
            first == (it.index() == 0),
            it.index() > 0 ==> xid_start(id@[0]),
            continues_before(id@, it.index() as int),
    {
        if first {
            if !is_xid_start(c) {
                return Err(IdentifierError::InvalidStart { found: c });
            }
            first = false;
        } else if !is_xid_continue(c) {
            return Err(IdentifierError::InvalidChar { found: c });
        }
    }
    if first {
        Err(IdentifierError::Empty)
    } else {
        Ok(())
    }
}

} // verus!
