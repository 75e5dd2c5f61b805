//! Text that the gateway and the settings need: decimal numbers, dotted
//! addresses, lower-case names.

use vstd::prelude::*;
use vstd::string::StringExecFns;

verus! {

/// `text` with every character in lower case, as `str::to_lowercase` of the
/// standard library gives it.
pub uninterp spec fn lowercase(text: Seq<char>) -> Seq<char>;

/// Calls `str::to_lowercase`.
///
/// Trusted: the result depends on the text alone.
#[verifier::external_body]
pub(crate) fn to_lowercase(text: &str) -> (lowered: String)
    ensures
        lowered@ == lowercase(text@),
{
    text.to_lowercase()
}

/// The character of the decimal digit `d`.
pub open spec fn digit(d: nat) -> char {
    ('0' as nat + d) as char
}

/// `n` in decimal, without leading zeros.
pub open spec fn decimal(n: nat) -> Seq<char>
    decreases n,
{
    if n < 10 {
        seq![digit(n)]
    } else {
        decimal(n / 10).push(digit(n % 10))
    }
}

/// `n` in decimal, with a minus sign in front where it is negative.
pub open spec fn signed_decimal(n: int) -> Seq<char> {
    if n < 0 {
        seq!['-'] + decimal((-n) as nat)
    } else {
        decimal(n as nat)
    }
}

/// The address `a` in dotted decimal notation.
pub open spec fn dotted_quad(a: Seq<u8>) -> Seq<char> {
    decimal(a[0] as nat) + seq!['.'] + decimal(a[1] as nat) + seq!['.'] + decimal(a[2] as nat)
        + seq!['.'] + decimal(a[3] as nat)
}

/// Formats `n` with the `Display` of the standard library.
///
/// Trusted: the result is `n` in decimal, with a minus sign in front of a
/// negative number and without leading zeros.
#[verifier::external_body]
pub(crate) fn format_integer(n: i64) -> (text: String)
    ensures
        text@ == signed_decimal(n as int),
{
    format!("{}", n)
}

/// The address `a` in dotted decimal notation.
pub fn format_address(a: [u8; 4]) -> (text: String)
    ensures
        text@ == dotted_quad(a@),
{
    proof {
        reveal_strlit(".");
    }
    let mut text: String = format_integer(a[0] as i64);
    text.append(".");
    text.append(format_integer(a[1] as i64).as_str());
    text.append(".");
    text.append(format_integer(a[2] as i64).as_str());
    text.append(".");
    text.append(format_integer(a[3] as i64).as_str());
    proof {
        assert(text@ =~= dotted_quad(a@));
    }
    text
}

} // verus!
