use vstd::prelude::*;

verus! {

/// The lowercase hexadecimal digit for a value below sixteen.
pub open spec fn hex_digit(d: u128) -> char {
    if d < 10 {
        ((d + 48) as u8) as char
    } else {
        ((d + 87) as u8) as char
    }
}

/// The last `n` hexadecimal digits of `v`, most significant first.
pub open spec fn hex_digits(v: u128, n: nat) -> Seq<char>
    decreases n,
{
    if n == 0 {
        Seq::empty()
    } else {
        hex_digits(v / 16, (n - 1) as nat).push(hex_digit(v % 16))
    }
}

/// The hyphenated text of an identifier: 32 lowercase digits in groups of
/// 8, 4, 4, 4 and 12, joined by hyphens.
pub open spec fn hyphenated(v: u128) -> Seq<char> {
    let h = hex_digits(v, 32);
    h.subrange(0, 8) + seq!['-'] + h.subrange(8, 12) + seq!['-'] + h.subrange(12, 16) + seq!['-']
        + h.subrange(16, 20) + seq!['-'] + h.subrange(20, 32)
}

/// The identifier that a text denotes, if it is one.
pub uninterp spec fn identifier_of(s: Seq<char>) -> Option<u128>;

/// Relies on `uuid::Uuid::parse_str`: it accepts the simple, hyphenated,
/// braced and URN forms, each of which it also produces, so the hyphenated
/// text of a value parses back to that value.
#[verifier::external_body]
pub(crate) fn parse_identifier(s: &str) -> (r: Option<u128>)
    ensures
        r == identifier_of(s@),
        forall|v: u128| s@ == hyphenated(v) ==> r == Some(v),
{
    uuid::Uuid::parse_str(s).ok().map(|u| u.as_u128())
}

/// Relies on `uuid::Uuid::from_u128` (big-endian) and its `Display`, which
/// writes the lowercase hyphenated form.
#[verifier::external_body]
pub(crate) fn identifier_text(v: u128) -> (r: String)
    ensures
        r@ == hyphenated(v),
{
    uuid::Uuid::from_u128(v).to_string()
}

} // verus!
