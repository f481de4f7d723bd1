//! Building `String`s from verified ASCII byte renderings.

use vstd::prelude::*;

use crate::bytes::{dec, push_decimal};

verus! {

/// The characters of an ASCII byte sequence.
pub open spec fn ascii_chars(s: Seq<u8>) -> Seq<char> {
    s.map_values(|b: u8| b as char)
}

/// Every byte is ASCII.
pub open spec fn all_ascii(s: Seq<u8>) -> bool {
    forall|i: int| 0 <= i < s.len() ==> s[i] < 128
}

/// `std`'s `String::from_utf8`, on ASCII bytes: every ASCII byte sequence
/// is valid UTF-8 and decodes to one character per byte, so the string holds
/// exactly those characters. The error arm is unreachable under the
/// precondition.
#[verifier::external_body]
pub fn string_from_ascii(bytes: Vec<u8>) -> (s: String)
    requires
        all_ascii(bytes@),
    ensures
        s@ == ascii_chars(bytes@),
{
    match String::from_utf8(bytes) {
        Ok(s) => s,
        Err(_) => String::new(),
    }
}

/// Decimal renderings are ASCII.
pub proof fn lemma_dec_ascii(n: nat)
    ensures
        all_ascii(dec(n)),
    decreases n,
{
    if n >= 10 {
        lemma_dec_ascii(n / 10);
    }
}

/// The decimal rendering of `n` as a string.
pub fn decimal_string(n: u64) -> (s: String)
    ensures
        s@ == ascii_chars(dec(n as nat)),
{
    let mut digits: Vec<u8> = Vec::new();
    push_decimal(&mut digits, n);
    proof {
        lemma_dec_ascii(n as nat);
        assert(digits@ =~= dec(n as nat));
    }
    string_from_ascii(digits)
}

/// The em dash shown for an absent value.
pub open spec fn em_dash() -> Seq<char> {
    seq!['\u{2014}']
}

/// A one-character string holding the em dash.
pub fn em_dash_string() -> (s: String)
    ensures
        s@ == em_dash(),
{
    let lit = "\u{2014}";
    proof {
        reveal_strlit("\u{2014}");
    }
    lit.to_owned()
}

} // verus!
