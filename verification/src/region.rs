//! Exit countries: the offered list and the normalisation of a requested one.

use vstd::prelude::*;
use crate::text::{
    ascii_upper, chars_of, is_ascii_letter, string_of, to_ascii_upper, trim, trim_chars,
};

verus! {

/// The exit countries offered before the engine has listed its own. Taken
/// from the Android build so both platforms show the same starting set.
pub const REGIONS: [&'static str; 29] = [
    "AT", "BE", "BG", "CA", "CH", "CZ", "DE", "DK", "EE", "ES", "FI", "FR", "GB", "HU", "IE",
    "IN", "IT", "JP", "LV", "NL", "NO", "PL", "RO", "RS", "SE", "SG", "SK", "UA", "US",
];

/// Two upper-case letters, or empty for anything that is not a country code:
/// white space around the code is ignored, and what remains must be exactly
/// two ASCII letters.
pub open spec fn normalised_region(code: Seq<char>) -> Seq<char> {
    let t = trim(code);
    if t.len() == 2 && is_ascii_letter(t[0]) && is_ascii_letter(t[1]) {
        seq![ascii_upper(t[0]), ascii_upper(t[1])]
    } else {
        seq![]
    }
}

/// Whether a text is a clean country code: two upper-case ASCII letters.
pub open spec fn is_country_code(s: Seq<char>) -> bool {
    s.len() == 2 && 'A' <= s[0] && s[0] <= 'Z' && 'A' <= s[1] && s[1] <= 'Z'
}

/// Two upper-case letters, or empty for anything that is not a country code.
/// Everything else is dropped rather than passed on, because a malformed value
/// would be written straight into the engine's config.
pub fn normalise_region(code: &str) -> (r: String)
    ensures
        r@ == normalised_region(code@),
{
    let t = trim_chars(&chars_of(code));
    if t.len() == 2 && is_letter(t[0]) && is_letter(t[1]) {
        let v: Vec<char> = vec![to_ascii_upper(t[0]), to_ascii_upper(t[1])];
        assert(v@ =~= seq![ascii_upper(t@[0]), ascii_upper(t@[1])]);
        string_of(&v)
    } else {
        let v: Vec<char> = Vec::new();
        assert(v@ =~= Seq::<char>::empty());
        string_of(&v)
    }
}

fn is_letter(c: char) -> (r: bool)
    ensures
        r == is_ascii_letter(c),
{
    ('A' <= c && c <= 'Z') || ('a' <= c && c <= 'z')
}

/// A normalised region is either empty (automatic) or a clean country code,
/// and normalising it again changes nothing.
pub proof fn lemma_normalised_region_is_clean(code: Seq<char>)
    ensures
        normalised_region(code).len() == 0 || is_country_code(normalised_region(code)),
        normalised_region(normalised_region(code)) == normalised_region(code),
{
    let n = normalised_region(code);
    if n.len() == 2 {
        assert(trim(n) == n) by {
            reveal_with_fuel(crate::text::trim_start, 2);
            reveal_with_fuel(crate::text::trim_end, 2);
        }
        assert(seq![ascii_upper(n[0]), ascii_upper(n[1])] =~= n);
    } else {
        assert(n =~= Seq::<char>::empty());
        assert(trim(n) =~= Seq::<char>::empty());
    }
}

} // verus!
