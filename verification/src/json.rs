//! Writing a value as a JSON string literal, and reading a flat string field
//! back out of a small JSON reply.

use vstd::prelude::*;
use crate::text::{
    occurs_at, chars_from, chars_before, chars_of, find, find_chars, push_char, string_of, trim_start,
    trim_start_chars,
};

verus! {

/// The lower-case hexadecimal digit for a value below sixteen.
pub open spec fn hex_digit(d: nat) -> char {
    if d < 10 {
        ((d + 48) as u32) as char
    } else {
        ((d + 87) as u32) as char
    }
}

/// How one character of a value is written inside a JSON string literal:
/// quote and backslash are escaped, newline, carriage return and tab get
/// their short escapes, the other control characters a `\u00XX` escape,
/// and everything else is written as it is.
pub open spec fn escape_char(c: char) -> Seq<char> {
    if c == '"' {
        seq!['\\', '"']
    } else if c == '\\' {
        seq!['\\', '\\']
    } else if c == '\n' {
        seq!['\\', 'n']
    } else if c == '\r' {
        seq!['\\', 'r']
    } else if c == '\t' {
        seq!['\\', 't']
    } else if (c as u32) < 0x20 {
        seq!['\\', 'u', '0', '0', hex_digit((c as u32 / 16) as nat), hex_digit((c as u32 % 16) as nat)]
    } else {
        seq![c]
    }
}

/// The escaped form of a whole value, character by character.
pub open spec fn escape(s: Seq<char>) -> Seq<char>
    decreases s.len(),
{
    if s.len() == 0 {
        seq![]
    } else {
        escape_char(s[0]) + escape(s.drop_first())
    }
}

/// The JSON string literal for a value.
pub open spec fn json_quoted(s: Seq<char>) -> Seq<char> {
    seq!['"'] + escape(s) + seq!['"']
}

pub proof fn lemma_escape_append(a: Seq<char>, b: Seq<char>)
    ensures
        escape(a + b) == escape(a) + escape(b),
    decreases a.len(),
{
    if a.len() == 0 {
        assert(a + b =~= b);
        assert(escape(a) =~= seq![]);
        assert(escape(a) + escape(b) =~= escape(b));
    } else {
        assert((a + b).drop_first() =~= a.drop_first() + b);
        lemma_escape_append(a.drop_first(), b);
        assert(escape(a + b) =~= escape(a) + escape(b));
    }
}

fn push_str_chars(out: &mut String, piece: &[char])
    ensures
        final(out)@ == old(out)@ + piece@,
{
    let mut i: usize = 0;
    while i < piece.len()
        invariant
            i <= piece.len(),
            out@ == old(out)@ + piece@.take(i as int),
        decreases piece.len() - i,
    {
        push_char(out, piece[i]);
        i = i + 1;
        assert(out@ =~= old(out)@ + piece@.take(i as int));
    }
    assert(piece@.take(piece.len() as int) =~= piece@);
}

fn hex_digit_of(d: u32) -> (r: char)
    requires
        d < 16,
    ensures
        r == hex_digit(d as nat),
{
    if d < 10 {
        ((d as u8) + 48) as char
    } else {
        ((d as u8) + 87) as char
    }
}

fn push_escaped(out: &mut String, c: char)
    ensures
        final(out)@ == old(out)@ + escape_char(c),
{
    if c == '"' {
        push_str_chars(out, &['\\', '"']);
    } else if c == '\\' {
        push_str_chars(out, &['\\', '\\']);
    } else if c == '\n' {
        push_str_chars(out, &['\\', 'n']);
    } else if c == '\r' {
        push_str_chars(out, &['\\', 'r']);
    } else if c == '\t' {
        push_str_chars(out, &['\\', 't']);
    } else if (c as u32) < 0x20 {
        let v: u32 = c as u32;
        let hi = hex_digit_of(v / 16);
        let lo = hex_digit_of(v % 16);
        push_str_chars(out, &['\\', 'u', '0', '0', hi, lo]);
    } else {
        push_char(out, c);
    }
    assert(final(out)@ =~= old(out)@ + escape_char(c));
}

/// Escapes a value into a JSON string literal. Windows paths carry
/// backslashes, which would otherwise produce a file the engine refuses to
/// parse.
pub fn json_string(value: &str) -> (r: String)
    ensures
        r@ == json_quoted(value@),
{
    let v = chars_of(value);
    let mut out = String::new();
    push_char(&mut out, '"');
    let mut i: usize = 0;
    while i < v.len()
        invariant
            i <= v.len(),
            out@ == seq!['"'] + escape(v@.take(i as int)),
        decreases v.len() - i,
    {
        push_escaped(&mut out, v[i]);
        proof {
            let t = v@.take(i as int);
            assert(v@.take(i + 1) =~= t + seq![v@[i as int]]);
            lemma_escape_append(t, seq![v@[i as int]]);
            assert(escape(seq![v@[i as int]]) =~= escape_char(v@[i as int])) by {
                assert(seq![v@[i as int]].drop_first() =~= Seq::<char>::empty());
                assert(escape(Seq::<char>::empty()) =~= Seq::<char>::empty());
            }
            assert(out@ =~= seq!['"'] + escape(v@.take(i + 1)));
        }
        i = i + 1;
    }
    push_char(&mut out, '"');
    assert(v@.take(v.len() as int) =~= value@);
    assert(out@ =~= json_quoted(value@));
    out
}


/// The value of one hexadecimal digit, either case.
pub open spec fn hex_value(c: char) -> Option<nat> {
    if '0' <= c && c <= '9' {
        Some((c as u32 - 48) as nat)
    } else if 'a' <= c && c <= 'f' {
        Some((c as u32 - 87) as nat)
    } else if 'A' <= c && c <= 'F' {
        Some((c as u32 - 55) as nat)
    } else {
        None
    }
}

/// The character that a one-letter JSON escape stands for.
pub open spec fn short_escape(e: char) -> Option<char> {
    if e == '"' {
        Some('"')
    } else if e == '\\' {
        Some('\\')
    } else if e == '/' {
        Some('/')
    } else if e == 'b' {
        Some('\u{8}')
    } else if e == 'f' {
        Some('\u{c}')
    } else if e == 'n' {
        Some('\n')
    } else if e == 'r' {
        Some('\r')
    } else if e == 't' {
        Some('\t')
    } else {
        None
    }
}

/// The code point written by a `\uXXXX` escape that starts the text, if it
/// does start with one naming a character outside the surrogate range.
pub open spec fn unicode_escape(s: Seq<char>) -> Option<char> {
    if s.len() >= 6 && s[0] == '\\' && s[1] == 'u' && hex_value(s[2]) is Some && hex_value(
        s[3],
    ) is Some && hex_value(s[4]) is Some && hex_value(s[5]) is Some {
        let v = hex_value(s[2])->0 * 4096 + hex_value(s[3])->0 * 256 + hex_value(s[4])->0 * 16
            + hex_value(s[5])->0;
        if v < 0xd800 || v > 0xdfff {
            Some((v as u32) as char)
        } else {
            None
        }
    } else {
        None
    }
}

pub open spec fn prepend(c: char, rest: Option<Seq<char>>) -> Option<Seq<char>> {
    match rest {
        Some(t) => Some(seq![c] + t),
        None => None,
    }
}

/// How a JSON reader decodes the inside of a string literal: escapes are
/// replaced by what they stand for, and an unescaped quote, a raw control
/// character or a malformed escape makes the text no string literal at all.
pub open spec fn unescape(s: Seq<char>) -> Option<Seq<char>>
    decreases s.len(),
{
    if s.len() == 0 {
        Some(seq![])
    } else if s[0] == '\\' {
        if s.len() >= 2 && short_escape(s[1]) is Some {
            prepend(short_escape(s[1])->0, unescape(s.skip(2)))
        } else if unicode_escape(s) is Some {
            prepend(unicode_escape(s)->0, unescape(s.skip(6)))
        } else {
            None
        }
    } else if s[0] == '"' || (s[0] as u32) < 0x20 {
        None
    } else {
        prepend(s[0], unescape(s.drop_first()))
    }
}

proof fn lemma_hex_roundtrip(d: nat)
    requires
        d < 16,
    ensures
        hex_value(hex_digit(d)) == Some(d),
{
}

proof fn lemma_control_escape(c: char, e: Seq<char>)
    requires
        (c as u32) < 0x20,
        c != '\n' && c != '\r' && c != '\t',
        e.len() >= 6,
        e.take(6) == escape_char(c),
    ensures
        e[0] == '\\',
        short_escape(e[1]) is None,
        unicode_escape(e) == Some(c),
{
    let v: u32 = c as u32;
    lemma_hex_roundtrip((v / 16) as nat);
    lemma_hex_roundtrip((v % 16) as nat);
    assert(e[0] == e.take(6)[0]);
    assert(e[1] == e.take(6)[1]);
    assert(e[2] == e.take(6)[2]);
    assert(e[3] == e.take(6)[3]);
    assert(e[4] == e.take(6)[4]);
    assert(e[5] == e.take(6)[5]);
    assert(hex_value(e[2]) == Some(0nat));
    assert(hex_value(e[3]) == Some(0nat));
    assert(hex_value(e[4]) == Some((v / 16) as nat));
    assert(hex_value(e[5]) == Some((v % 16) as nat));
    let w: nat = hex_value(e[2])->0 * 4096 + hex_value(e[3])->0 * 256 + hex_value(e[4])->0 * 16
        + hex_value(e[5])->0;
    assert(w == v as int);
    assert((v as u32) as char == c);
}

/// What `json_string` writes is a JSON string literal from which a JSON
/// reader recovers exactly the value that was escaped.
pub proof fn lemma_json_string_decodes(value: Seq<char>)
    ensures
        json_quoted(value) == seq!['"'] + escape(value) + seq!['"'],
        unescape(escape(value)) == Some(value),
    decreases value.len(),
{
    if value.len() == 0 {
        assert(escape(value) =~= Seq::<char>::empty());
        assert(unescape(escape(value)) == Some(Seq::<char>::empty()));
        assert(value =~= Seq::<char>::empty());
    } else {
        let c = value[0];
        let rest = value.drop_first();
        lemma_json_string_decodes(rest);
        let e = escape(value);
        let ec = escape_char(c);
        assert(e == ec + escape(rest));
        assert(e.skip(ec.len() as int) =~= escape(rest));
        assert(e.take(ec.len() as int) =~= ec);
        if c == '"' || c == '\\' || c == '\n' || c == '\r' || c == '\t' {
            assert(e[0] == '\\');
            assert(e[1] == ec[1]);
            assert(short_escape(e[1]) == Some(c));
        } else if (c as u32) < 0x20 {
            lemma_control_escape(c, e);
        } else {
            assert(e[0] == c);
            assert(e.drop_first() =~= escape(rest));
        }
        assert(seq![c] + rest =~= value);
    }
}

/// Pulls a flat string field out of a small JSON reply: the first `"key"`,
/// then optional white space, a colon, optional white space and a quote;
/// the value is everything up to the next quote, taken as it stands.
pub open spec fn json_field_value(body: Seq<char>, key: Seq<char>) -> Option<Seq<char>> {
    let needle = seq!['"'] + key + seq!['"'];
    match find(body, needle) {
        None => None,
        Some(at) => {
            let after = trim_start(body.skip(at + needle.len()));
            if after.len() > 0 && after[0] == ':' {
                let value = trim_start(after.skip(1));
                if value.len() > 0 && value[0] == '"' {
                    let inner = value.skip(1);
                    match find(inner, seq!['"']) {
                        None => None,
                        Some(end) => Some(inner.take(end)),
                    }
                } else {
                    None
                }
            } else {
                None
            }
        }
    }
}

/// Whether a text can be written into a JSON string literal as it stands:
/// it holds no quote, no backslash and no control character.
pub open spec fn plain_text(v: Seq<char>) -> bool {
    forall|i: int| 0 <= i < v.len() ==> v[i] != '"' && v[i] != '\\' && (v[i] as u32) >= 0x20
}

/// Plain text is written into a JSON string as it stands.
pub proof fn lemma_escape_plain(v: Seq<char>)
    requires
        plain_text(v),
    ensures
        escape(v) == v,
    decreases v.len(),
{
    if v.len() > 0 {
        assert(plain_text(v.drop_first()));
        lemma_escape_plain(v.drop_first());
        assert(seq![v[0]] + v.drop_first() =~= v);
    } else {
        assert(escape(v) =~= v);
    }
}

proof fn lemma_find_first(s: Seq<char>, pat: Seq<char>, i: int, j: int)
    requires
        0 <= i <= j,
        occurs_at(s, pat, j),
        forall|k: int| i <= k < j ==> !occurs_at(s, pat, k),
    ensures
        crate::text::find_from(s, pat, i) == Some(j),
    decreases j - i,
{
    if i < j {
        lemma_find_first(s, pat, i + 1, j);
    }
}

proof fn lemma_find_none(s: Seq<char>, pat: Seq<char>, i: int)
    requires
        0 <= i,
        forall|k: int| i <= k ==> !occurs_at(s, pat, k),
    ensures
        crate::text::find_from(s, pat, i) is None,
    decreases s.len() - i,
{
    if i + pat.len() <= s.len() && i < s.len() {
        lemma_find_none(s, pat, i + 1);
    }
}

/// A field written as `{"key": value}`, with the value written by
/// `json_string`, is read back as the value, provided neither holds a quote
/// and the value needs no escaping. A body that never mentions `"key"` has no
/// such field, and a value read back never holds a quote.
pub proof fn lemma_json_field_reads_back(key: Seq<char>, v: Seq<char>, body: Seq<char>)
    requires
        forall|i: int| 0 <= i < key.len() ==> key[i] != '"',
        plain_text(v),
    ensures
        json_field_value(seq!['{', '"'] + key + seq!['"', ':', ' '] + json_quoted(v) + seq!['}'], key)
            == Some(v),
        (forall|i: int| !#[trigger] occurs_at(body, seq!['"'] + key + seq!['"'], i)) ==> json_field_value(
            body,
            key,
        ) is None,
        json_field_value(body, key) matches Some(w) ==> !w.contains('"'),
{
    let needle = seq!['"'] + key + seq!['"'];
    // Written and read back.
    lemma_escape_plain(v);
    let b = seq!['{', '"'] + key + seq!['"', ':', ' '] + json_quoted(v) + seq!['}'];
    assert(b.subrange(1, 1 + needle.len() as int) =~= needle);
    assert(b.subrange(0, needle.len() as int)[0] != needle[0]);
    lemma_find_first(b, needle, 0, 1);
    let r1 = b.skip(1 + needle.len() as int);
    assert(r1 =~= seq![':', ' '] + json_quoted(v) + seq!['}']);
    assert(crate::text::trim_start(r1) == r1);
    let r2 = r1.skip(1);
    assert(r2 =~= seq![' '] + (json_quoted(v) + seq!['}']));
    assert(r2.drop_first() =~= json_quoted(v) + seq!['}']);
    assert(crate::text::trim_start(r2.drop_first()) == r2.drop_first());
    assert(crate::text::trim_start(r2) == json_quoted(v) + seq!['}']);
    let inner = (json_quoted(v) + seq!['}']).skip(1);
    assert(inner =~= v + seq!['"', '}']);
    assert(inner.subrange(v.len() as int, v.len() as int + 1) =~= seq!['"']);
    assert forall|k: int| 0 <= k < v.len() implies !occurs_at(inner, seq!['"'], k) by {
        assert(inner.subrange(k, k + 1)[0] == v[k]);
    }
    lemma_find_first(inner, seq!['"'], 0, v.len() as int);
    assert(inner.take(v.len() as int) =~= v);
    // A body that never mentions the key.
    if forall|i: int| !#[trigger] occurs_at(body, needle, i) {
        lemma_find_none(body, needle, 0);
    }
    // Nothing read back holds a quote.
    if let Some(w) = json_field_value(body, key) {
        let at = find(body, needle)->0;
        let after = trim_start(body.skip(at + needle.len()));
        let value = trim_start(after.skip(1));
        let inner = value.skip(1);
        let end = find(inner, seq!['"'])->0;
        crate::text::lemma_find_from_bounds(inner, seq!['"'], 0);
        assert forall|k: int| 0 <= k < w.len() implies w[k] != '"' by {
            assert(!occurs_at(inner, seq!['"'], k));
            if w[k] == '"' {
                assert(inner.subrange(k, k + 1) =~= seq!['"']);
            }
        }
    }
}

/// Pulls a flat string field out of a small JSON reply. Enough for the two
/// fields read here without pulling in a JSON parser.
pub fn json_field(body: &str, key: &str) -> (r: Option<String>)
    ensures
        r matches Some(v) ==> json_field_value(body@, key@) == Some(v@),
        r is None ==> json_field_value(body@, key@) is None,
{
    let b = chars_of(body);
    let k = chars_of(key);
    let mut needle: Vec<char> = Vec::new();
    needle.push('"');
    let mut i: usize = 0;
    while i < k.len()
        invariant
            i <= k.len(),
            needle@ == seq!['"'] + k@.take(i as int),
        decreases k.len() - i,
    {
        needle.push(k[i]);
        i = i + 1;
        assert(needle@ =~= seq!['"'] + k@.take(i as int));
    }
    needle.push('"');
    assert(k@.take(k.len() as int) =~= key@);
    assert(needle@ =~= seq!['"'] + key@ + seq!['"']);
    let at = match find_chars(&b, &needle) {
        Some(at) => at,
        None => return None,
    };
    proof {
        crate::text::lemma_find_bounds(b@, needle@);
        assert(at + needle@.len() <= b@.len());
    }
    assert(at + needle.len() <= b.len());
    let after = trim_start_chars(&chars_from(&b, at + needle.len()));
    if after.len() == 0 || after[0] != ':' {
        return None;
    }
    let value = trim_start_chars(&chars_from(&after, 1));
    if value.len() == 0 || value[0] != '"' {
        return None;
    }
    let inner = chars_from(&value, 1);
    let quote: Vec<char> = vec!['"'];
    assert(quote@ =~= seq!['"']);
    match find_chars(&inner, &quote) {
        None => None,
        Some(end) => {
            proof {
                crate::text::lemma_find_bounds(inner@, quote@);
            }
            Some(string_of(&chars_before(&inner, end)))
        }
    }
}

} // verus!
