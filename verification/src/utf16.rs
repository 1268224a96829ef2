//! UTF-16: encoding text to code units, and decoding code units to text.

use vstd::prelude::*;

verus! {

/// The leading half of a surrogate pair.
pub open spec fn is_high_surrogate(w: u16) -> bool {
    0xD800 <= w < 0xDC00
}

/// The trailing half of a surrogate pair.
pub open spec fn is_low_surrogate(w: u16) -> bool {
    0xDC00 <= w < 0xE000
}

/// Any code unit in the surrogate range.
pub open spec fn is_surrogate(w: u16) -> bool {
    0xD800 <= w < 0xE000
}

/// The UTF-16 encoding of one character: characters below 0x10000 are a
/// single code unit, all others a surrogate pair.
pub open spec fn encode_utf16_char(c: char) -> Seq<u16> {
    if (c as u32) < 0x10000 {
        seq![(c as u32) as u16]
    } else {
        seq![
            (0xD800 + ((c as u32) - 0x10000) / 0x400) as u16,
            (0xDC00 + ((c as u32) - 0x10000) % 0x400) as u16,
        ]
    }
}

/// The UTF-16 encoding of a sequence of characters.
pub open spec fn encode_utf16(s: Seq<char>) -> Seq<u16>
    decreases s.len(),
{
    if s.len() == 0 {
        Seq::empty()
    } else {
        encode_utf16_char(s[0]) + encode_utf16(s.skip(1))
    }
}

/// A sequence of code units is valid UTF-16 when every code unit in the
/// surrogate range belongs to a high-then-low surrogate pair.
pub open spec fn is_valid_utf16(s: Seq<u16>) -> bool
    decreases s.len(),
{
    if s.len() == 0 {
        true
    } else if !is_surrogate(s[0]) {
        is_valid_utf16(s.skip(1))
    } else if is_high_surrogate(s[0]) && s.len() >= 2 && is_low_surrogate(s[1]) {
        is_valid_utf16(s.skip(2))
    } else {
        false
    }
}

/// The character encoded by a surrogate pair.
pub open spec fn combine_surrogates(hi: u16, lo: u16) -> char {
    (((0x10000 + (hi - 0xD800) * 0x400 + (lo - 0xDC00)) as u32) as char)
}

/// Decoding code units to characters, replacing each unpaired surrogate with
/// the replacement character U+FFFD. On valid UTF-16 this is exactly the
/// strict decoding.
pub open spec fn decode_utf16_lossy(s: Seq<u16>) -> Seq<char>
    decreases s.len(),
{
    if s.len() == 0 {
        Seq::empty()
    } else if is_high_surrogate(s[0]) && s.len() >= 2 && is_low_surrogate(s[1]) {
        seq![combine_surrogates(s[0], s[1])] + decode_utf16_lossy(s.skip(2))
    } else if is_surrogate(s[0]) {
        seq!['\u{FFFD}'] + decode_utf16_lossy(s.skip(1))
    } else {
        seq![((s[0] as u32) as char)] + decode_utf16_lossy(s.skip(1))
    }
}

/// Encoding a sequence with one more character appends that character's
/// encoding.
pub proof fn lemma_encode_utf16_snoc(s: Seq<char>, c: char)
    ensures
        encode_utf16(s.push(c)) == encode_utf16(s) + encode_utf16_char(c),
    decreases s.len(),
{
    if s.len() == 0 {
        let t = s.push(c);
        assert(t.skip(1) =~= Seq::<char>::empty());
        assert(encode_utf16(t.skip(1)) == Seq::<u16>::empty());
        assert(t[0] == c);
        assert(encode_utf16(t) == encode_utf16_char(c) + Seq::<u16>::empty());
        assert(encode_utf16_char(c) + Seq::<u16>::empty() =~= encode_utf16_char(c));
        assert(encode_utf16(s) + encode_utf16_char(c) =~= encode_utf16_char(c));
    } else {
        assert(s.push(c).skip(1) =~= s.skip(1).push(c));
        lemma_encode_utf16_snoc(s.skip(1), c);
        assert(encode_utf16(s.push(c)) =~= encode_utf16(s) + encode_utf16_char(c));
    }
}

/// The error type of strict decoding, from the standard library.
#[verifier::external_type_specification]
#[verifier::external_body]
pub struct ExFromUtf16Error(std::string::FromUtf16Error);

/// Relies on `String::from_utf16`: it returns `Err` exactly when the input
/// holds an unpaired surrogate, and otherwise decodes the code units,
/// combining each surrogate pair into one character.
#[verifier::external_body]
pub(crate) fn decode_units(v: &[u16]) -> (r: Result<String, std::string::FromUtf16Error>)
    ensures
        r is Ok <==> is_valid_utf16(v@),
        r matches Ok(s) ==> s@ == decode_utf16_lossy(v@),
{
    String::from_utf16(v)
}

/// Relies on `String::from_utf16_lossy`: it decodes the code units,
/// combining surrogate pairs and replacing each unpaired surrogate with one
/// replacement character.
#[verifier::external_body]
pub(crate) fn decode_units_lossy(v: &[u16]) -> (r: String)
    ensures
        r@ == decode_utf16_lossy(v@),
{
    String::from_utf16_lossy(v)
}

/// Encode text to UTF-16 code units.
pub fn encode_wide(s: &str) -> (r: Vec<u16>)
    ensures
        r@ == encode_utf16(s@),
{
    let mut out: Vec<u16> = Vec::new();
    for c in it: s.chars()
        invariant
            it.seq() == s@,
            out@ == encode_utf16(s@.take(it.index() as int)),
    {
        let u: u32 = c as u32;
        proof {
            vstd::utf8::char_is_scalar(c);
        }
        if u < 0x10000 {
            out.push(u as u16);
        } else {
            let v: u32 = u - 0x10000;
            let hi: u32 = 0xD800 + v / 0x400;
            let lo: u32 = 0xDC00 + v % 0x400;
            out.push(hi as u16);
            out.push(lo as u16);
        }
        proof {
            lemma_encode_utf16_snoc(s@.take(it.index() as int), c);
            assert(s@.take(it.index() as int).push(c) =~= s@.take(it.index() + 1));
        }
    }
    proof {
        assert(s@.take(s@.len() as int) =~= s@);
    }
    out
}

} // verus!
