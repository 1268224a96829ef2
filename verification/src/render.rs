//! The quoted, escaped rendering of a buffer's code units.
//!
//! Code units outside the surrogate range are rendered through the standard
//! character escape rules; code units inside the surrogate range, paired or
//! lone, are rendered literally as a hex escape and never decoded.

use vstd::prelude::*;

use crate::utf16::is_surrogate;

verus! {

/// The uppercase hex digit for a value below 16.
pub open spec fn hex_digit(d: u16) -> char {
    if d < 10 {
        (((0x30 + d) as u8) as char)
    } else {
        (((0x41 + (d - 10)) as u8) as char)
    }
}

/// The uppercase hex rendering of a code unit, most significant digit
/// first, without leading zeros.
pub open spec fn hex_upper(w: u16) -> Seq<char>
    decreases w,
{
    if w < 16 {
        seq![hex_digit(w)]
    } else {
        hex_upper(w / 16).push(hex_digit(w % 16))
    }
}

/// What the standard escape-rendering of a character yields: printable
/// characters stand for themselves, the rest become backslash escapes.
pub uninterp spec fn escaped_default(c: char) -> Seq<char>;

/// Relies on `char::escape_default`: the escape sequence depends on the
/// character alone.
#[verifier::external_body]
fn escape_default_chars(c: char) -> (r: Vec<char>)
    ensures
        r@ == escaped_default(c),
{
    c.escape_default().collect()
}

/// Relies on `char::from_u32`: it returns `None` exactly on surrogate
/// values and values above the greatest code point, and otherwise the
/// character with the given code point.
pub assume_specification[ char::from_u32 ](v: u32) -> (r: Option<char>)
    ensures
        (0xD800 <= v < 0xE000 || v > 0x10FFFF) ==> r is None,
        !(0xD800 <= v < 0xE000 || v > 0x10FFFF) ==> r == Some((v as char)),
;

/// Relies on `String`'s `FromIterator` implementation for `char`:
/// collecting characters yields the string of exactly those characters.
#[verifier::external_body]
fn chars_to_string(v: Vec<char>) -> (r: String)
    ensures
        r@ == v@,
{
    v.into_iter().collect()
}

/// The rendering of one code unit: a hex escape for anything in the
/// surrogate range, the standard character escape for everything else.
pub open spec fn debug_escape_unit(w: u16) -> Seq<char> {
    if is_surrogate(w) {
        seq!['\\', 'u', '{'] + hex_upper(w) + seq!['}']
    } else {
        escaped_default(((w as u32) as char))
    }
}

/// The rendering of a run of code units, one after the other.
pub open spec fn debug_render(s: Seq<u16>) -> Seq<char>
    decreases s.len(),
{
    if s.len() == 0 {
        Seq::empty()
    } else {
        debug_escape_unit(s[0]) + debug_render(s.skip(1))
    }
}

/// Rendering a run with one more code unit appends that code unit's
/// rendering.
pub proof fn lemma_debug_render_snoc(s: Seq<u16>, w: u16)
    ensures
        debug_render(s.push(w)) == debug_render(s) + debug_escape_unit(w),
    decreases s.len(),
{
    if s.len() == 0 {
        let t = s.push(w);
        assert(t.skip(1) =~= Seq::<u16>::empty());
        assert(debug_render(t.skip(1)) == Seq::<char>::empty());
        assert(t[0] == w);
        assert(debug_render(t) == debug_escape_unit(w) + Seq::<char>::empty());
        assert(debug_escape_unit(w) + Seq::<char>::empty() =~= debug_escape_unit(w));
        assert(debug_render(s) + debug_escape_unit(w) =~= debug_escape_unit(w));
    } else {
        assert(s.push(w).skip(1) =~= s.skip(1).push(w));
        lemma_debug_render_snoc(s.skip(1), w);
        assert(debug_render(s.push(w)) =~= debug_render(s) + debug_escape_unit(w));
    }
}

/// The uppercase hex rendering of a code unit, as characters.
pub fn hex_chars(w: u16) -> (r: Vec<char>)
    ensures
        r@ == hex_upper(w),
    decreases w,
{
    let d: u16 = w % 16;
    let c: char = if d < 10 {
        (0x30 + d) as u8 as char
    } else {
        (0x41 + (d - 10)) as u8 as char
    };
    if w < 16 {
        let mut out: Vec<char> = Vec::new();
        out.push(c);
        proof {
            assert(out@ =~= hex_upper(w));
        }
        out
    } else {
        let mut out = hex_chars(w / 16);
        out.push(c);
        out
    }
}

/// Render a run of code units between quotes. Every code unit in the
/// surrogate range, whether part of a pair or lone, is rendered as a
/// literal hex escape; no decoding is ever attempted, so the rendering
/// never fails on unpaired surrogates.
pub fn render_quoted(units: &[u16]) -> (r: String)
    ensures
        r@ == seq!['"'] + debug_render(units@) + seq!['"'],
{
    let mut out: Vec<char> = Vec::new();
    out.push('"');
    let n: usize = units.len();
    let mut i: usize = 0;
    while i < n
        invariant
            i <= n,
            n == units@.len(),
            out@ == seq!['"'] + debug_render(units@.take(i as int)),
        decreases n - i,
    {
        let w: u16 = units[i];
        if w < 0xD800 || w >= 0xE000 {
            let c = char::from_u32(w as u32).unwrap();
            let mut esc = escape_default_chars(c);
            out.append(&mut esc);
        } else {
            out.push('\\');
            out.push('u');
            out.push('{');
            let mut hex = hex_chars(w);
            out.append(&mut hex);
            out.push('}');
        }
        proof {
            lemma_debug_render_snoc(units@.take(i as int), units@[i as int]);
            assert(units@.take(i as int).push(units@[i as int]) =~= units@.take(i + 1));
            assert(out@ =~= seq!['"'] + debug_render(units@.take(i + 1)));
        }
        i = i + 1;
    }
    out.push('"');
    proof {
        assert(units@.take(n as int) =~= units@);
        assert(out@ =~= seq!['"'] + debug_render(units@) + seq!['"']);
    }
    chars_to_string(out)
}

} // verus!
