//! Text properties of boxes: font size, family and weight of a computed
//! style, generic font families, and `text-transform`.

use vstd::prelude::*;

use crate::css;
use crate::css::{chars_of, kw_eq, push_char, CssToken, ElementStyle};

verus! {

/// Initial font size, `medium` = 16px (single-precision bits of `16.0`).
pub const DEFAULT_FONT_SIZE: u32 = 0x4180_0000u32;

/// Initial font family (`serif`).
pub const DEFAULT_FONT_FAMILY: &'static str = "serif";

/// Initial font weight (`normal` = 400).
pub const DEFAULT_FONT_WEIGHT: u16 = 400u16;

/// The `px` size of the first `px` dimension among `t[i..]` (top level only).
pub open spec fn font_size_from(t: Seq<CssToken>, i: int) -> Option<u32>
    decreases t.len() - i,
{
    if i < 0 || i >= t.len() {
        None
    } else {
        match t[i] {
            CssToken::Dimension(n, unit) => if css::eq_ignore_ascii_case(unit@, "px"@) {
                Some(n.single)
            } else {
                font_size_from(t, i + 1)
            },
            _ => font_size_from(t, i + 1),
        }
    }
}

/// The first identifier or quoted string among `t[i..]`.
pub open spec fn family_from(t: Seq<CssToken>, i: int) -> Option<Seq<char>>
    decreases t.len() - i,
{
    if i < 0 || i >= t.len() {
        None
    } else {
        match t[i] {
            CssToken::Ident(s) => Some(s@),
            CssToken::Str(s) => Some(s@),
            _ => family_from(t, i + 1),
        }
    }
}

/// Exponent field of a double-precision bit pattern.
pub open spec fn f64_exponent(bits: u64) -> u64 {
    (bits >> 52u64) & 0x7ffu64
}

/// Fraction field of a double-precision bit pattern.
pub open spec fn f64_fraction(bits: u64) -> u64 {
    bits & 0x000f_ffff_ffff_ffffu64
}

/// A double-precision NaN.
pub open spec fn is_nan_f64(bits: u64) -> bool {
    f64_exponent(bits) == 0x7ffu64 && f64_fraction(bits) != 0
}

/// A number used as a font weight: clamped to `[1, 1000]` and truncated
/// toward zero; a NaN gives `0`.
///
/// For sign-clear, non-NaN patterns, bit order is value order:
/// `0x3ff0_0000_0000_0000` is `1.0` and `0x408f_4000_0000_0000` is `1000.0`.
/// In between, the value is `(2^52 + fraction) * 2^(exponent - 1075)`,
/// whose integer part is the right shift below.
pub open spec fn weight_of_number(bits: u64) -> u16 {
    if is_nan_f64(bits) {
        0u16
    } else if bits >= 0x8000_0000_0000_0000u64 {
        1u16
    } else if bits < 0x3ff0_0000_0000_0000u64 {
        1u16
    } else if bits > 0x408f_4000_0000_0000u64 {
        1000u16
    } else {
        ((f64_fraction(bits) | 0x0010_0000_0000_0000u64) >> ((1075u64 - f64_exponent(
            bits,
        )) as u64)) as u16
    }
}

/// The weight given by the first identifier (`bold` → 700, any other → 400)
/// or number among `t[i..]`.
pub open spec fn weight_from(t: Seq<CssToken>, i: int) -> Option<u16>
    decreases t.len() - i,
{
    if i < 0 || i >= t.len() {
        None
    } else {
        match t[i] {
            CssToken::Ident(s) => if css::eq_ignore_ascii_case(s@, "bold"@) {
                Some(700u16)
            } else {
                Some(400u16)
            },
            CssToken::Number(n) => Some(weight_of_number(n.value)),
            _ => weight_from(t, i + 1),
        }
    }
}

/// The `font-size` of a style in px (single-precision bits): its first `px`
/// dimension. Cascade has already resolved relative sizes to `px`.
pub open spec fn spec_font_size(s: ElementStyle) -> Option<u32> {
    match css::spec_get(s, "font-size"@) {
        Some(v) => font_size_from(v.tokens@, 0),
        None => None,
    }
}

/// The first family name of a style's `font-family`.
pub open spec fn spec_font_family(s: ElementStyle) -> Option<Seq<char>> {
    match css::spec_get(s, "font-family"@) {
        Some(v) => family_from(v.tokens@, 0),
        None => None,
    }
}

/// The `font-weight` of a style.
pub open spec fn spec_font_weight(s: ElementStyle) -> Option<u16> {
    match css::spec_get(s, "font-weight"@) {
        Some(v) => weight_from(v.tokens@, 0),
        None => None,
    }
}

/// The `font-size` of a style in px, if it holds a `px` dimension.
pub fn resolve_font_size(style: &ElementStyle) -> (r: Option<u32>)
    ensures
        r == spec_font_size(*style),
{
    let cv = match style.get("font-size") {
        Some(cv) => cv,
        None => {
            return None;
        },
    };
    let mut i: usize = 0;
    while i < cv.tokens.len()
        invariant
            i <= cv.tokens@.len(),
            css::spec_get(*style, "font-size"@) == Some(*cv),
            font_size_from(cv.tokens@, 0) == font_size_from(cv.tokens@, i as int),
        decreases cv.tokens.len() - i,
    {
        match &cv.tokens[i] {
            CssToken::Dimension(n, unit) => {
                if kw_eq(unit.as_str(), "px") {
                    return Some(n.single);
                }
            },
            _ => {},
        }
        i = i + 1;
    }
    None
}

/// The first family name of a style's `font-family`.
pub fn resolve_font_family(style: &ElementStyle) -> (r: Option<String>)
    ensures
        match r {
            Some(f) => spec_font_family(*style) == Some(f@),
            None => spec_font_family(*style) is None,
        },
{
    let cv = match style.get("font-family") {
        Some(cv) => cv,
        None => {
            return None;
        },
    };
    let mut i: usize = 0;
    while i < cv.tokens.len()
        invariant
            i <= cv.tokens@.len(),
            css::spec_get(*style, "font-family"@) == Some(*cv),
            family_from(cv.tokens@, 0) == family_from(cv.tokens@, i as int),
        decreases cv.tokens.len() - i,
    {
        match &cv.tokens[i] {
            CssToken::Ident(s) => {
                return Some(s.clone());
            },
            CssToken::Str(s) => {
                return Some(s.clone());
            },
            _ => {},
        }
        i = i + 1;
    }
    None
}

/// A number used as a font weight (see [`weight_of_number`]).
pub fn weight_from_number(bits: u64) -> (r: u16)
    ensures
        r == weight_of_number(bits),
{
    let exponent: u64 = (bits >> 52u64) & 0x7ffu64;
    let fraction: u64 = bits & 0x000f_ffff_ffff_ffffu64;
    if exponent == 0x7ffu64 && fraction != 0 {
        0
    } else if bits >= 0x8000_0000_0000_0000u64 {
        1
    } else if bits < 0x3ff0_0000_0000_0000u64 {
        1
    } else if bits > 0x408f_4000_0000_0000u64 {
        1000
    } else {
        assert(0x3ff0_0000_0000_0000u64 <= bits <= 0x408f_4000_0000_0000u64 ==> 1023u64 <= ((bits
            >> 52u64) & 0x7ffu64) <= 1032u64) by (bit_vector);
        let shift: u64 = 1075u64 - exponent;
        ((fraction | 0x0010_0000_0000_0000u64) >> shift) as u16
    }
}

/// The `font-weight` of a style: `bold` → 700, other keywords → 400, a
/// number → clamped to `[1, 1000]` and truncated.
pub fn resolve_font_weight(style: &ElementStyle) -> (r: Option<u16>)
    ensures
        r == spec_font_weight(*style),
{
    let cv = match style.get("font-weight") {
        Some(cv) => cv,
        None => {
            return None;
        },
    };
    let mut i: usize = 0;
    while i < cv.tokens.len()
        invariant
            i <= cv.tokens@.len(),
            css::spec_get(*style, "font-weight"@) == Some(*cv),
            weight_from(cv.tokens@, 0) == weight_from(cv.tokens@, i as int),
        decreases cv.tokens.len() - i,
    {
        match &cv.tokens[i] {
            CssToken::Ident(s) => {
                return Some(
                    if kw_eq(s.as_str(), "bold") {
                        700
                    } else {
                        400
                    },
                );
            },
            CssToken::Number(n) => {
                return Some(weight_from_number(n.value));
            },
            _ => {},
        }
        i = i + 1;
    }
    None
}

} // verus!

verus! {

/// Whether `c` has the Unicode `White_Space` property (the characters
/// that `char::is_whitespace` accepts): tab through carriage return,
/// space, next line, no-break space, ogham space mark, en quad through
/// hair space, line and paragraph separators, narrow no-break space,
/// medium mathematical space and ideographic space.
pub open spec fn unicode_white_space(c: char) -> bool {
    ||| '\u{9}' <= c && c <= '\u{d}'
    ||| c == '\u{20}'
    ||| c == '\u{85}'
    ||| c == '\u{a0}'
    ||| c == '\u{1680}'
    ||| '\u{2000}' <= c && c <= '\u{200a}'
    ||| c == '\u{2028}'
    ||| c == '\u{2029}'
    ||| c == '\u{202f}'
    ||| c == '\u{205f}'
    ||| c == '\u{3000}'
}

/// Whether `c` is Unicode white space.
pub fn is_whitespace(c: char) -> (r: bool)
    ensures
        r == unicode_white_space(c),
{
    ('\u{9}' <= c && c <= '\u{d}') || c == '\u{20}' || c == '\u{85}' || c == '\u{a0}' || c
        == '\u{1680}' || ('\u{2000}' <= c && c <= '\u{200a}') || c == '\u{2028}' || c
        == '\u{2029}' || c == '\u{202f}' || c == '\u{205f}' || c == '\u{3000}'
}

/// `s` without its leading white space.
pub open spec fn trim_start(s: Seq<char>) -> Seq<char>
    decreases s.len(),
{
    if s.len() > 0 && unicode_white_space(s[0]) {
        trim_start(s.drop_first())
    } else {
        s
    }
}

/// `s` without its trailing white space.
pub open spec fn trim_end(s: Seq<char>) -> Seq<char>
    decreases s.len(),
{
    if s.len() > 0 && unicode_white_space(s.last()) {
        trim_end(s.drop_last())
    } else {
        s
    }
}

/// `s` without leading and trailing white space (as `str::trim`).
pub open spec fn spec_trim(s: Seq<char>) -> Seq<char> {
    trim_end(trim_start(s))
}

proof fn lemma_trim_start(s: Seq<char>, a: int)
    requires
        0 <= a <= s.len(),
        forall|j: int| 0 <= j < a ==> unicode_white_space(#[trigger] s[j]),
        a == s.len() || !unicode_white_space(s[a]),
    ensures
        trim_start(s) == s.subrange(a, s.len() as int),
    decreases a,
{
    if a == 0 {
        assert(s.subrange(0, s.len() as int) =~= s);
    } else {
        let t = s.drop_first();
        assert forall|j: int| 0 <= j < a - 1 implies unicode_white_space(#[trigger] t[j]) by {
            assert(t[j] == s[j + 1]);
        }
        lemma_trim_start(t, a - 1);
        assert(t.subrange(a - 1, t.len() as int) =~= s.subrange(a, s.len() as int));
    }
}

proof fn lemma_trim_end(s: Seq<char>, b: int)
    requires
        0 <= b <= s.len(),
        forall|j: int| b <= j < s.len() ==> unicode_white_space(#[trigger] s[j]),
        b == 0 || !unicode_white_space(s[b - 1]),
    ensures
        trim_end(s) == s.subrange(0, b),
    decreases s.len() - b,
{
    if b == s.len() {
        assert(s.subrange(0, b) =~= s);
    } else {
        let t = s.drop_last();
        assert forall|j: int| b <= j < t.len() implies unicode_white_space(#[trigger] t[j]) by {
            assert(t[j] == s[j]);
        }
        lemma_trim_end(t, b);
        assert(t.subrange(0, b) =~= s.subrange(0, b));
    }
}

/// `s` without leading and trailing white space (Unicode `White_Space`).
pub fn trim(s: &str) -> (r: String)
    ensures
        r@ == spec_trim(s@),
{
    let v = chars_of(s);
    let mut a: usize = 0;
    while a < v.len() && is_whitespace(v[a])
        invariant
            v@ == s@,
            a <= v.len(),
            forall|j: int| 0 <= j < a ==> unicode_white_space(#[trigger] v@[j]),
        decreases v.len() - a,
    {
        a = a + 1;
    }
    let mut b: usize = v.len();
    while b > a && is_whitespace(v[b - 1])
        invariant
            v@ == s@,
            a <= b <= v.len(),
            forall|j: int| b <= j < v.len() ==> unicode_white_space(#[trigger] v@[j]),
        decreases b - a,
    {
        b = b - 1;
    }
    proof {
        lemma_trim_start(v@, a as int);
        let t = v@.subrange(a as int, v@.len() as int);
        assert forall|j: int| (b - a) <= j < t.len() implies unicode_white_space(#[trigger] t[j]) by {
            assert(t[j] == v@[j + a]);
        }
        if b > a {
            assert(t[b - a - 1] == v@[b - 1]);
        }
        lemma_trim_end(t, (b - a) as int);
        assert(t.subrange(0, (b - a) as int) =~= v@.subrange(a as int, b as int));
    }
    let mut out = String::new();
    let mut i: usize = a;
    while i < b
        invariant
            v@ == s@,
            a <= i <= b <= v.len(),
            out@ == v@.subrange(a as int, i as int),
        decreases b - i,
    {
        push_char(&mut out, v[i]);
        assert(v@.subrange(a as int, i + 1) =~= v@.subrange(a as int, i as int).push(v@[i as int]));
        i = i + 1;
    }
    out
}

/// The generic font families of CSS Fonts.
#[derive(Clone, Copy, Debug, PartialEq, Eq, Structural)]
pub enum GenericFamily {
    Serif,
    SansSerif,
    Monospace,
    Cursive,
    Fantasy,
}

/// A font family: generic, or named.
#[derive(Debug)]
pub enum FontFamily {
    Generic(GenericFamily),
    Named(String),
}

/// The generic family a (trimmed) name denotes, ASCII case-insensitively.
pub open spec fn spec_generic_family(name: Seq<char>) -> Option<GenericFamily> {
    if css::eq_ignore_ascii_case(name, "serif"@) {
        Some(GenericFamily::Serif)
    } else if css::eq_ignore_ascii_case(name, "sans-serif"@) {
        Some(GenericFamily::SansSerif)
    } else if css::eq_ignore_ascii_case(name, "monospace"@) {
        Some(GenericFamily::Monospace)
    } else if css::eq_ignore_ascii_case(name, "cursive"@) {
        Some(GenericFamily::Cursive)
    } else if css::eq_ignore_ascii_case(name, "fantasy"@) {
        Some(GenericFamily::Fantasy)
    } else {
        None
    }
}

/// A CSS family name → font family: the generic families by name (after
/// trimming white space), any other name as the trimmed name itself.
pub fn family_from_css(name: &str) -> (r: FontFamily)
    ensures
        match r {
            FontFamily::Generic(g) => spec_generic_family(spec_trim(name@)) == Some(g),
            FontFamily::Named(n) => spec_generic_family(spec_trim(name@)) is None && n@
                == spec_trim(name@),
        },
{
    let trimmed = trim(name);
    let t = trimmed.as_str();
    if kw_eq(t, "serif") {
        FontFamily::Generic(GenericFamily::Serif)
    } else if kw_eq(t, "sans-serif") {
        FontFamily::Generic(GenericFamily::SansSerif)
    } else if kw_eq(t, "monospace") {
        FontFamily::Generic(GenericFamily::Monospace)
    } else if kw_eq(t, "cursive") {
        FontFamily::Generic(GenericFamily::Cursive)
    } else if kw_eq(t, "fantasy") {
        FontFamily::Generic(GenericFamily::Fantasy)
    } else {
        FontFamily::Named(trimmed)
    }
}

/// `uppercase`, `lowercase` or `capitalize` (ASCII case-insensitive).
pub open spec fn is_transform_keyword(k: Seq<char>) -> bool {
    css::eq_ignore_ascii_case(k, "uppercase"@) || css::eq_ignore_ascii_case(k, "lowercase"@)
        || css::eq_ignore_ascii_case(k, "capitalize"@)
}

/// The text that `muskitty_cascade::apply_text_transform` gives for `text`
/// under the `text-transform` keyword `keyword` (Unicode case mappings).
pub uninterp spec fn text_transformed(text: Seq<char>, keyword: Option<Seq<char>>) -> Seq<char>;

/// Calls `muskitty_cascade::apply_text_transform` and takes the text it gives.
/// Trusted: the result is `text_transformed(text, keyword)`, and a missing
/// keyword, or one other than `uppercase`, `lowercase` and `capitalize`,
/// leaves the text as it is (the source returns it borrowed). What the
/// three transforms do (full Unicode case mapping; capitalisation at
/// white-space boundaries) is not stated.
#[verifier::external_body]
pub(crate) fn apply_text_transform(text: &str, keyword: Option<&str>) -> (r: String)
    ensures
        r@ == text_transformed(
            text@,
            match keyword {
                Some(k) => Some(k@),
                None => None,
            },
        ),
        match keyword {
            Some(k) => !is_transform_keyword(k@),
            None => true,
        } ==> r@ == text@,
{
    muskitty_cascade::apply_text_transform(text, keyword).into_owned()
}

} // verus!
