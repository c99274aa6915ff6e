//! Characters and keywords of CSS values.

use vstd::prelude::*;
use vstd::std_specs::iter::IteratorSpec;

verus! {

broadcast use vstd::std_specs::iter::group_iter_axioms;

/// ASCII lower-case mapping of one character (non-ASCII letters unchanged).
pub open spec fn ascii_lower(c: char) -> char {
    if 'A' <= c && c <= 'Z' {
        ((c as u32) + 32) as char
    } else {
        c
    }
}

/// `a` and `b` are equal when ASCII letters are compared case-insensitively.
pub open spec fn eq_ignore_ascii_case(a: Seq<char>, b: Seq<char>) -> bool {
    &&& a.len() == b.len()
    &&& forall|i: int| 0 <= i < a.len() ==> ascii_lower(#[trigger] a[i]) == ascii_lower(b[i])
}

fn lower_char(c: char) -> (r: char)
    ensures
        r == ascii_lower(c),
{
    if 'A' <= c && c <= 'Z' {
        let b: u8 = c as u8;
        (b + 32) as char
    } else {
        c
    }
}

/// Calls `String::push`. Trusted: the character is appended at the end.
#[verifier::external_body]
pub(crate) fn push_char(s: &mut String, c: char)
    ensures
        final(s)@ == old(s)@.push(c),
{
    s.push(c)
}

/// ASCII lower-case mapping of a character sequence.
pub open spec fn ascii_lower_seq(s: Seq<char>) -> Seq<char> {
    Seq::new(s.len(), |i: int| ascii_lower(s[i]))
}

/// The ASCII white-space characters: space, tab, line feed, form feed,
/// carriage return.
pub open spec fn is_ascii_ws(c: char) -> bool {
    c == ' ' || c == '\t' || c == '\n' || c == '\x0C' || c == '\r'
}

/// Every character of `s` is ASCII white space (true of the empty sequence).
pub open spec fn all_ascii_ws(s: Seq<char>) -> bool {
    forall|i: int| 0 <= i < s.len() ==> is_ascii_ws(#[trigger] s[i])
}

/// A copy of `s` with ASCII letters lower-cased.
pub fn ascii_lowercase(s: &str) -> (r: String)
    ensures
        r@ == ascii_lower_seq(s@),
{
    let v = chars_of(s);
    let mut out = String::new();
    let mut i: usize = 0;
    while i < v.len()
        invariant
            v@ == s@,
            i <= v.len(),
            out@ =~= ascii_lower_seq(v@.subrange(0, i as int)),
        decreases v.len() - i,
    {
        let c = lower_char(v[i]);
        push_char(&mut out, c);
        i = i + 1;
        assert(out@ =~= ascii_lower_seq(v@.subrange(0, i as int)));
    }
    assert(v@.subrange(0, v.len() as int) =~= v@);
    out
}

/// Whether every character of `s` is ASCII white space.
pub fn is_all_ascii_whitespace(s: &str) -> (r: bool)
    ensures
        r == all_ascii_ws(s@),
{
    let v = chars_of(s);
    let mut i: usize = 0;
    while i < v.len()
        invariant
            v@ == s@,
            i <= v.len(),
            forall|j: int| 0 <= j < i ==> is_ascii_ws(#[trigger] v@[j]),
        decreases v.len() - i,
    {
        let c = v[i];
        if !(c == ' ' || c == '\t' || c == '\n' || c == '\x0C' || c == '\r') {
            return false;
        }
        i = i + 1;
    }
    true
}

/// The characters of `s`, in order.
pub fn chars_of(s: &str) -> (v: Vec<char>)
    ensures
        v@ == s@,
{
    let mut v: Vec<char> = Vec::new();
    let mut it = s.chars();
    proof {
        vstd::string::axiom_spec_iter(s);
    }
    loop
        invariant
            v@ + it.remaining() == s@,
            it.decrease() is Some,
        ensures
            v@ == s@,
        decreases it.decrease()->0,
    {
        match it.next() {
            Some(c) => {
                v.push(c);
            },
            None => {
                break;
            },
        }
    }
    v
}

/// Keyword comparison ignoring ASCII case (CSS keywords are ASCII).
pub fn kw_eq(s: &str, expected: &str) -> (r: bool)
    ensures
        r == eq_ignore_ascii_case(s@, expected@),
{
    let a = chars_of(s);
    let b = chars_of(expected);
    if a.len() != b.len() {
        return false;
    }
    let mut i: usize = 0;
    while i < a.len()
        invariant
            a@ == s@,
            b@ == expected@,
            a.len() == b.len(),
            i <= a.len(),
            forall|j: int| 0 <= j < i ==> ascii_lower(#[trigger] a@[j]) == ascii_lower(b@[j]),
        decreases a.len() - i,
    {
        if lower_char(a[i]) != lower_char(b[i]) {
            return false;
        }
        i = i + 1;
    }
    true
}

/// An ASCII letter (upper- or lower-case).
pub open spec fn is_ascii_letter(c: char) -> bool {
    ('A' <= c && c <= 'Z') || ('a' <= c && c <= 'z')
}

/// Keyword comparison is symmetric: `kw_eq(a, b) == kw_eq(b, a)`.
pub proof fn lemma_eq_ignore_ascii_case_symmetric(a: Seq<char>, b: Seq<char>)
    ensures
        eq_ignore_ascii_case(a, b) == eq_ignore_ascii_case(b, a),
{
    if eq_ignore_ascii_case(a, b) {
        assert forall|i: int| 0 <= i < b.len() implies ascii_lower(#[trigger] b[i]) == ascii_lower(a[i]) by {
            assert(ascii_lower(a[i]) == ascii_lower(b[i]));
        }
    }
    if eq_ignore_ascii_case(b, a) {
        assert forall|i: int| 0 <= i < a.len() implies ascii_lower(#[trigger] a[i]) == ascii_lower(b[i]) by {
            assert(ascii_lower(b[i]) == ascii_lower(a[i]));
        }
    }
}

/// Keyword comparison folds only ASCII letters: where two keywords compare
/// equal, every other character (digits, punctuation, non-ASCII letters
/// such as `É`) is the same character in both.
pub proof fn lemma_eq_ignore_ascii_case_exact_elsewhere(a: Seq<char>, b: Seq<char>, i: int)
    requires
        eq_ignore_ascii_case(a, b),
        0 <= i < a.len(),
        !is_ascii_letter(a[i]),
    ensures
        b[i] == a[i],
{
    assert(ascii_lower(a[i]) == ascii_lower(b[i]));
    if 'A' <= b[i] && b[i] <= 'Z' {
        assert(ascii_lower(b[i]) == ((b[i] as u32) + 32) as char);
        assert('a' <= ascii_lower(b[i]) && ascii_lower(b[i]) <= 'z');
    }
}

/// Exact equality of two string slices.
pub fn str_eq(a: &str, b: &str) -> (r: bool)
    ensures
        r == (a@ == b@),
{
    let x = chars_of(a);
    let y = chars_of(b);
    if x.len() != y.len() {
        return false;
    }
    let mut i: usize = 0;
    while i < x.len()
        invariant
            x@ == a@,
            y@ == b@,
            x.len() == y.len(),
            i <= x.len(),
            forall|j: int| 0 <= j < i ==> #[trigger] x@[j] == y@[j],
        decreases x.len() - i,
    {
        if x[i] != y[i] {
            return false;
        }
        i = i + 1;
    }
    assert(x@ =~= y@);
    true
}

/// Tags that produce no box: document metadata, scripts, styles and templates.
pub open spec fn spec_non_rendered_tag(tag: Seq<char>) -> bool {
    ||| tag == "head"@
    ||| tag == "title"@
    ||| tag == "script"@
    ||| tag == "style"@
    ||| tag == "meta"@
    ||| tag == "link"@
    ||| tag == "base"@
    ||| tag == "template"@
}

/// Whether an (already lower-cased) element tag produces no visual box.
pub fn is_non_rendered_tag(tag: &str) -> (r: bool)
    ensures
        r == spec_non_rendered_tag(tag@),
{
    str_eq(tag, "head") || str_eq(tag, "title") || str_eq(tag, "script") || str_eq(tag, "style")
        || str_eq(tag, "meta") || str_eq(tag, "link") || str_eq(tag, "base") || str_eq(tag,
        "template")
}

} // verus!

verus! {

/// A numeric CSS token value, held as IEEE-754 bit patterns.
///
/// `value` is the double-precision value as the tokenizer parsed it;
/// `single` is that value rounded to single precision; `fraction` is the
/// single-precision value divided by one hundred in single precision (the
/// factor form of a percentage). Layout decisions read these patterns;
/// the arithmetic that produced them is done where floats are available.
#[derive(Clone, Copy, Debug, PartialEq, Eq, Structural)]
pub struct CssNumber {
    pub value: u64,
    pub single: u32,
    pub fraction: u32,
}

/// One component value of a computed CSS value.
#[derive(Debug)]
pub enum CssToken {
    /// An identifier, e.g. `auto` or `flex`.
    Ident(String),
    /// A quoted string (contents without the quotes).
    Str(String),
    /// A bare number.
    Number(CssNumber),
    /// A number followed by `%`.
    Percentage(CssNumber),
    /// A number followed by a unit, e.g. `10px`.
    Dimension(CssNumber, String),
    /// A function with its name and arguments, e.g. `calc(50%)`.
    Function(String, Vec<CssToken>),
    /// Any other component value (delimiters, whitespace, blocks, ...).
    Other,
}

/// A computed value: the sequence of its component values.
#[derive(Debug)]
pub struct CssValue {
    pub tokens: Vec<CssToken>,
}

/// The first identifier among `t[i..]`, by its characters.
pub open spec fn keyword_from(t: Seq<CssToken>, i: int) -> Option<Seq<char>>
    decreases t.len() - i,
{
    if i < 0 || i >= t.len() {
        None
    } else {
        match t[i] {
            CssToken::Ident(s) => Some(s@),
            _ => keyword_from(t, i + 1),
        }
    }
}

/// The keyword of a value: its first identifier.
pub open spec fn spec_keyword(v: CssValue) -> Option<Seq<char>> {
    keyword_from(v.tokens@, 0)
}

impl CssValue {
    /// A value made of one identifier.
    pub fn from_keyword(s: &str) -> (r: CssValue)
        ensures
            r.tokens@.len() == 1,
            r.tokens@[0] matches CssToken::Ident(k) && k@ == s@,
    {
        let mut tokens: Vec<CssToken> = Vec::new();
        tokens.push(CssToken::Ident(s.to_owned()));
        CssValue { tokens }
    }

    /// A value made of the given component values.
    pub fn from_tokens(tokens: Vec<CssToken>) -> (r: CssValue)
        ensures
            r.tokens@ == tokens@,
    {
        CssValue { tokens }
    }

    /// The first identifier of the value, if any.
    pub fn keyword(&self) -> (r: Option<&String>)
        ensures
            match r {
                Some(k) => spec_keyword(*self) == Some(k@),
                None => spec_keyword(*self) is None,
            },
    {
        let mut i: usize = 0;
        while i < self.tokens.len()
            invariant
                i <= self.tokens@.len(),
                keyword_from(self.tokens@, 0) == keyword_from(self.tokens@, i as int),
            decreases self.tokens.len() - i,
        {
            match &self.tokens[i] {
                CssToken::Ident(s) => {
                    return Some(s);
                },
                _ => {},
            }
            i = i + 1;
        }
        None
    }
}

/// The computed style of one element: property names and their values.
#[derive(Debug)]
pub struct ElementStyle {
    pub properties: Vec<(String, CssValue)>,
}

/// The value of the first entry of `p[i..]` named `name`.
pub open spec fn lookup_from(p: Seq<(String, CssValue)>, name: Seq<char>, i: int) -> Option<
    CssValue,
>
    decreases p.len() - i,
{
    if i < 0 || i >= p.len() {
        None
    } else if p[i].0@ == name {
        Some(p[i].1)
    } else {
        lookup_from(p, name, i + 1)
    }
}

proof fn lemma_lookup_skip(p: Seq<(String, CssValue)>, name: Seq<char>, i: int, k: int)
    requires
        0 <= i <= k <= p.len(),
        forall|j: int| i <= j < k ==> p[j].0@ != name,
    ensures
        lookup_from(p, name, i) == lookup_from(p, name, k),
    decreases k - i,
{
    if i < k {
        lemma_lookup_skip(p, name, i + 1, k);
    }
}

proof fn lemma_lookup_same_from(
    p: Seq<(String, CssValue)>,
    q: Seq<(String, CssValue)>,
    name: Seq<char>,
    i: int,
    k: int,
)
    requires
        0 <= i <= k <= p.len(),
        p.len() == q.len(),
        forall|j: int| i <= j < p.len() && j != k ==> p[j] == q[j],
        k < p.len() ==> p[k].0@ != name && q[k].0@ != name,
    ensures
        lookup_from(p, name, i) == lookup_from(q, name, i),
    decreases p.len() - i,
{
    if i < p.len() {
        if i == k {
            lemma_lookup_same_from(p, q, name, i + 1, p.len() as int);
        } else {
            lemma_lookup_same_from(p, q, name, i + 1, k);
        }
    }
}

proof fn lemma_lookup_update(
    p: Seq<(String, CssValue)>,
    i: int,
    name: Seq<char>,
    e: (String, CssValue),
)
    requires
        0 <= i < p.len(),
        p[i].0@ == name,
        e.0@ == name,
        forall|j: int| 0 <= j < i ==> p[j].0@ != name,
    ensures
        lookup_from(p.update(i, e), name, 0) == Some(e.1),
        forall|other: Seq<char>|
            other != name ==> lookup_from(p.update(i, e), other, 0) == lookup_from(p, other, 0),
{
    let q = p.update(i, e);
    lemma_lookup_skip(q, name, 0, i);
    assert forall|other: Seq<char>| other != name implies lookup_from(q, other, 0) == lookup_from(
        p,
        other,
        0,
    ) by {
        lemma_lookup_same_from(p, q, other, 0, i);
    }
}

proof fn lemma_lookup_push(p: Seq<(String, CssValue)>, name: Seq<char>, e: (String, CssValue))
    requires
        e.0@ == name,
        forall|j: int| 0 <= j < p.len() ==> p[j].0@ != name,
    ensures
        lookup_from(p.push(e), name, 0) == Some(e.1),
        forall|other: Seq<char>|
            other != name ==> lookup_from(p.push(e), other, 0) == lookup_from(p, other, 0),
{
    let q = p.push(e);
    lemma_lookup_skip(q, name, 0, p.len() as int);
    assert forall|other: Seq<char>| other != name implies lookup_from(q, other, 0) == lookup_from(
        p,
        other,
        0,
    ) by {
        lemma_lookup_push_other(p, other, e, 0);
    }
}

proof fn lemma_lookup_push_other(
    p: Seq<(String, CssValue)>,
    other: Seq<char>,
    e: (String, CssValue),
    i: int,
)
    requires
        0 <= i <= p.len(),
        e.0@ != other,
    ensures
        lookup_from(p.push(e), other, i) == lookup_from(p, other, i),
    decreases p.len() - i,
{
    if i < p.len() {
        lemma_lookup_push_other(p, other, e, i + 1);
    } else {
        assert(p.push(e)[i] == e);
        assert(lookup_from(p.push(e), other, i + 1) is None);
    }
}

/// The value that a style gives to the property `name`.
pub open spec fn spec_get(s: ElementStyle, name: Seq<char>) -> Option<CssValue> {
    lookup_from(s.properties@, name, 0)
}

/// The keyword that a style gives to the property `name`.
pub open spec fn prop_keyword(s: ElementStyle, name: Seq<char>) -> Option<Seq<char>> {
    match spec_get(s, name) {
        Some(v) => spec_keyword(v),
        None => None,
    }
}

impl ElementStyle {
    /// A style with no property.
    pub fn new() -> (r: ElementStyle)
        ensures
            r.properties@.len() == 0,
    {
        ElementStyle { properties: Vec::new() }
    }

    /// The value of property `name`, if the style has one.
    pub fn get(&self, name: &str) -> (r: Option<&CssValue>)
        ensures
            match r {
                Some(v) => spec_get(*self, name@) == Some(*v),
                None => spec_get(*self, name@) is None,
            },
    {
        let mut i: usize = 0;
        while i < self.properties.len()
            invariant
                i <= self.properties@.len(),
                lookup_from(self.properties@, name@, 0) == lookup_from(
                    self.properties@,
                    name@,
                    i as int,
                ),
            decreases self.properties.len() - i,
        {
            if str_eq(self.properties[i].0.as_str(), name) {
                return Some(&self.properties[i].1);
            }
            i = i + 1;
        }
        None
    }

    /// Gives property `name` the value `value`, replacing the value it had.
    pub fn set(&mut self, name: &str, value: CssValue)
        ensures
            spec_get(*final(self), name@) == Some(value),
            forall|other: Seq<char>|
                other != name@ ==> spec_get(*final(self), other) == spec_get(*old(self), other),
    {
        let mut i: usize = 0;
        while i < self.properties.len()
            invariant
                i <= self.properties@.len(),
                self.properties@ == old(self).properties@,
                forall|j: int| 0 <= j < i ==> self.properties@[j].0@ != name@,
            decreases self.properties.len() - i,
        {
            if str_eq(self.properties[i].0.as_str(), name) {
                let ghost before = self.properties@;
                self.properties.set(i, (name.to_owned(), value));
                proof {
                    lemma_lookup_update(before, i as int, name@, self.properties@[i as int]);
                }
                return;
            }
            i = i + 1;
        }
        let ghost before = self.properties@;
        self.properties.push((name.to_owned(), value));
        proof {
            lemma_lookup_push(before, name@, self.properties@[before.len() as int]);
        }
    }

    /// The keyword of property `name`, if the style has the property and
    /// its value holds an identifier.
    pub fn get_keyword(&self, name: &str) -> (r: Option<&String>)
        ensures
            match r {
                Some(k) => prop_keyword(*self, name@) == Some(k@),
                None => prop_keyword(*self, name@) is None,
            },
    {
        match self.get(name) {
            Some(v) => v.keyword(),
            None => None,
        }
    }
}

} // verus!
