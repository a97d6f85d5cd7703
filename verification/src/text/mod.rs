//! Text primitives.
//!
//! Every function here is stated over the characters of a string, its view
//! `s@`. Strings are read through a vector of their characters and built up
//! character by character.
pub mod case;
pub mod number;
pub mod scan;
pub mod utf8;

use vstd::prelude::*;
use vstd::string::*;

verus! {

/// `String::push` appends one character to the end of the string.
pub assume_specification[ String::push ](s: &mut String, c: char)
    ensures
        final(s)@ == old(s)@.push(c),
;

/// The text of an optional string.
pub open spec fn text_of(s: Option<String>) -> Option<Seq<char>> {
    match s {
        Some(t) => Some(t@),
        None => None,
    }
}

/// The text of an optional string, or the empty text.
pub open spec fn text_or_empty(s: Option<&str>) -> Seq<char> {
    match s {
        Some(t) => t@,
        None => Seq::empty(),
    }
}

/// The texts of a sequence of strings.
pub open spec fn texts(v: Seq<String>) -> Seq<Seq<char>> {
    v.map_values(|s: String| s@)
}

/// The characters of `s`, in order.
pub fn to_chars(s: &str) -> (r: Vec<char>)
    ensures
        r@ == s@,
{
    let mut out: Vec<char> = Vec::new();
    for c in it: s.chars()
        invariant
            out@ == it.seq().take(it.index()),
            it.seq() == s@,
    {
        out.push(c);
    }
    out
}

/// The string made of `chars[from..to]`.
pub fn from_chars(chars: &Vec<char>, from: usize, to: usize) -> (r: String)
    requires
        from <= to <= chars@.len(),
    ensures
        r@ == chars@.subrange(from as int, to as int),
{
    let mut out = String::new();
    let mut i: usize = from;
    while i < to
        invariant
            from <= i <= to <= chars@.len(),
            out@ == chars@.subrange(from as int, i as int),
        decreases to - i,
    {
        out.push(chars[i]);
        i += 1;
    }
    out
}

/// Whether two strings are equal.
pub fn same(a: &str, b: &str) -> (r: bool)
    ensures
        r == (a@ == b@),
{
    let x = to_chars(a);
    let y = to_chars(b);
    if x.len() != y.len() {
        return false;
    }
    let mut i: usize = 0;
    while i < x.len()
        invariant
            x@ == a@,
            y@ == b@,
            x@.len() == y@.len(),
            i <= x@.len(),
            forall|k: int| 0 <= k < i ==> x@[k] == y@[k],
        decreases x@.len() - i,
    {
        if x[i] != y[i] {
            assert(a@[i as int] != b@[i as int]);
            return false;
        }
        i += 1;
    }
    assert(a@ =~= b@);
    true
}

/// `text` widened to `width` characters with spaces on the right.
pub open spec fn padded_right(text: Seq<char>, width: nat) -> Seq<char> {
    if text.len() >= width {
        text
    } else {
        text + Seq::new((width - text.len()) as nat, |i: int| ' ')
    }
}

/// `text` widened to `width` characters with spaces on the left.
pub open spec fn padded_left(text: Seq<char>, width: nat) -> Seq<char> {
    if text.len() >= width {
        text
    } else {
        Seq::new((width - text.len()) as nat, |i: int| ' ') + text
    }
}

/// Left-aligns `text` in a field of `width` characters; a longer text is kept whole.
pub fn pad_right(text: &str, width: usize) -> (r: String)
    ensures
        r@ == padded_right(text@, width as nat),
{
    let n: usize = to_chars(text).len();
    let mut out = text.to_owned();
    let mut i: usize = n;
    while i < width
        invariant
            n == text@.len(),
            n <= i,
            i <= width || i == n,
            out@ == padded_right(text@, i as nat),
        decreases width - i,
    {
        out.push(' ');
        i += 1;
        assert(out@ =~= padded_right(text@, i as nat));
    }
    assert(n >= width ==> i == n);
    out
}

/// Right-aligns `text` in a field of `width` characters; a longer text is kept whole.
pub fn pad_left(text: &str, width: usize) -> (r: String)
    ensures
        r@ == padded_left(text@, width as nat),
{
    let n: usize = to_chars(text).len();
    let mut out = String::new();
    let mut i: usize = n;
    while i < width
        invariant
            n == text@.len(),
            n <= i,
            i <= width || i == n,
            out@ == Seq::new((i - n) as nat, |k: int| ' '),
        decreases width - i,
    {
        out.push(' ');
        i += 1;
        assert(out@ =~= Seq::new((i - n) as nat, |k: int| ' '));
    }
    out.append(text);
    assert(out@ =~= padded_left(text@, width as nat));
    out
}

/// A list of one string.
pub fn one_text(s: String) -> (r: Vec<String>)
    ensures
        texts(r@) == seq![s@],
{
    let mut out: Vec<String> = Vec::new();
    out.push(s);
    assert(texts(out@) =~= seq![s@]);
    out
}

/// A padded text has at least the width asked for, holds the text at its own side and spaces
/// at the other, and is the text alone where that is long enough.
pub proof fn law_padding(text: Seq<char>, width: nat, i: int)
    ensures
        text.len() >= width ==> padded_right(text, width) == text && padded_left(text, width)
            == text,
        text.len() < width ==> padded_right(text, width).len() == width && padded_left(
            text,
            width,
        ).len() == width,
        0 <= i < text.len() ==> padded_right(text, width)[i] == text[i],
        0 <= i < text.len() ==> padded_left(text, width)[padded_left(text, width).len()
            - text.len() + i] == text[i],
        text.len() <= i < width ==> padded_right(text, width)[i] == ' ',
        0 <= i < width - text.len() ==> padded_left(text, width)[i] == ' ',
{
}

/// The texts of strings are theirs, one for one.
pub proof fn law_texts_are_those_of_the_strings(v: Seq<String>, i: int, s: &str)
    ensures
        texts(v).len() == v.len(),
        0 <= i < v.len() ==> texts(v)[i] == v[i]@,
        text_or_empty(Some(s)) == s@,
        text_or_empty(None).len() == 0,
        text_of(None) is None,
        0 <= i < v.len() ==> text_of(Some(v[i])) == Some(v[i]@),
{
}

} // verus!
