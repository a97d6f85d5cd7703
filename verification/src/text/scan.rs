//! Searching and splitting.
use super::{from_chars, texts, to_chars};
use vstd::prelude::*;

verus! {

/// Whether `needle` stands in `hay` at position `at`.
pub open spec fn occurs_at(hay: Seq<char>, needle: Seq<char>, at: int) -> bool {
    0 <= at && at + needle.len() <= hay.len() && hay.subrange(at, at + needle.len()) == needle
}

/// Whether `needle` stands somewhere in `hay`.
pub open spec fn contains_text(hay: Seq<char>, needle: Seq<char>) -> bool {
    exists|at: int| occurs_at(hay, needle, at)
}

/// The position of the first `c` in `s`, or the length of `s`.
pub open spec fn find_char(s: Seq<char>, c: char) -> int
    decreases s.len(),
{
    if s.len() == 0 || s[0] == c {
        0
    } else {
        1 + find_char(s.drop_first(), c)
    }
}

/// What stands before the first `c`: the whole of `s` where there is none.
pub open spec fn before_first(s: Seq<char>, c: char) -> Seq<char> {
    s.take(find_char(s, c))
}

/// What stands after the last `c`: the whole of `s` where there is none.
pub open spec fn after_last(s: Seq<char>, c: char) -> Seq<char>
    decreases s.len(),
{
    if s.len() == 0 {
        s
    } else if s.last() == c {
        Seq::empty()
    } else {
        after_last(s.drop_last(), c).push(s.last())
    }
}

/// Unicode white space.
pub open spec fn is_white(c: char) -> bool {
    ||| '\u{9}' <= c <= '\u{d}'
    ||| c == ' '
    ||| c == '\u{85}'
    ||| c == '\u{a0}'
    ||| c == '\u{1680}'
    ||| '\u{2000}' <= c <= '\u{200a}'
    ||| c == '\u{2028}'
    ||| c == '\u{2029}'
    ||| c == '\u{202f}'
    ||| c == '\u{205f}'
    ||| c == '\u{3000}'
}

/// `s` without its leading white space.
pub open spec fn trimmed_start(s: Seq<char>) -> Seq<char>
    decreases s.len(),
{
    if s.len() > 0 && is_white(s[0]) {
        trimmed_start(s.drop_first())
    } else {
        s
    }
}

/// `s` without its trailing white space.
pub open spec fn trimmed_end(s: Seq<char>) -> Seq<char>
    decreases s.len(),
{
    if s.len() > 0 && is_white(s.last()) {
        trimmed_end(s.drop_last())
    } else {
        s
    }
}

/// `s` without white space at either end.
pub open spec fn trimmed(s: Seq<char>) -> Seq<char> {
    trimmed_end(trimmed_start(s))
}

/// The length of the leading run of characters that are no white space.
pub open spec fn word_len(s: Seq<char>) -> nat
    decreases s.len(),
{
    if s.len() == 0 || is_white(s[0]) {
        0
    } else {
        1 + word_len(s.drop_first())
    }
}

/// The maximal runs of characters that are no white space, in order.
pub open spec fn words_of(s: Seq<char>) -> Seq<Seq<char>>
    decreases s.len(),
{
    if s.len() == 0 {
        Seq::empty()
    } else if is_white(s[0]) {
        words_of(s.drop_first())
    } else {
        proof {
            lemma_word_len(s);
        }
        seq![s.take(word_len(s) as int)] + words_of(s.skip(word_len(s) as int))
    }
}

/// `line` without a carriage return at its end.
pub open spec fn without_cr(line: Seq<char>) -> Seq<char> {
    if line.len() > 0 && line.last() == '\r' {
        line.drop_last()
    } else {
        line
    }
}

/// The lines of `s`. A line ends in a line feed, with or without a carriage
/// return before it; the last line may go without.
pub open spec fn lines_of(s: Seq<char>) -> Seq<Seq<char>>
    decreases s.len(),
{
    if s.len() == 0 {
        Seq::empty()
    } else {
        proof {
            lemma_find_char(s, '\n');
        }
        let n = find_char(s, '\n');
        if n >= s.len() {
            seq![s]
        } else {
            seq![without_cr(s.take(n))] + lines_of(s.skip(n + 1))
        }
    }
}

/// The pieces of `s` between occurrences of `c`, at most `limit` of them: the
/// last piece is all that is left.
pub open spec fn pieces_of(s: Seq<char>, c: char, limit: nat) -> Seq<Seq<char>>
    decreases limit,
{
    if limit == 0 {
        Seq::empty()
    } else if limit == 1 || find_char(s, c) >= s.len() {
        seq![s]
    } else {
        seq![before_first(s, c)] + pieces_of(s.skip(find_char(s, c) + 1), c, (limit - 1) as nat)
    }
}

/// What follows the first `sep` in `s`, where there is one.
pub open spec fn after_separator(s: Seq<char>, sep: Seq<char>) -> Option<Seq<char>>
    decreases s.len(),
{
    if occurs_at(s, sep, 0) {
        Some(s.skip(sep.len() as int))
    } else if s.len() == 0 {
        None
    } else {
        after_separator(s.drop_first(), sep)
    }
}

pub proof fn lemma_word_len(s: Seq<char>)
    ensures
        word_len(s) <= s.len(),
        s.len() > 0 && !is_white(s[0]) ==> word_len(s) > 0,
        forall|i: int| 0 <= i < word_len(s) ==> !is_white(#[trigger] s[i]),
        word_len(s) < s.len() ==> is_white(s[word_len(s) as int]),
    decreases s.len(),
{
    if s.len() > 0 && !is_white(s[0]) {
        lemma_word_len(s.drop_first());
        assert forall|i: int| 0 <= i < word_len(s) implies !is_white(#[trigger] s[i]) by {
            if i > 0 {
                assert(s[i] == s.drop_first()[i - 1]);
            }
        }
    }
}

pub proof fn lemma_find_char(s: Seq<char>, c: char)
    ensures
        0 <= find_char(s, c) <= s.len(),
        forall|i: int| 0 <= i < find_char(s, c) ==> #[trigger] s[i] != c,
        find_char(s, c) < s.len() ==> s[find_char(s, c)] == c,
    decreases s.len(),
{
    if s.len() > 0 && s[0] != c {
        lemma_find_char(s.drop_first(), c);
        assert forall|i: int| 0 <= i < find_char(s, c) implies #[trigger] s[i] != c by {
            if i > 0 {
                assert(s[i] == s.drop_first()[i - 1]);
            }
        }
    }
}

/// A position with no `c` before it that holds `c`, or ends `s`, is the first one.
proof fn lemma_find_char_is(s: Seq<char>, c: char, n: int)
    requires
        0 <= n <= s.len(),
        forall|i: int| 0 <= i < n ==> #[trigger] s[i] != c,
        n < s.len() ==> s[n] == c,
    ensures
        find_char(s, c) == n,
{
    lemma_find_char(s, c);
}

/// Whether `needle` stands in `hay` at position `at`.
pub fn matches_at(hay: &Vec<char>, needle: &Vec<char>, at: usize) -> (r: bool)
    ensures
        r == occurs_at(hay@, needle@, at as int),
{
    if at > hay.len() || needle.len() > hay.len() - at {
        return false;
    }
    let mut i: usize = 0;
    while i < needle.len()
        invariant
            i <= needle@.len(),
            at + needle@.len() <= hay.len(),
            forall|k: int| 0 <= k < i ==> hay@[at + k] == needle@[k],
        decreases needle@.len() - i,
    {
        if hay[at + i] != needle[i] {
            assert(hay@.subrange(at as int, at + needle@.len())[i as int] != needle@[i as int]);
            return false;
        }
        i += 1;
    }
    assert(hay@.subrange(at as int, at + needle@.len()) =~= needle@);
    true
}

/// Whether `needle` stands somewhere in `hay`.
pub fn contains(hay: &str, needle: &str) -> (r: bool)
    ensures
        r == contains_text(hay@, needle@),
{
    let h = to_chars(hay);
    let n = to_chars(needle);
    if n.len() > h.len() {
        return false;
    }
    let mut at: usize = 0;
    while at <= h.len() - n.len()
        invariant
            h@ == hay@,
            n@ == needle@,
            n@.len() <= h@.len(),
            at <= h@.len() - n@.len() + 1,
            forall|k: int| 0 <= k < at ==> !occurs_at(h@, n@, k),
        decreases h@.len() + 1 - at,
    {
        if matches_at(&h, &n, at) {
            return true;
        }
        if at == h.len() - n.len() {
            return false;
        }
        at += 1;
    }
    false
}

/// Whether `s` begins with `prefix`.
pub fn starts_with(s: &str, prefix: &str) -> (r: bool)
    ensures
        r == occurs_at(s@, prefix@, 0),
{
    let h = to_chars(s);
    let n = to_chars(prefix);
    matches_at(&h, &n, 0)
}

/// What follows `prefix` in `s`, where `s` begins with it.
pub fn strip_prefix(s: &str, prefix: &str) -> (r: Option<String>)
    ensures
        match r {
            Some(rest) => occurs_at(s@, prefix@, 0) && rest@ == s@.skip(prefix@.len() as int),
            None => !occurs_at(s@, prefix@, 0),
        },
{
    let h = to_chars(s);
    let n = to_chars(prefix);
    if matches_at(&h, &n, 0) {
        let rest = from_chars(&h, n.len(), h.len());
        assert(rest@ =~= s@.skip(prefix@.len() as int));
        Some(rest)
    } else {
        None
    }
}

/// Whether `c` is white space.
pub fn white(c: char) -> (r: bool)
    ensures
        r == is_white(c),
{
    ('\u{9}' <= c && c <= '\u{d}') || c == ' ' || c == '\u{85}' || c == '\u{a0}' || c == '\u{1680}'
        || ('\u{2000}' <= c && c <= '\u{200a}') || c == '\u{2028}' || c == '\u{2029}'
        || c == '\u{202f}' || c == '\u{205f}' || c == '\u{3000}'
}

/// `s` without white space at either end.
pub fn trim(s: &str) -> (r: String)
    ensures
        r@ == trimmed(s@),
{
    let chars = to_chars(s);
    let mut from: usize = 0;
    assert(chars@.skip(0) =~= chars@);
    while from < chars.len() && white(chars[from])
        invariant
            from <= chars@.len(),
            trimmed_start(chars@.skip(from as int)) == trimmed_start(chars@),
        decreases chars@.len() - from,
    {
        assert(chars@.skip(from as int).drop_first() =~= chars@.skip(from + 1));
        from += 1;
    }
    let ghost t = chars@.skip(from as int);
    assert(trimmed_start(chars@) == t);
    let mut to: usize = chars.len();
    assert(chars@.subrange(from as int, to as int) =~= t);
    while from < to && white(chars[to - 1])
        invariant
            from <= to <= chars@.len(),
            t == chars@.skip(from as int),
            trimmed_end(chars@.subrange(from as int, to as int)) == trimmed_end(t),
        decreases to,
    {
        assert(chars@.subrange(from as int, to as int).drop_last() =~= chars@.subrange(from as int, to - 1));
        to -= 1;
    }
    from_chars(&chars, from, to)
}

/// The words of `s`: its maximal runs of characters that are no white space.
pub fn words(s: &str) -> (r: Vec<String>)
    ensures
        texts(r@) == words_of(s@),
{
    let chars = to_chars(s);
    let mut out: Vec<String> = Vec::new();
    let mut i: usize = 0;
    assert(chars@.skip(0) =~= chars@);
    assert(texts(out@) + words_of(chars@) =~= words_of(chars@));
    while i < chars.len()
        invariant
            i <= chars@.len(),
            texts(out@) + words_of(chars@.skip(i as int)) == words_of(chars@),
        decreases chars@.len() - i,
    {
        let ghost rest = chars@.skip(i as int);
        if white(chars[i]) {
            assert(rest.drop_first() =~= chars@.skip(i + 1));
            i += 1;
        } else {
            let start: usize = i;
            i += 1;
            while i < chars.len() && !white(chars[i])
                invariant
                    start < i <= chars@.len(),
                    forall|k: int| start <= k < i ==> !is_white(#[trigger] chars@[k]),
                decreases chars@.len() - i,
            {
                i += 1;
            }
            let word = from_chars(&chars, start, i);
            proof {
                lemma_word_len(rest);
                let n = word_len(rest) as int;
                assert(n == i - start) by {
                    if n < i - start {
                        assert(rest[n] == chars@[start + n]);
                    } else if n > i - start {
                        assert(rest[i - start] == chars@[i as int]);
                    }
                }
                assert(rest.take(n) =~= word@);
                assert(rest.skip(n) =~= chars@.skip(i as int));
                assert(texts(out@.push(word)) =~= texts(out@).push(word@));
                assert(texts(out@).push(word@) + words_of(rest.skip(n)) =~= texts(out@) + (seq![word@]
                    + words_of(rest.skip(n))));
            }
            out.push(word);
        }
    }
    assert(chars@.skip(i as int) =~= Seq::empty());
    assert(texts(out@) + words_of(Seq::<char>::empty()) =~= texts(out@));
    out
}

/// The lines of `s`.
pub fn lines(s: &str) -> (r: Vec<String>)
    ensures
        texts(r@) == lines_of(s@),
{
    let chars = to_chars(s);
    let mut out: Vec<String> = Vec::new();
    let mut i: usize = 0;
    assert(chars@.skip(0) =~= chars@);
    assert(texts(out@) + lines_of(chars@) =~= lines_of(chars@));
    while i < chars.len()
        invariant
            chars@ == s@,
            i <= chars@.len(),
            texts(out@) + lines_of(chars@.skip(i as int)) == lines_of(chars@),
        decreases chars@.len() - i,
    {
        let ghost rest = chars@.skip(i as int);
        let start: usize = i;
        while i < chars.len() && chars[i] != '\n'
            invariant
                start <= i <= chars@.len(),
                forall|k: int| start <= k < i ==> #[trigger] chars@[k] != '\n',
            decreases chars@.len() - i,
        {
            i += 1;
        }
        proof {
            assert forall|k: int| 0 <= k < i - start implies #[trigger] rest[k] != '\n' by {
                assert(rest[k] == chars@[start + k]);
            }
            lemma_find_char_is(rest, '\n', i - start);
        }
        let mut end: usize = i;
        if i < chars.len() && end > start && chars[end - 1] == '\r' {
            end -= 1;
        }
        let line = from_chars(&chars, start, end);
        proof {
            assert(texts(out@.push(line)) =~= texts(out@).push(line@));
            if i < chars@.len() {
                assert(without_cr(rest.take(i - start)) =~= line@);
                assert(rest.skip(i - start + 1) =~= chars@.skip(i + 1));
                assert(texts(out@).push(line@) + lines_of(chars@.skip(i + 1)) =~= texts(out@) + (
                seq![line@] + lines_of(chars@.skip(i + 1))));
            } else {
                assert(line@ =~= rest);
                assert(texts(out@).push(line@) =~= texts(out@) + seq![rest]);
            }
        }
        out.push(line);
        if i < chars.len() {
            i += 1;
        } else {
            assert(chars@.skip(i as int) =~= Seq::empty());
            assert(texts(out@) + lines_of(Seq::<char>::empty()) =~= texts(out@));
            return out;
        }
    }
    assert(chars@.skip(i as int) =~= Seq::empty());
    assert(texts(out@) + lines_of(Seq::<char>::empty()) =~= texts(out@));
    out
}

/// What stands before the first `c` in `s`: the whole of it where there is none.
pub fn until(s: &str, c: char) -> (r: String)
    ensures
        r@ == before_first(s@, c),
{
    let chars = to_chars(s);
    let mut i: usize = 0;
    while i < chars.len() && chars[i] != c
        invariant
            i <= chars@.len(),
            forall|k: int| 0 <= k < i ==> #[trigger] chars@[k] != c,
        decreases chars@.len() - i,
    {
        i += 1;
    }
    proof {
        lemma_find_char_is(chars@, c, i as int);
    }
    from_chars(&chars, 0, i)
}

/// What stands after the last `c` in `s`: the whole of it where there is none.
pub fn past_last(s: &str, c: char) -> (r: String)
    ensures
        r@ == after_last(s@, c),
{
    let chars = to_chars(s);
    let mut i: usize = chars.len();
    assert(chars@.take(i as int) =~= chars@);
    assert(after_last(chars@, c) =~= after_last(chars@.take(i as int), c) + chars@.skip(i as int));
    while i > 0 && chars[i - 1] != c
        invariant
            i <= chars@.len(),
            after_last(chars@, c) == after_last(chars@.take(i as int), c) + chars@.skip(i as int),
        decreases i,
    {
        let ghost head = chars@.take(i as int);
        assert(head.drop_last() =~= chars@.take(i - 1));
        assert(after_last(head, c) + chars@.skip(i as int) =~= after_last(chars@.take(i - 1), c)
            + chars@.skip(i - 1));
        i -= 1;
    }
    let r = from_chars(&chars, i, chars.len());
    assert(r@ =~= after_last(s@, c));
    r
}

/// The pieces of `s` between occurrences of `c`, at most `limit` of them.
pub fn pieces(s: &str, c: char, limit: usize) -> (r: Vec<String>)
    ensures
        texts(r@) == pieces_of(s@, c, limit as nat),
{
    let chars = to_chars(s);
    let mut out: Vec<String> = Vec::new();
    let mut left: usize = limit;
    let mut i: usize = 0;
    assert(chars@.skip(0) =~= chars@);
    assert(texts(out@) + pieces_of(chars@, c, limit as nat) =~= pieces_of(chars@, c, limit as nat));
    while left > 0
        invariant
            i <= chars@.len(),
            chars@ == s@,
            texts(out@) + pieces_of(chars@.skip(i as int), c, left as nat) == pieces_of(
                s@,
                c,
                limit as nat,
            ),
        decreases left,
    {
        let ghost rest = chars@.skip(i as int);
        let start: usize = i;
        let mut end: usize = start;
        while end < chars.len() && chars[end] != c
            invariant
                start <= end <= chars@.len(),
                forall|k: int| start <= k < end ==> #[trigger] chars@[k] != c,
            decreases chars@.len() - end,
        {
            end += 1;
        }
        proof {
            assert forall|k: int| 0 <= k < end - start implies #[trigger] rest[k] != c by {
                assert(rest[k] == chars@[start + k]);
            }
            lemma_find_char_is(rest, c, end - start);
        }
        if left == 1 || end == chars.len() {
            let piece = from_chars(&chars, start, chars.len());
            assert(piece@ =~= rest);
            assert(texts(out@.push(piece)) =~= texts(out@) + seq![rest]);
            out.push(piece);
            return out;
        }
        let piece = from_chars(&chars, start, end);
        proof {
            assert(piece@ =~= before_first(rest, c));
            assert(rest.skip(end - start + 1) =~= chars@.skip(end + 1));
            assert(texts(out@.push(piece)) + pieces_of(chars@.skip(end + 1), c, (left - 1) as nat)
                =~= texts(out@) + (seq![piece@] + pieces_of(
                chars@.skip(end + 1),
                c,
                (left - 1) as nat,
            )));
        }
        out.push(piece);
        i = end + 1;
        left -= 1;
    }
    assert(texts(out@) + Seq::<Seq<char>>::empty() =~= texts(out@));
    out
}

/// What follows the first `sep` in `s`, where there is one.
pub fn split_after(s: &str, sep: &str) -> (r: Option<String>)
    ensures
        match r {
            Some(rest) => after_separator(s@, sep@) == Some(rest@),
            None => after_separator(s@, sep@) is None,
        },
{
    let h = to_chars(s);
    let n = to_chars(sep);
    let mut at: usize = 0;
    assert(h@.skip(0) =~= h@);
    while at < h.len()
        invariant
            h@ == s@,
            n@ == sep@,
            at <= h@.len(),
            after_separator(h@.skip(at as int), n@) == after_separator(s@, sep@),
        decreases h@.len() - at,
    {
        let ghost rest = h@.skip(at as int);
        proof {
            lemma_occurs_in_rest(h@, n@, at as int);
        }
        if matches_at(&h, &n, at) {
            let tail = from_chars(&h, at + n.len(), h.len());
            assert(tail@ =~= rest.skip(n@.len() as int));
            return Some(tail);
        }
        assert(rest.drop_first() =~= h@.skip(at + 1));
        at += 1;
    }
    proof {
        lemma_occurs_in_rest(h@, n@, at as int);
    }
    if matches_at(&h, &n, at) {
        let tail = from_chars(&h, at + n.len(), h.len());
        assert(tail@ =~= h@.skip(at as int).skip(n@.len() as int));
        return Some(tail);
    }
    None
}

proof fn lemma_occurs_in_rest(hay: Seq<char>, needle: Seq<char>, at: int)
    requires
        0 <= at <= hay.len(),
    ensures
        occurs_at(hay, needle, at) == occurs_at(hay.skip(at), needle, 0),
{
    if at + needle.len() <= hay.len() {
        assert(hay.skip(at).subrange(0, needle.len() as int) =~= hay.subrange(at, at + needle.len()));
    }
}

/// A text stands in another wherever it was put, and is found where it stands.
pub proof fn law_contained_text_is_found(before: Seq<char>, needle: Seq<char>, after: Seq<char>, hay: Seq<char>)
    ensures
        contains_text(before + needle + after, needle),
        occurs_at(needle + after, needle, 0),
        contains_text(hay, needle) ==> exists|i: int|
            0 <= i <= hay.len() - needle.len() && #[trigger] hay.subrange(i, i + needle.len())
                == needle,
        occurs_at(hay, needle, 0) ==> hay.len() >= needle.len() && hay.take(needle.len() as int)
            == needle,
{
    let whole = before + needle + after;
    assert(whole.subrange(before.len() as int, before.len() as int + needle.len()) =~= needle);
    assert(occurs_at(whole, needle, before.len() as int));
    assert((needle + after).subrange(0, needle.len() as int) =~= needle);
    if contains_text(hay, needle) {
        let at = choose|at: int| occurs_at(hay, needle, at);
        assert(hay.subrange(at, at + needle.len()) == needle);
    }
    if occurs_at(hay, needle, 0) {
        assert(hay.take(needle.len() as int) =~= hay.subrange(0, needle.len() as int));
    }
}

/// What stands before the first of a character, and what stands after the last of it.
pub proof fn law_text_is_cut_at_a_character(head: Seq<char>, c: char, tail: Seq<char>)
    ensures
        !head.contains(c) ==> before_first(head.push(c) + tail, c) == head,
        !head.contains(c) ==> before_first(head, c) == head,
        !tail.contains(c) ==> after_last(head.push(c) + tail, c) == tail,
        !tail.contains(c) ==> after_last(tail, c) == tail,
    decreases tail.len(),
{
    let whole = head.push(c) + tail;
    if !head.contains(c) {
        assert forall|i: int| 0 <= i < head.len() implies head[i] != c by {
            assert(head.contains(head[i]));
        }
        lemma_find_char_is(whole, c, head.len() as int);
        lemma_find_char_is(head, c, head.len() as int);
        assert(whole.take(head.len() as int) =~= head);
        assert(head.take(head.len() as int) =~= head);
    }
    if !tail.contains(c) {
        if tail.len() == 0 {
            assert(whole =~= head.push(c));
            assert(after_last(whole, c) =~= tail);
        } else {
            let front = tail.drop_last();
            assert(tail.contains(tail.last()));
            assert(!front.contains(c)) by {
                if front.contains(c) {
                    assert(tail[front.index_of(c)] == c);
                }
            }
            law_text_is_cut_at_a_character(head, c, front);
            assert(whole.drop_last() =~= head.push(c) + front);
            assert(front.push(tail.last()) =~= tail);
        }
    }
}

/// White space is that of Unicode: no letter, digit or mark of ASCII is, and the space, the
/// tab and the line ends are.
pub proof fn law_white_space(c: char)
    ensures
        '!' <= c <= '~' ==> !is_white(c),
        c == ' ' || c == '\t' || c == '\n' || c == '\r' || c == '\u{b}' || c == '\u{c}' ==> is_white(c),
        c == '\u{85}' || c == '\u{a0}' || c == '\u{1680}' || c == '\u{2028}' || c == '\u{2029}'
            ==> is_white(c),
        c == '\u{202f}' || c == '\u{205f}' || c == '\u{3000}' ==> is_white(c),
        '\u{2000}' <= c <= '\u{200a}' ==> is_white(c),
        '\u{3001}' <= c ==> !is_white(c),
        '\u{a1}' <= c <= '\u{167f}' ==> !is_white(c),
{
}

/// White space at either end is trimmed, and nothing else.
pub proof fn law_white_ends_are_trimmed(before: Seq<char>, text: Seq<char>, after: Seq<char>)
    requires
        forall|i: int| 0 <= i < before.len() ==> is_white(#[trigger] before[i]),
        forall|i: int| 0 <= i < after.len() ==> is_white(#[trigger] after[i]),
        text.len() > 0 ==> !is_white(text[0]) && !is_white(text.last()),
    ensures
        trimmed(before + text + after) == text,
    decreases before.len() + after.len(),
{
    let whole = before + text + after;
    if before.len() > 0 {
        assert(is_white(before[0]));
        assert(whole.drop_first() =~= before.drop_first() + text + after);
        assert forall|i: int| 0 <= i < before.drop_first().len() implies is_white(
            #[trigger] before.drop_first()[i],
        ) by {
            assert(is_white(before[i + 1]));
        }
        law_white_ends_are_trimmed(before.drop_first(), text, after);
    } else {
        assert(whole =~= text + after);
        if text.len() == 0 {
            assert(whole =~= after);
            if after.len() > 0 {
                assert(is_white(after[0]));
                assert forall|i: int| 0 <= i < after.drop_first().len() implies is_white(
                    #[trigger] after.drop_first()[i],
                ) by {
                    assert(is_white(after[i + 1]));
                }
                law_white_ends_are_trimmed(before, text, after.drop_first());
                assert(before + text + after.drop_first() =~= after.drop_first());
            }
        } else if after.len() > 0 {
            assert(is_white(after[after.len() - 1]));
            assert(whole.drop_last() =~= before + text + after.drop_last());
            assert forall|i: int| 0 <= i < after.drop_last().len() implies is_white(
                #[trigger] after.drop_last()[i],
            ) by {
                assert(is_white(after[i]));
            }
            law_white_ends_are_trimmed(before, text, after.drop_last());
            assert(trimmed_start(whole) == whole);
            assert(trimmed_start(whole.drop_last()) == whole.drop_last());
        } else {
            assert(whole =~= text);
        }
    }
}

/// The first word of a text is what stands between the white space around it; the words
/// after it follow. White space alone has no word.
pub proof fn law_words_stand_between_white_space(before: Seq<char>, word: Seq<char>, rest: Seq<char>)
    requires
        forall|i: int| 0 <= i < before.len() ==> is_white(#[trigger] before[i]),
        forall|i: int| 0 <= i < word.len() ==> !is_white(#[trigger] word[i]),
        rest.len() > 0 ==> is_white(rest[0]),
    ensures
        words_of(before).len() == 0,
        word.len() > 0 ==> words_of(before + word + rest) == seq![word] + words_of(rest),
    decreases before.len(),
{
    let whole = before + word + rest;
    if before.len() > 0 {
        assert(is_white(before[0]));
        assert(whole.drop_first() =~= before.drop_first() + word + rest);
        assert forall|i: int| 0 <= i < before.drop_first().len() implies is_white(
            #[trigger] before.drop_first()[i],
        ) by {
            assert(is_white(before[i + 1]));
        }
        law_words_stand_between_white_space(before.drop_first(), word, rest);
    } else if word.len() > 0 {
        assert(!is_white(word[0]));
        assert(whole =~= word + rest);
        let n = word_len(whole) as int;
        lemma_word_len(whole);
        assert(n == word.len()) by {
            if n < word.len() {
                assert(whole[n] == word[n]);
                assert(!is_white(word[n]));
            }
            if n > word.len() {
                assert(!is_white(whole[word.len() as int]));
                assert(whole[word.len() as int] == rest[0]);
            }
        }
        assert(whole.take(n) =~= word);
        assert(whole.skip(n) =~= rest);
    }
}

/// A line ends in a line feed, with or without a carriage return before it; the last one may
/// go without.
pub proof fn law_lines_end_in_line_feeds(line: Seq<char>, rest: Seq<char>)
    requires
        !line.contains('\n'),
    ensures
        lines_of(Seq::empty()).len() == 0,
        line.len() > 0 ==> lines_of(line) == seq![line],
        line.len() == 0 || line.last() != '\r' ==> lines_of(line.push('\n') + rest) == seq![line]
            + lines_of(rest),
        lines_of(line.push('\r').push('\n') + rest) == seq![line] + lines_of(rest),
{
    assert forall|i: int| 0 <= i < line.len() implies line[i] != '\n' by {
        assert(line.contains(line[i]));
    }
    lemma_find_char_is(line, '\n', line.len() as int);
    let n = line.len() as int;
    let a = line.push('\n') + rest;
    lemma_find_char_is(a, '\n', n);
    assert(a.take(n) =~= line);
    assert(a.skip(n + 1) =~= rest);
    let b = line.push('\r').push('\n') + rest;
    lemma_find_char_is(b, '\n', n + 1);
    assert(b.take(n + 1) =~= line.push('\r'));
    assert(line.push('\r').drop_last() =~= line);
    assert(b.skip(n + 2) =~= rest);
}

/// A text is split at a character, up to a number of pieces.
pub proof fn law_pieces_stand_between_separators(first: Seq<char>, c: char, rest: Seq<char>, limit: nat)
    requires
        !first.contains(c),
    ensures
        limit >= 2 ==> pieces_of(first.push(c) + rest, c, limit) == seq![first] + pieces_of(
            rest,
            c,
            (limit - 1) as nat,
        ),
        limit >= 1 ==> pieces_of(first, c, limit) == seq![first],
        pieces_of(rest, c, 1) == seq![rest],
{
    assert forall|i: int| 0 <= i < first.len() implies first[i] != c by {
        assert(first.contains(first[i]));
    }
    let whole = first.push(c) + rest;
    let n = first.len() as int;
    lemma_find_char_is(first, c, n);
    lemma_find_char_is(whole, c, n);
    assert(whole.take(n) =~= first);
    assert(whole.skip(n + 1) =~= rest);
}

/// What follows the first occurrence of a separator.
pub proof fn law_rest_follows_the_first_separator(head: Seq<char>, sep: Seq<char>, rest: Seq<char>)
    requires
        forall|i: int| 0 <= i < head.len() ==> !#[trigger] occurs_at(head + sep + rest, sep, i),
    ensures
        after_separator(head + sep + rest, sep) == Some(rest),
    decreases head.len(),
{
    let whole = head + sep + rest;
    if head.len() == 0 {
        assert(whole =~= sep + rest);
        assert(whole.subrange(0, sep.len() as int) =~= sep);
        assert(whole.skip(sep.len() as int) =~= rest);
    } else {
        assert(!occurs_at(whole, sep, 0));
        let shorter = head.drop_first() + sep + rest;
        assert(whole.drop_first() =~= shorter);
        assert forall|i: int| 0 <= i < head.drop_first().len() implies !#[trigger] occurs_at(
            shorter,
            sep,
            i,
        ) by {
            assert(!occurs_at(whole, sep, i + 1));
            if i + sep.len() <= shorter.len() {
                assert(shorter.subrange(i, i + sep.len()) =~= whole.subrange(
                    i + 1,
                    i + 1 + sep.len(),
                ));
            }
        }
        law_rest_follows_the_first_separator(head.drop_first(), sep, rest);
    }
}

/// A text without the separator has nothing that follows it.
pub proof fn law_nothing_follows_a_missing_separator(s: Seq<char>, sep: Seq<char>)
    requires
        !contains_text(s, sep),
    ensures
        after_separator(s, sep) is None,
    decreases s.len(),
{
    assert(!occurs_at(s, sep, 0));
    if s.len() > 0 {
        let rest = s.drop_first();
        assert(!contains_text(rest, sep)) by {
            if contains_text(rest, sep) {
                let at = choose|at: int| occurs_at(rest, sep, at);
                assert(s.subrange(at + 1, at + 1 + sep.len()) =~= rest.subrange(at, at + sep.len()));
                assert(occurs_at(s, sep, at + 1));
            }
        }
        law_nothing_follows_a_missing_separator(rest, sep);
    }
}

} // verus!
