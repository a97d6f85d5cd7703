//! JSON with comments.
use crate::text::scan::{find_char, lemma_find_char, lines, lines_of, without_cr};
use crate::text::{texts, to_chars};
use vstd::prelude::*;
use vstd::string::*;

verus! {

/// What a scan carries from one character, and from one line, to the next.
pub ghost struct Scan {
    /// Inside a block comment.
    pub block: bool,
    /// Inside a string.
    pub string: bool,
    /// Right after a backslash inside a string.
    pub escaped: bool,
}

/// The state inside a string after the character `c`.
pub open spec fn after_string_char(st: Scan, c: char) -> Scan {
    if st.escaped {
        Scan { escaped: false, ..st }
    } else if c == '\\' {
        Scan { escaped: true, ..st }
    } else if c == '"' {
        Scan { string: false, ..st }
    } else {
        st
    }
}

/// Whether the second character of `line` is `c`.
pub open spec fn next_is(line: Seq<char>, c: char) -> bool {
    line.len() > 1 && line[1] == c
}

/// What is left of a line, and the state at its end. Comments are dropped: from
/// `//` to the end of the line, and from `/*` to `*/`. Inside a string neither
/// begins a comment.
pub open spec fn strip_line(line: Seq<char>, st: Scan) -> (Seq<char>, Scan)
    decreases line.len(),
{
    if line.len() == 0 {
        (line, st)
    } else {
        let c = line[0];
        let rest = line.drop_first();
        if st.block {
            if c == '*' && next_is(line, '/') {
                strip_line(line.skip(2), Scan { block: false, ..st })
            } else {
                strip_line(rest, st)
            }
        } else if st.string {
            let (kept, end) = strip_line(rest, after_string_char(st, c));
            (seq![c] + kept, end)
        } else if c == '"' {
            let (kept, end) = strip_line(rest, Scan { string: true, ..st });
            (seq![c] + kept, end)
        } else if c == '/' && next_is(line, '*') {
            strip_line(line.skip(2), Scan { block: true, ..st })
        } else if c == '/' && next_is(line, '/') {
            (Seq::empty(), st)
        } else {
            let (kept, end) = strip_line(rest, st);
            (seq![c] + kept, end)
        }
    }
}

/// What is left of a sequence of lines. Each line is ended by a line feed, but for one
/// at whose end a block comment is open: that line feed belongs to the comment.
pub open spec fn strip_lines(lines: Seq<Seq<char>>, st: Scan) -> Seq<char>
    decreases lines.len(),
{
    if lines.len() == 0 {
        Seq::empty()
    } else {
        let (kept, end) = strip_line(lines[0], st);
        let rest = strip_lines(lines.drop_first(), end);
        if end.block {
            kept + rest
        } else {
            kept.push('\n') + rest
        }
    }
}

/// The state at the start of a text.
pub open spec fn scan_start() -> Scan {
    Scan { block: false, string: false, escaped: false }
}

/// A text whose last line ends in a line feed.
pub open spec fn ended(text: Seq<char>) -> Seq<char> {
    if text.len() > 0 && text.last() != '\n' {
        text.push('\n')
    } else {
        text
    }
}

/// A text without its comments. What is left before a block comment that is never closed
/// is a line of its own.
pub open spec fn stripped(text: Seq<char>) -> Seq<char> {
    ended(strip_lines(lines_of(text), scan_start()))
}

/// The same state outside of any block comment.
pub open spec fn outside(st: Scan) -> Scan {
    Scan { block: false, ..st }
}

/// What is left of a line holds no comment: stripping it again keeps all of it,
/// and ends in the same place of the same strings.
pub proof fn law_stripped_line_has_no_comment(line: Seq<char>, st: Scan)
    requires
        st.block ==> !st.string,
    ensures
        strip_line(strip_line(line, st).0, outside(st)) == (
            strip_line(line, st).0,
            outside(strip_line(line, st).1),
        ),
    decreases line.len(),
{
    if line.len() > 0 {
        let c = line[0];
        let rest = line.drop_first();
        let (kept, end) = strip_line(line, st);
        if st.block {
            if c == '*' && next_is(line, '/') {
                law_stripped_line_has_no_comment(line.skip(2), Scan { block: false, ..st });
            } else {
                law_stripped_line_has_no_comment(rest, st);
            }
        } else if st.string {
            law_stripped_line_has_no_comment(rest, after_string_char(st, c));
            assert(kept.drop_first() =~= strip_line(rest, after_string_char(st, c)).0);
        } else if c == '"' {
            law_stripped_line_has_no_comment(rest, Scan { string: true, ..st });
            assert(kept.drop_first() =~= strip_line(rest, Scan { string: true, ..st }).0);
        } else if c == '/' && next_is(line, '*') {
            law_stripped_line_has_no_comment(line.skip(2), Scan { block: true, ..st });
        } else if c == '/' && next_is(line, '/') {
        } else {
            law_stripped_line_has_no_comment(rest, st);
            let inner = strip_line(rest, st).0;
            assert(kept.drop_first() =~= inner);
            if c == '/' && rest.len() > 0 {
                // The next character is kept too, so no comment begins at `c`.
                assert(rest[0] != '/' && rest[0] != '*');
                assert(inner[0] == rest[0]);
            }
        }
    }
}

/// The state after the character `c` of a text without comments.
pub open spec fn after_char(st: Scan, c: char) -> Scan {
    if st.string {
        after_string_char(st, c)
    } else if c == '"' {
        Scan { string: true, ..st }
    } else {
        st
    }
}

/// The state after a text without comments.
pub open spec fn after_chars(text: Seq<char>, st: Scan) -> Scan
    decreases text.len(),
{
    if text.len() == 0 {
        st
    } else {
        after_chars(text.drop_first(), after_char(st, text[0]))
    }
}

/// Whether a comment starts at a position of a line: `//` or `/*` outside of strings.
pub open spec fn comment_starts(line: Seq<char>, st: Scan, i: int) -> bool {
    &&& 0 <= i < line.len() - 1
    &&& !after_chars(line.take(i), st).string
    &&& line[i] == '/'
    &&& line[i + 1] == '/' || line[i + 1] == '*'
}

/// Whether no comment starts in a line.
pub open spec fn is_plain(line: Seq<char>, st: Scan) -> bool {
    forall|i: int| !#[trigger] comment_starts(line, st, i)
}

/// Whether no comment starts in any of the lines.
pub open spec fn are_plain(lines: Seq<Seq<char>>, st: Scan) -> bool
    decreases lines.len(),
{
    lines.len() == 0 || (is_plain(lines[0], st) && are_plain(
        lines.drop_first(),
        after_chars(lines[0], st),
    ))
}

/// The lines of a text, each ended by a line feed.
pub open spec fn joined_lines(lines: Seq<Seq<char>>) -> Seq<char>
    decreases lines.len(),
{
    if lines.len() == 0 {
        Seq::empty()
    } else {
        lines[0].push('\n') + joined_lines(lines.drop_first())
    }
}

proof fn lemma_plain_line(line: Seq<char>, st: Scan)
    requires
        !st.block,
        is_plain(line, st),
    ensures
        strip_line(line, st) == (line, after_chars(line, st)),
        !after_chars(line, st).block,
    decreases line.len(),
{
    if line.len() > 0 {
        let c = line[0];
        let rest = line.drop_first();
        let next = after_char(st, c);
        assert forall|i: int| !#[trigger] comment_starts(rest, next, i) by {
            if 0 <= i < rest.len() - 1 {
                assert(!comment_starts(line, st, i + 1));
                assert(line.take(i + 1).drop_first() =~= rest.take(i));
            }
        }
        assert(!comment_starts(line, st, 0));
        assert(line.take(0) =~= Seq::empty());
        lemma_plain_line(rest, next);
        assert(seq![c] + rest =~= line);
    }
}

proof fn lemma_plain_lines(lines: Seq<Seq<char>>, st: Scan)
    requires
        !st.block,
        are_plain(lines, st),
    ensures
        strip_lines(lines, st) == joined_lines(lines),
    decreases lines.len(),
{
    if lines.len() > 0 {
        lemma_plain_line(lines[0], st);
        lemma_plain_lines(lines.drop_first(), after_chars(lines[0], st));
    }
}

proof fn lemma_joined_is_ended(lines: Seq<Seq<char>>)
    ensures
        ended(joined_lines(lines)) == joined_lines(lines),
    decreases lines.len(),
{
    if lines.len() > 0 {
        lemma_joined_is_ended(lines.drop_first());
        let rest = joined_lines(lines.drop_first());
        if rest.len() > 0 {
            assert(joined_lines(lines).last() == rest.last());
        }
    }
}

/// A text in which neither `//` nor `/*` stands outside of strings has no comment, and is
/// kept line by line.
pub proof fn law_text_without_comments_is_kept(text: Seq<char>)
    requires
        are_plain(lines_of(text), scan_start()),
    ensures
        stripped(text) == joined_lines(lines_of(text)),
{
    lemma_plain_lines(lines_of(text), scan_start());
    lemma_joined_is_ended(lines_of(text));
}

/// Whether no string is open at the end of any of the lines.
pub open spec fn strings_close(lines: Seq<Seq<char>>, st: Scan) -> bool
    decreases lines.len(),
{
    lines.len() == 0 || {
        let end = strip_line(lines[0], st).1;
        !end.string && strings_close(lines.drop_first(), end)
    }
}

/// The lines that are left of a text, a line going on behind a block comment that began
/// in it. `begun` is what is left so far of the first one.
spec fn lines_left(lines: Seq<Seq<char>>, st: Scan, begun: Seq<char>) -> Seq<Seq<char>>
    decreases lines.len(),
{
    if lines.len() == 0 {
        if begun.len() > 0 {
            seq![begun]
        } else {
            Seq::empty()
        }
    } else {
        let (kept, end) = strip_line(lines[0], st);
        if end.block {
            lines_left(lines.drop_first(), end, begun + kept)
        } else {
            seq![begun + kept] + lines_left(lines.drop_first(), end, Seq::empty())
        }
    }
}

/// What is left of a line is made of its characters.
proof fn lemma_kept_chars(line: Seq<char>, st: Scan)
    ensures
        strip_line(line, st).0.len() <= line.len(),
        forall|x: char| #[trigger] strip_line(line, st).0.contains(x) ==> line.contains(x),
        !st.string && !st.escaped && !strip_line(line, st).1.string ==> !strip_line(line, st).1.escaped,
        st.string && !strip_line(line, st).1.string ==> !strip_line(line, st).1.escaped,
    decreases line.len(),
{
    if line.len() > 0 {
        let c = line[0];
        let rest = line.drop_first();
        let kept = strip_line(line, st).0;
        assert(line.contains(c));
        assert forall|x: char| rest.contains(x) implies line.contains(x) by {
            assert(line[rest.index_of(x) + 1] == x);
        }
        lemma_kept_chars(rest, st);
        lemma_kept_chars(rest, after_string_char(st, c));
        lemma_kept_chars(rest, Scan { string: true, ..st });
        if line.len() > 1 {
            assert forall|x: char| line.skip(2).contains(x) implies line.contains(x) by {
                assert(line[line.skip(2).index_of(x) + 2] == x);
            }
            lemma_kept_chars(line.skip(2), Scan { block: false, ..st });
            lemma_kept_chars(line.skip(2), Scan { block: true, ..st });
        }
        assert forall|x: char| #[trigger] kept.contains(x) implies line.contains(x) by {
            let at = kept.index_of(x);
            if kept.len() > 0 && kept[0] == c && at > 0 {
                assert(kept.drop_first()[at - 1] == x);
                assert(kept.drop_first().contains(x));
                assert((seq![c] + strip_line(rest, st).0).drop_first() =~= strip_line(rest, st).0);
                assert((seq![c] + strip_line(rest, after_string_char(st, c)).0).drop_first()
                    =~= strip_line(rest, after_string_char(st, c)).0);
                assert((seq![c] + strip_line(rest, Scan { string: true, ..st }).0).drop_first()
                    =~= strip_line(rest, Scan { string: true, ..st }).0);
            }
        }
    }
}

/// Where a block comment is open at the end of a line, what is left of the line does not
/// end in a slash.
proof fn lemma_open_end(line: Seq<char>, st: Scan)
    requires
        st.block ==> !st.string,
        strip_line(line, st).1.block,
    ensures
        strip_line(line, st).0.len() > 0 ==> strip_line(line, st).0.last() != '/',
    decreases line.len(),
{
    if line.len() > 0 {
        let c = line[0];
        let rest = line.drop_first();
        if st.block {
            if c == '*' && next_is(line, '/') {
                lemma_open_end(line.skip(2), Scan { block: false, ..st });
            } else {
                lemma_open_end(rest, st);
            }
        } else if c == '/' && !st.string && next_is(line, '*') {
            lemma_open_end(line.skip(2), Scan { block: true, ..st });
        } else if c == '/' && !st.string && next_is(line, '/') {
        } else {
            let next = after_char(st, c);
            let inner = strip_line(rest, next).0;
            lemma_open_end(rest, next);
            assert(strip_line(line, st).0 == seq![c] + inner);
            if inner.len() > 0 {
                assert((seq![c] + inner).last() == inner.last());
            } else if c == '/' {
                // The block comment starts further on, so that the next character is kept.
                assert(rest.len() > 0);
                assert(strip_line(rest, next).0.len() > 0);
            }
        }
    }
}

/// A line that is kept whole, and does not end in a slash, can be followed by another.
proof fn lemma_kept_then(a: Seq<char>, b: Seq<char>, st: Scan)
    requires
        !st.block,
        strip_line(a, st).0 == a,
        !strip_line(a, st).1.block,
        a.len() > 0 ==> a.last() != '/',
    ensures
        strip_line(a + b, st) == (
            a + strip_line(b, strip_line(a, st).1).0,
            strip_line(b, strip_line(a, st).1).1,
        ),
    decreases a.len(),
{
    if a.len() == 0 {
        assert(a + b =~= b);
        assert(a + strip_line(b, st).0 =~= strip_line(b, st).0);
    } else {
        let c = a[0];
        let rest = a.drop_first();
        let both = a + b;
        assert(both.drop_first() =~= rest + b);
        if a.len() > 1 {
            assert(both[1] == a[1]);
            lemma_kept_chars(a.skip(2), Scan { block: true, ..st });
        }
        let next = after_char(st, c);
        let inner = strip_line(rest, next);
        assert(a == seq![c] + inner.0);
        assert(a.drop_first() =~= inner.0);
        lemma_kept_then(rest, b, next);
        let tail = strip_line(b, inner.1).0;
        assert(seq![c] + (rest + tail) =~= a + tail);
    }
}

/// The lines that are left of a text, put together, are the text without its comments.
proof fn lemma_lines_left_joined(lines: Seq<Seq<char>>, st: Scan, begun: Seq<char>)
    requires
        !begun.contains('\n'),
        forall|i: int| 0 <= i < lines.len() ==> !(#[trigger] lines[i]).contains('\n'),
    ensures
        ended(begun + strip_lines(lines, st)) == joined_lines(lines_left(lines, st, begun)),
    decreases lines.len(),
{
    if lines.len() == 0 {
        assert(begun + strip_lines(lines, st) =~= begun);
        if begun.len() > 0 {
            assert(begun.contains(begun.last()));
            assert(seq![begun].drop_first() =~= Seq::empty());
            reveal_with_fuel(joined_lines, 2);
            assert(joined_lines(seq![begun]) =~= begun.push('\n'));
        }
    } else {
        let (kept, end) = strip_line(lines[0], st);
        let rest = lines.drop_first();
        let tail = strip_lines(rest, end);
        lemma_kept_chars(lines[0], st);
        let longer = begun + kept;
        assert(!longer.contains('\n')) by {
            if longer.contains('\n') {
                let k = longer.index_of('\n');
                if k < begun.len() {
                    assert(begun[k] == '\n');
                } else {
                    assert(kept[k - begun.len()] == '\n');
                    assert(kept.contains('\n'));
                    assert(lines[0].contains('\n'));
                }
            }
        }
        if end.block {
            lemma_lines_left_joined(rest, end, longer);
            assert(begun + (kept + tail) =~= longer + tail);
        } else {
            lemma_lines_left_joined(rest, end, Seq::empty());
            assert(Seq::<char>::empty() + tail =~= tail);
            let left = lines_left(rest, end, Seq::empty());
            assert((seq![longer] + left).drop_first() =~= left);
            let whole = begun + (kept.push('\n') + tail);
            assert(whole =~= longer.push('\n') + tail);
            if tail.len() > 0 {
                assert(whole.last() == tail.last());
                assert(ended(whole) =~= longer.push('\n') + ended(tail));
            } else {
                assert(whole =~= longer.push('\n'));
                assert(ended(tail) =~= tail);
                assert(longer.push('\n') + ended(tail) =~= whole);
            }
        }
    }
}

/// What is left of each line holds no comment, and neither a line feed nor a carriage
/// return.
proof fn lemma_lines_left_are_plain(lines: Seq<Seq<char>>, st: Scan, begun: Seq<char>)
    requires
        outside(st) == scan_start(),
        strings_close(lines, st),
        forall|i: int|
            0 <= i < lines.len() ==> !(#[trigger] lines[i]).contains('\n') && !lines[i].contains('\r'),
        !begun.contains('\n'),
        !begun.contains('\r'),
        strip_line(begun, scan_start()) == (begun, scan_start()),
        begun.len() > 0 ==> begun.last() != '/',
    ensures
        forall|i: int|
            0 <= i < lines_left(lines, st, begun).len() ==> {
                &&& strip_line(#[trigger] lines_left(lines, st, begun)[i], scan_start()) == (
                    lines_left(lines, st, begun)[i],
                    scan_start(),
                )
                &&& !lines_left(lines, st, begun)[i].contains('\n')
                &&& !lines_left(lines, st, begun)[i].contains('\r')
            },
    decreases lines.len(),
{
    if lines.len() > 0 {
        let (kept, end) = strip_line(lines[0], st);
        let rest = lines.drop_first();
        let longer = begun + kept;
        lemma_kept_chars(lines[0], st);
        law_stripped_line_has_no_comment(lines[0], st);
        assert(outside(end) == scan_start());
        lemma_kept_then(begun, kept, scan_start());
        assert forall|x: char| #[trigger] longer.contains(x) implies begun.contains(x) || lines[0].contains(
            x,
        ) by {
            let k = longer.index_of(x);
            if k < begun.len() {
                assert(begun[k] == x);
            } else {
                assert(kept[k - begun.len()] == x);
                assert(kept.contains(x));
            }
        }
        if end.block {
            lemma_open_end(lines[0], st);
            if kept.len() > 0 {
                assert(longer.last() == kept.last());
            } else {
                assert(longer =~= begun);
            }
            lemma_lines_left_are_plain(rest, end, longer);
        } else {
            let empty: Seq<char> = Seq::empty();
            assert(strip_line(empty, scan_start()) == (empty, scan_start()));
            lemma_lines_left_are_plain(rest, end, empty);
        }
    }
}

/// The lines of a text that is put together of lines are those lines.
proof fn lemma_lines_of_joined(lines: Seq<Seq<char>>)
    requires
        forall|i: int|
            0 <= i < lines.len() ==> !(#[trigger] lines[i]).contains('\n') && !lines[i].contains('\r'),
    ensures
        lines_of(joined_lines(lines)) == lines,
    decreases lines.len(),
{
    if lines.len() > 0 {
        let first = lines[0];
        let rest = joined_lines(lines.drop_first());
        let text = joined_lines(lines);
        lemma_lines_of_joined(lines.drop_first());
        let n = first.len() as int;
        assert(text[n] == '\n');
        lemma_find_char(text, '\n');
        let at = find_char(text, '\n');
        assert(at == n) by {
            if at < n {
                assert(first[at] == '\n');
                assert(first.contains('\n'));
            }
        }
        assert(text.take(n) =~= first);
        assert(text.skip(n + 1) =~= rest);
        if first.len() > 0 {
            assert(first.contains(first.last()));
        }
        assert(seq![first] + lines.drop_first() =~= lines);
    } else {
        assert(joined_lines(lines) =~= Seq::empty());
        assert(lines_of(joined_lines(lines)) =~= lines);
    }
}

/// The lines of a text hold no line feed, and no carriage return where the text has none.
proof fn lemma_lines_hold_no_feed(text: Seq<char>)
    ensures
        forall|i: int| 0 <= i < lines_of(text).len() ==> !(#[trigger] lines_of(text)[i]).contains('\n'),
        !text.contains('\r') ==> forall|i: int|
            0 <= i < lines_of(text).len() ==> !(#[trigger] lines_of(text)[i]).contains('\r'),
    decreases text.len(),
{
    if text.len() > 0 {
        lemma_find_char(text, '\n');
        let n = find_char(text, '\n');
        if n >= text.len() {
            assert(!text.contains('\n'));
        } else {
            let line = text.take(n);
            let first = without_cr(line);
            let rest = text.skip(n + 1);
            assert forall|x: char| first.contains(x) implies line.contains(x) && text.contains(x) by {
                assert(line[first.index_of(x)] == x);
                assert(text[first.index_of(x)] == x);
            }
            assert forall|x: char| rest.contains(x) implies text.contains(x) by {
                assert(text[rest.index_of(x) + n + 1] == x);
            }
            assert(!line.contains('\n')) by {
                if line.contains('\n') {
                    assert(text[line.index_of('\n')] == '\n');
                }
            }
            lemma_lines_hold_no_feed(rest);
            let all = lines_of(text);
            assert(all[0] == first);
            assert forall|i: int| 1 <= i < all.len() implies #[trigger] all[i] == lines_of(rest)[i - 1] by {}
        }
    }
}

proof fn lemma_plain_strips_to_itself(lines: Seq<Seq<char>>)
    requires
        forall|i: int|
            0 <= i < lines.len() ==> strip_line(#[trigger] lines[i], scan_start()) == (
                lines[i],
                scan_start(),
            ),
    ensures
        strip_lines(lines, scan_start()) == joined_lines(lines),
    decreases lines.len(),
{
    if lines.len() > 0 {
        assert(strip_line(lines[0], scan_start()) == (lines[0], scan_start()));
        assert forall|i: int| 0 <= i < lines.drop_first().len() implies strip_line(
            #[trigger] lines.drop_first()[i],
            scan_start(),
        ) == (lines.drop_first()[i], scan_start()) by {
            assert(lines.drop_first()[i] == lines[i + 1]);
        }
        lemma_plain_strips_to_itself(lines.drop_first());
    }
}

/// A text without its comments has none left, and none is formed by stripping: to strip
/// it again changes nothing. The text has no carriage return, and no string of it is open
/// at the end of a line.
pub proof fn law_stripped_is_stable(text: Seq<char>)
    requires
        !text.contains('\r'),
        strings_close(lines_of(text), scan_start()),
    ensures
        stripped(stripped(text)) == stripped(text),
{
    let lines = lines_of(text);
    let empty: Seq<char> = Seq::empty();
    let left = lines_left(lines, scan_start(), empty);
    lemma_lines_hold_no_feed(text);
    assert(strip_line(empty, scan_start()) == (empty, scan_start()));
    lemma_lines_left_are_plain(lines, scan_start(), empty);
    lemma_lines_left_joined(lines, scan_start(), empty);
    assert(empty + strip_lines(lines, scan_start()) =~= strip_lines(lines, scan_start()));
    lemma_lines_of_joined(left);
    lemma_plain_strips_to_itself(left);
    lemma_joined_is_ended(left);
}

/// Whatever is left of a text ends in a line feed.
pub proof fn law_stripped_ends_in_a_line_feed(text: Seq<char>)
    ensures
        stripped(text).len() > 0 ==> stripped(text).last() == '\n',
{
}

/// A scan in progress.
struct Stripper {
    block: bool,
    string: bool,
    escaped: bool,
}

impl Stripper {
    spec fn scan(self) -> Scan {
        Scan { block: self.block, string: self.string, escaped: self.escaped }
    }

    /// Reads one line and returns what is left of it.
    fn line(&mut self, text: &str) -> (r: String)
        ensures
            (r@, final(self).scan()) == strip_line(text@, old(self).scan()),
    {
        let chars = to_chars(text);
        let mut kept = String::new();
        let mut i: usize = 0;
        let ghost whole = strip_line(text@, self.scan());
        assert(chars@.skip(0) =~= chars@);
        assert(kept@ + whole.0 =~= whole.0);
        while i < chars.len()
            invariant
                chars@ == text@,
                i <= chars@.len(),
                whole == strip_line(text@, old(self).scan()),
                kept@ + strip_line(chars@.skip(i as int), self.scan()).0 == whole.0,
                strip_line(chars@.skip(i as int), self.scan()).1 == whole.1,
            decreases chars@.len() - i,
        {
            let ghost rest = chars@.skip(i as int);
            let ghost st = self.scan();
            let ghost done = kept@;
            let c = chars[i];
            let more: bool = i + 1 < chars.len();
            proof {
                assert(rest.drop_first() =~= chars@.skip(i + 1));
                if more {
                    assert(rest.skip(2) =~= chars@.skip(i + 2));
                    assert(rest[1] == chars@[i + 1]);
                }
            }
            if self.block {
                if c == '*' && more && chars[i + 1] == '/' {
                    i += 1;
                    self.block = false;
                }
            } else if self.string {
                kept.push(c);
                if self.escaped {
                    self.escaped = false;
                } else if c == '\\' {
                    self.escaped = true;
                } else if c == '"' {
                    self.string = false;
                }
                proof {
                    let inner = strip_line(rest.drop_first(), self.scan()).0;
                    assert(done.push(c) + inner =~= done + (seq![c] + inner));
                }
            } else if c == '"' {
                self.string = true;
                kept.push(c);
                proof {
                    let inner = strip_line(rest.drop_first(), self.scan()).0;
                    assert(done.push(c) + inner =~= done + (seq![c] + inner));
                }
            } else if c == '/' && more && chars[i + 1] == '*' {
                i += 1;
                self.block = true;
            } else if c == '/' && more && chars[i + 1] == '/' {
                assert(done + Seq::<char>::empty() =~= done);
                return kept;
            } else {
                kept.push(c);
                proof {
                    let inner = strip_line(rest.drop_first(), self.scan()).0;
                    assert(done.push(c) + inner =~= done + (seq![c] + inner));
                }
            }
            i += 1;
        }
        assert(chars@.skip(i as int) =~= Seq::empty());
        assert(kept@ + Seq::<char>::empty() =~= kept@);
        kept
    }
}

/// Strips the line and block comments of JSON with comments.
pub fn strip_jsonc_comments(content: &str) -> (r: String)
    ensures
        r@ == stripped(content@),
{
    let all = lines(content);
    let ghost views = lines_of(content@);
    let ghost whole = strip_lines(views, scan_start());
    proof {
        lemma_lines_hold_no_feed(content@);
    }
    let mut clean = String::new();
    let mut scan = Stripper { block: false, string: false, escaped: false };
    // Whether a line was begun and has no line feed yet.
    let mut begun: bool = false;
    let mut i: usize = 0;
    assert(views.skip(0) =~= views);
    assert(clean@ + whole =~= whole);
    while i < all.len()
        invariant
            views == texts(all@),
            i <= all@.len(),
            clean@ + strip_lines(views.skip(i as int), scan.scan()) == whole,
            begun == (clean@.len() > 0 && clean@.last() != '\n'),
            forall|k: int| 0 <= k < views.len() ==> !(#[trigger] views[k]).contains('\n'),
        decreases all@.len() - i,
    {
        let ghost rest = views.skip(i as int);
        let ghost done = clean@;
        assert(rest[0] == all@[i as int]@);
        assert(rest.drop_first() =~= views.skip(i + 1));
        let ghost before = scan.scan();
        let kept = scan.line(all[i].as_str());
        proof {
            assert(views[i as int] == all@[i as int]@);
            lemma_kept_chars(views[i as int], before);
            if kept@.len() > 0 {
                assert(kept@.contains(kept@.last()));
                assert((done + kept@).last() == kept@.last());
            } else {
                assert(done + kept@ =~= done);
            }
        }
        clean.append(kept.as_str());
        if !scan.block {
            clean.push('\n');
            begun = false;
        } else if !kept.as_str().is_empty() {
            begun = true;
        }
        proof {
            let tail = strip_lines(rest.drop_first(), scan.scan());
            assert((done + kept@).push('\n') + tail =~= done + (kept@.push('\n') + tail));
            assert((done + kept@) + tail =~= done + (kept@ + tail));
        }
        i += 1;
    }
    assert(views.skip(i as int) =~= Seq::empty());
    assert(clean@ + Seq::<char>::empty() =~= clean@);
    if begun {
        clean.push('\n');
    }
    clean
}

/// A line comment is dropped up to the end of its line, and a block comment up to its end;
/// what stands before and after it is kept.
pub proof fn law_comments_are_dropped(code: Seq<char>, comment: Seq<char>, rest: Seq<char>)
    requires
        is_plain(code, scan_start()),
        !after_chars(code, scan_start()).string,
        code.len() > 0 ==> code.last() != '/',
        forall|i: int|
            0 <= i < comment.len() - 1 ==> !(#[trigger] comment[i] == '*' && comment[i + 1] == '/'),
        comment.len() > 0 ==> comment.last() != '*',
    ensures
        strip_line(code + seq!['/', '/'] + rest, scan_start()).0 == code,
        strip_line(code + seq!['/', '*'] + comment + seq!['*', '/'] + rest, scan_start()).0 == code
            + strip_line(rest, scan_start()).0,
        strip_line(code + seq!['/', '*'] + comment, scan_start()).0 == code,
        strip_line(code + seq!['/', '*'] + comment, scan_start()).1.block,
{
    let start = scan_start();
    lemma_plain_line(code, start);
    lemma_kept_chars(code, start);
    assert(after_chars(code, start) == start);
    let a = seq!['/', '/'] + rest;
    assert(code + seq!['/', '/'] + rest =~= code + a);
    lemma_kept_then(code, a, start);
    assert(strip_line(a, start).0.len() == 0);
    assert(code + strip_line(a, start).0 =~= code);

    let open = Scan { block: true, ..start };
    let tail = comment + seq!['*', '/'] + rest;
    let b = seq!['/', '*'] + tail;
    assert(code + seq!['/', '*'] + comment + seq!['*', '/'] + rest =~= code + b);
    lemma_kept_then(code, b, start);
    assert(b.skip(2) =~= tail);
    lemma_block_ends(comment, rest, open);
    assert(Scan { block: false, ..open } == start);

    let c = seq!['/', '*'] + comment;
    assert(code + seq!['/', '*'] + comment =~= code + c);
    lemma_kept_then(code, c, start);
    assert(c.skip(2) =~= comment);
    lemma_block_stays(comment, open);
    assert(code + strip_line(c, start).0 =~= code);
}

proof fn lemma_block_ends(comment: Seq<char>, rest: Seq<char>, st: Scan)
    requires
        st.block,
        forall|i: int|
            0 <= i < comment.len() - 1 ==> !(#[trigger] comment[i] == '*' && comment[i + 1] == '/'),
        comment.len() > 0 ==> comment.last() != '*',
    ensures
        strip_line(comment + seq!['*', '/'] + rest, st) == strip_line(
            rest,
            Scan { block: false, ..st },
        ),
    decreases comment.len(),
{
    let whole = comment + seq!['*', '/'] + rest;
    if comment.len() == 0 {
        assert(whole.skip(2) =~= rest);
        assert(whole[0] == '*' && whole[1] == '/');
    } else {
        let shorter = comment.drop_first();
        assert(whole.drop_first() =~= shorter + seq!['*', '/'] + rest);
        assert(whole[0] == comment[0]);
        if comment.len() > 1 {
            assert(whole[1] == comment[1]);
            assert(!(comment[0] == '*' && comment[1] == '/'));
        }
        assert forall|i: int| 0 <= i < shorter.len() - 1 implies !(#[trigger] shorter[i] == '*'
            && shorter[i + 1] == '/') by {
            assert(!(comment[i + 1] == '*' && comment[i + 1 + 1] == '/'));
        }
        lemma_block_ends(shorter, rest, st);
    }
}

proof fn lemma_block_stays(comment: Seq<char>, st: Scan)
    requires
        st.block,
        forall|i: int|
            0 <= i < comment.len() - 1 ==> !(#[trigger] comment[i] == '*' && comment[i + 1] == '/'),
    ensures
        strip_line(comment, st).0.len() == 0,
        strip_line(comment, st).1 == st,
    decreases comment.len(),
{
    if comment.len() > 0 {
        let shorter = comment.drop_first();
        if comment.len() > 1 {
            assert(!(comment[0] == '*' && comment[1] == '/'));
        }
        assert forall|i: int| 0 <= i < shorter.len() - 1 implies !(#[trigger] shorter[i] == '*'
            && shorter[i + 1] == '/') by {
            assert(!(comment[i + 1] == '*' && comment[i + 1 + 1] == '/'));
        }
        lemma_block_stays(shorter, st);
    }
}

/// A string opens and closes at a quote, and a backslash takes the next character with it:
/// what stands in a string is kept, comments or not.
pub proof fn law_strings_are_kept(text: Seq<char>, rest: Seq<char>)
    requires
        forall|i: int| 0 <= i < text.len() ==> #[trigger] text[i] != '"' && text[i] != '\\',
    ensures
        strip_line(seq!['"'] + text + seq!['"'] + rest, scan_start()).0 == seq!['"'] + text + seq![
            '"',
        ] + strip_line(rest, scan_start()).0,
        strip_line(seq!['"', '\\', '"'] + text + seq!['"'] + rest, scan_start()).0 == seq![
            '"',
            '\\',
            '"',
        ] + text + seq!['"'] + strip_line(rest, scan_start()).0,
{
    let start = scan_start();
    let inner = Scan { string: true, ..start };
    let tail = text + seq!['"'] + rest;
    lemma_inside_string(text, rest, inner);
    let a = seq!['"'] + tail;
    assert(seq!['"'] + text + seq!['"'] + rest =~= a);
    assert(a.drop_first() =~= tail);
    assert(strip_line(a, start).0 == seq!['"'] + strip_line(tail, inner).0);
    assert(strip_line(a, start).0 =~= seq!['"'] + text + seq!['"'] + strip_line(rest, start).0);
    let d = seq!['"'] + tail;
    let e = seq!['\\'] + d;
    let b = seq!['"'] + e;
    assert(seq!['"', '\\', '"'] + text + seq!['"'] + rest =~= b);
    assert(b.drop_first() =~= e);
    assert(e.drop_first() =~= d);
    assert(d.drop_first() =~= tail);
    let escaped = Scan { escaped: true, ..inner };
    assert(strip_line(d, escaped).0 == seq!['"'] + strip_line(tail, inner).0);
    assert(strip_line(e, inner).0 == seq!['\\'] + strip_line(d, escaped).0);
    assert(strip_line(b, start).0 == seq!['"'] + strip_line(e, inner).0);
    assert(strip_line(b, start).0 =~= seq!['"', '\\', '"'] + text + seq!['"'] + strip_line(
        rest,
        start,
    ).0);
}

proof fn lemma_inside_string(text: Seq<char>, rest: Seq<char>, st: Scan)
    requires
        st == (Scan { string: true, ..scan_start() }),
        forall|i: int| 0 <= i < text.len() ==> #[trigger] text[i] != '"' && text[i] != '\\',
    ensures
        strip_line(text + seq!['"'] + rest, st).0 == text + seq!['"'] + strip_line(
            rest,
            scan_start(),
        ).0,
    decreases text.len(),
{
    let whole = text + seq!['"'] + rest;
    if text.len() == 0 {
        assert(whole.drop_first() =~= rest);
        assert(whole[0] == '"');
        assert(strip_line(whole, st).0 =~= text + seq!['"'] + strip_line(rest, scan_start()).0);
    } else {
        let shorter = text.drop_first();
        assert(whole.drop_first() =~= shorter + seq!['"'] + rest);
        assert(whole[0] == text[0]);
        assert(text[0] != '"' && text[0] != '\\');
        assert forall|i: int| 0 <= i < shorter.len() implies #[trigger] shorter[i] != '"' && shorter[i]
            != '\\' by {
            assert(text[i + 1] != '"');
        }
        lemma_inside_string(shorter, rest, st);
        let kept = strip_line(shorter + seq!['"'] + rest, st).0;
        assert(seq![text[0]] + kept =~= text + seq!['"'] + strip_line(rest, scan_start()).0);
    }
}

/// Lines are stripped one after the other, each from where the one before it left off; a line
/// feed is kept unless a block comment is open there.
pub proof fn law_lines_are_stripped_in_order(line: Seq<char>, rest: Seq<Seq<char>>, st: Scan)
    ensures
        ({
            let (kept, end) = strip_line(line, st);
            &&& strip_lines(Seq::empty(), st).len() == 0
            &&& !end.block ==> strip_lines(seq![line] + rest, st) == kept + seq!['\n']
                + strip_lines(rest, end)
            &&& end.block ==> strip_lines(seq![line] + rest, st) == kept + strip_lines(rest, end)
        }),
{
    let (kept, end) = strip_line(line, st);
    assert((seq![line] + rest).drop_first() =~= rest);
    assert(kept + seq!['\n'] =~= kept.push('\n'));
}

/// A text is stripped from outside of comments and strings, and what is left of its last line
/// ends in a line feed.
pub proof fn law_text_is_stripped_from_its_start(text: Seq<char>)
    ensures
        ({
            let left = strip_lines(
                lines_of(text),
                (Scan { block: false, string: false, escaped: false }),
            );
            &&& left.len() == 0 ==> stripped(text).len() == 0
            &&& left.len() > 0 && left.last() == '\n' ==> stripped(text) == left
            &&& left.len() > 0 && left.last() != '\n' ==> stripped(text) == left + seq!['\n']
        }),
{
    let left = strip_lines(lines_of(text), scan_start());
    assert(left + seq!['\n'] =~= left.push('\n'));
}

} // verus!
