//! Cleaning of text that comes from outside before it is shown or exported.
use crate::text::scan::{
    is_white, law_contained_text_is_found, lemma_word_len, matches_at, occurs_at, white, word_len,
};
use crate::text::to_chars;
use vstd::prelude::*;
use vstd::string::*;

verus! {

/// Control characters, and the marks that turn the direction of the text.
pub open spec fn is_terminal_control(c: char) -> bool {
    ||| c <= '\u{1f}'
    ||| '\u{7f}' <= c <= '\u{9f}'
    ||| c == '\u{61c}'
    ||| c == '\u{200e}'
    ||| c == '\u{200f}'
    ||| '\u{202a}' <= c <= '\u{202e}'
    ||| '\u{2066}' <= c <= '\u{2069}'
}

/// `s` without its terminal control characters.
pub open spec fn sanitized(s: Seq<char>) -> Seq<char> {
    s.filter(|c: char| !is_terminal_control(c))
}

/// Whether `s` begins with one of the known prefixes of secret tokens.
pub open spec fn starts_secret(s: Seq<char>) -> bool {
    ||| occurs_at(s, "sk-ant-"@, 0)
    ||| occurs_at(s, "sk-proj-"@, 0)
    ||| occurs_at(s, "ghp_"@, 0)
    ||| occurs_at(s, "github_pat_"@, 0)
    ||| occurs_at(s, "xoxb-"@, 0)
}

/// `s` with each secret token, up to the next white space, replaced by a mark.
pub open spec fn redacted(s: Seq<char>) -> Seq<char>
    decreases s.len(),
{
    if s.len() == 0 {
        s
    } else if starts_secret(s) {
        proof {
            lemma_secret_head(s);
            lemma_word_len(s);
        }
        "[REDACTED]"@ + redacted(s.skip(word_len(s) as int))
    } else {
        seq![s[0]] + redacted(s.drop_first())
    }
}

/// A secret prefix begins with one of three letters.
pub proof fn lemma_secret_head(s: Seq<char>)
    requires
        starts_secret(s),
    ensures
        s.len() > 0,
        s[0] == 's' || s[0] == 'g' || s[0] == 'x',
{
    reveal_strlit("sk-ant-");
    reveal_strlit("sk-proj-");
    reveal_strlit("ghp_");
    reveal_strlit("github_pat_");
    reveal_strlit("xoxb-");
    assert forall|p: Seq<char>| p.len() > 0 && occurs_at(s, p, 0) implies s.len() > 0 && s[0] == p[0] by {
        assert(s.subrange(0, p.len() as int)[0] == s[0]);
    }
    assert("sk-ant-"@[0] == 's' && "sk-proj-"@[0] == 's' && "ghp_"@[0] == 'g' && "github_pat_"@[0] == 'g'
        && "xoxb-"@[0] == 'x');
}

/// A text without an opening bracket that stands at the head of a redacted text
/// stands at the head of the text itself.
proof fn lemma_head_survives(s: Seq<char>, p: Seq<char>)
    requires
        !p.contains('['),
        occurs_at(redacted(s), p, 0),
    ensures
        occurs_at(s, p, 0),
    decreases s.len(),
{
    let out = redacted(s);
    if p.len() == 0 {
        assert(s.subrange(0, 0) =~= p);
    } else {
        assert(out.subrange(0, p.len() as int)[0] == p[0]);
        if starts_secret(s) {
            reveal_strlit("[REDACTED]");
            assert(out[0] == '[');
            assert(p.contains(p[0]));
        } else {
            let rest = redacted(s.drop_first());
            let q = p.drop_first();
            assert forall|c: char| q.contains(c) implies p.contains(c) by {
                assert(p[q.index_of(c) + 1] == c);
            }
            assert(rest.subrange(0, q.len() as int) =~= q) by {
                assert forall|i: int| 0 <= i < q.len() implies rest[i] == q[i] by {
                    assert(out.subrange(0, p.len() as int)[i + 1] == p[i + 1]);
                    assert(out[i + 1] == rest[i]);
                }
            }
            lemma_head_survives(s.drop_first(), q);
            assert(s.subrange(0, p.len() as int) =~= p) by {
                assert forall|i: int| 0 <= i < p.len() implies s[i] == p[i] by {
                    if i > 0 {
                        assert(s.drop_first().subrange(0, q.len() as int)[i - 1] == q[i - 1]);
                    }
                }
            }
        }
    }
}

/// Redaction leaves no secret at the head of a text.
proof fn lemma_redacted_head(s: Seq<char>)
    ensures
        !starts_secret(redacted(s)),
{
    if starts_secret(redacted(s)) {
        if s.len() > 0 {
            if starts_secret(s) {
                reveal_strlit("[REDACTED]");
                lemma_secret_head(redacted(s));
            } else {
                reveal_strlit("sk-ant-");
                reveal_strlit("sk-proj-");
                reveal_strlit("ghp_");
                reveal_strlit("github_pat_");
                reveal_strlit("xoxb-");
                if occurs_at(redacted(s), "sk-ant-"@, 0) {
                    lemma_head_survives(s, "sk-ant-"@);
                } else if occurs_at(redacted(s), "sk-proj-"@, 0) {
                    lemma_head_survives(s, "sk-proj-"@);
                } else if occurs_at(redacted(s), "ghp_"@, 0) {
                    lemma_head_survives(s, "ghp_"@);
                } else if occurs_at(redacted(s), "github_pat_"@, 0) {
                    lemma_head_survives(s, "github_pat_"@);
                } else {
                    lemma_head_survives(s, "xoxb-"@);
                }
            }
        } else {
            lemma_secret_head(redacted(s));
        }
    }
}

/// No secret token begins anywhere in a redacted text.
pub proof fn law_redacted_has_no_secret(s: Seq<char>, at: int)
    requires
        0 <= at <= redacted(s).len(),
    ensures
        !starts_secret(redacted(s).skip(at)),
    decreases s.len(),
{
    let out = redacted(s);
    lemma_redacted_head(s);
    assert(out.skip(0) =~= out);
    if at > 0 && s.len() > 0 {
        if starts_secret(s) {
            lemma_secret_head(s);
            lemma_word_len(s);
            let rest = s.skip(word_len(s) as int);
            reveal_strlit("[REDACTED]");
            if at < 10 {
                if starts_secret(out.skip(at)) {
                    lemma_secret_head(out.skip(at));
                    assert(out.skip(at)[0] == "[REDACTED]"@[at]);
                }
            } else {
                assert(out.skip(at) =~= redacted(rest).skip(at - 10));
                law_redacted_has_no_secret(rest, at - 10);
            }
        } else {
            assert(out.skip(at) =~= redacted(s.drop_first()).skip(at - 1));
            law_redacted_has_no_secret(s.drop_first(), at - 1);
        }
    }
}

/// A text without secrets is left as it is.
proof fn lemma_redacted_keeps(s: Seq<char>)
    requires
        forall|at: int| 0 <= at <= s.len() ==> !starts_secret(#[trigger] s.skip(at)),
    ensures
        redacted(s) == s,
    decreases s.len(),
{
    if s.len() > 0 {
        assert(s.skip(0) =~= s);
        let rest = s.drop_first();
        assert forall|at: int| 0 <= at <= rest.len() implies !starts_secret(#[trigger] rest.skip(at)) by {
            assert(rest.skip(at) =~= s.skip(at + 1));
        }
        lemma_redacted_keeps(rest);
        assert(seq![s[0]] + rest =~= s);
    }
}

/// Redacting a text once more changes nothing.
pub proof fn law_redacted_is_stable(s: Seq<char>)
    ensures
        redacted(redacted(s)) == redacted(s),
{
    assert forall|at: int| 0 <= at <= redacted(s).len() implies !starts_secret(
        #[trigger] redacted(s).skip(at),
    ) by {
        law_redacted_has_no_secret(s, at);
    }
    lemma_redacted_keeps(redacted(s));
}

/// What is left of a text holds no terminal control character.
pub proof fn law_sanitized_is_printable(s: Seq<char>, i: int)
    requires
        0 <= i < sanitized(s).len(),
    ensures
        !is_terminal_control(sanitized(s)[i]),
{
    s.lemma_filter_pred(|c: char| !is_terminal_control(c), i);
}

/// Redaction brings no terminal control character in.
pub proof fn law_redacted_stays_printable(s: Seq<char>, i: int)
    requires
        forall|k: int| 0 <= k < s.len() ==> !is_terminal_control(#[trigger] s[k]),
        0 <= i < redacted(s).len(),
    ensures
        !is_terminal_control(redacted(s)[i]),
    decreases s.len(),
{
    if s.len() > 0 {
        if starts_secret(s) {
            lemma_secret_head(s);
            lemma_word_len(s);
            reveal_strlit("[REDACTED]");
            if i >= 10 {
                law_redacted_stays_printable(s.skip(word_len(s) as int), i - 10);
            }
        } else if i > 0 {
            law_redacted_stays_printable(s.drop_first(), i - 1);
        }
    }
}

fn terminal_control(c: char) -> (r: bool)
    ensures
        r == is_terminal_control(c),
{
    c <= '\u{1f}' || ('\u{7f}' <= c && c <= '\u{9f}') || c == '\u{61c}' || c == '\u{200e}' || c
        == '\u{200f}' || ('\u{202a}' <= c && c <= '\u{202e}') || ('\u{2066}' <= c && c <= '\u{2069}')
}

/// Drops terminal control characters.
pub fn sanitize_terminal_text(raw: &str) -> (r: String)
    ensures
        r@ == sanitized(raw@),
{
    let chars = to_chars(raw);
    let mut out = String::new();
    let mut i: usize = 0;
    let ghost keep = |c: char| !is_terminal_control(c);
    proof {
        reveal(Seq::filter);
        assert(chars@.take(0) =~= Seq::<char>::empty());
    }
    while i < chars.len()
        invariant
            i <= chars@.len(),
            keep == (|c: char| !is_terminal_control(c)),
            out@ == chars@.take(i as int).filter(keep),
        decreases chars@.len() - i,
    {
        proof {
            reveal(Seq::filter);
            assert(chars@.take(i + 1).drop_last() =~= chars@.take(i as int));
        }
        if !terminal_control(chars[i]) {
            out.push(chars[i]);
        }
        i += 1;
    }
    assert(chars@.take(i as int) =~= chars@);
    out
}

fn secret_starts(chars: &Vec<char>, at: usize) -> (r: bool)
    requires
        at <= chars@.len(),
    ensures
        r == starts_secret(chars@.skip(at as int)),
{
    prefix_at(chars, "sk-ant-", at) || prefix_at(chars, "sk-proj-", at) || prefix_at(
        chars,
        "ghp_",
        at,
    ) || prefix_at(chars, "github_pat_", at) || prefix_at(chars, "xoxb-", at)
}

fn prefix_at(chars: &Vec<char>, prefix: &str, at: usize) -> (r: bool)
    requires
        at <= chars@.len(),
    ensures
        r == occurs_at(chars@.skip(at as int), prefix@, 0),
{
    let p = to_chars(prefix);
    let r = matches_at(chars, &p, at);
    proof {
        let n = prefix@.len() as int;
        if at + n <= chars@.len() {
            assert(chars@.skip(at as int).subrange(0, n) =~= chars@.subrange(at as int, at + n));
        }
    }
    r
}

/// Replaces each secret token, up to the next white space, by a mark.
pub fn redact_secrets(text: &str) -> (r: String)
    ensures
        r@ == redacted(text@),
{
    let chars = to_chars(text);
    let mut out = String::new();
    let mut i: usize = 0;
    assert(chars@.skip(0) =~= chars@);
    assert(out@ + redacted(chars@) =~= redacted(chars@));
    while i < chars.len()
        invariant
            i <= chars@.len(),
            out@ + redacted(chars@.skip(i as int)) == redacted(chars@),
        decreases chars@.len() - i,
    {
        let ghost rest = chars@.skip(i as int);
        let ghost done = out@;
        if secret_starts(&chars, i) {
            let start: usize = i;
            proof {
                lemma_secret_head(rest);
                lemma_word_len(rest);
            }
            while i < chars.len() && !white(chars[i])
                invariant
                    start <= i <= chars@.len(),
                    rest == chars@.skip(start as int),
                    i - start <= word_len(rest),
                    word_len(rest) <= rest.len(),
                    forall|k: int| 0 <= k < word_len(rest) ==> !crate::text::scan::is_white(#[trigger] rest[k]),
                    word_len(rest) < rest.len() ==> crate::text::scan::is_white(rest[word_len(rest) as int]),
                decreases chars@.len() - i,
            {
                i += 1;
            }
            out.append("[REDACTED]");
            proof {
                assert(i - start == word_len(rest)) by {
                    if i - start < word_len(rest) {
                        assert(rest[i - start] == chars@[i as int]);
                    }
                }
                assert(rest.skip(word_len(rest) as int) =~= chars@.skip(i as int));
                assert(out@ + redacted(chars@.skip(i as int)) =~= done + redacted(rest));
            }
        } else {
            out.push(chars[i]);
            proof {
                assert(rest.drop_first() =~= chars@.skip(i + 1));
                assert(out@ + redacted(chars@.skip(i + 1)) =~= done + redacted(rest));
            }
            i += 1;
        }
    }
    assert(out@ + redacted(chars@.skip(i as int)) =~= out@);
    out
}

/// What starts with one of the known prefixes is a secret, and nothing else is.
pub proof fn law_secrets_are_known_by_their_prefix(rest: Seq<char>, s: Seq<char>)
    ensures
        starts_secret("sk-ant-"@ + rest),
        starts_secret("sk-proj-"@ + rest),
        starts_secret("ghp_"@ + rest),
        starts_secret("github_pat_"@ + rest),
        starts_secret("xoxb-"@ + rest),
        starts_secret(s) ==> occurs_at(s, "sk-ant-"@, 0) || occurs_at(s, "sk-proj-"@, 0)
            || occurs_at(s, "ghp_"@, 0) || occurs_at(s, "github_pat_"@, 0) || occurs_at(
            s,
            "xoxb-"@,
            0,
        ),
{
    let empty: Seq<char> = Seq::empty();
    law_contained_text_is_found(empty, "sk-ant-"@, rest, s);
    law_contained_text_is_found(empty, "sk-proj-"@, rest, s);
    law_contained_text_is_found(empty, "ghp_"@, rest, s);
    law_contained_text_is_found(empty, "github_pat_"@, rest, s);
    law_contained_text_is_found(empty, "xoxb-"@, rest, s);
}

/// A secret is blanked out up to the next white space; any other character is kept.
pub proof fn law_secrets_are_blanked_out(word: Seq<char>, rest: Seq<char>, s: Seq<char>)
    requires
        forall|i: int| 0 <= i < word.len() ==> !is_white(#[trigger] word[i]),
        rest.len() > 0 ==> is_white(rest[0]),
    ensures
        starts_secret(word + rest) && word.len() > 0 ==> redacted(word + rest) == "[REDACTED]"@
            + redacted(rest),
        s.len() > 0 && !starts_secret(s) ==> redacted(s) == seq![s[0]] + redacted(s.drop_first()),
        redacted(Seq::empty()).len() == 0,
{
    if starts_secret(word + rest) && word.len() > 0 {
        let whole = word + rest;
        lemma_word_len(whole);
        let n = word_len(whole) as int;
        assert(n == word.len()) by {
            if n < word.len() {
                assert(whole[n] == word[n]);
                assert(!is_white(word[n]));
            }
            if n > word.len() {
                assert(!is_white(whole[word.len() as int]));
                assert(whole[word.len() as int] == rest[0]);
            }
        }
        assert(whole.skip(n) =~= rest);
    }
}

/// The characters that steer a terminal are the control characters and those that change the
/// direction of text; letters, digits and marks of ASCII and other letters are kept.
pub proof fn law_control_characters(c: char, s: Seq<char>)
    ensures
        c <= '\u{1f}' ==> is_terminal_control(c),
        '\u{7f}' <= c <= '\u{9f}' ==> is_terminal_control(c),
        c == '\u{61c}' || c == '\u{200e}' || c == '\u{200f}' ==> is_terminal_control(c),
        '\u{202a}' <= c <= '\u{202e}' || '\u{2066}' <= c <= '\u{2069}' ==> is_terminal_control(c),
        ' ' <= c <= '~' ==> !is_terminal_control(c),
        '\u{a0}' <= c <= '\u{61b}' ==> !is_terminal_control(c),
        '\u{61d}' <= c <= '\u{200d}' ==> !is_terminal_control(c),
        '\u{206a}' <= c ==> !is_terminal_control(c),
        is_terminal_control(c) ==> sanitized(s.push(c)) == sanitized(s),
        !is_terminal_control(c) ==> sanitized(s.push(c)) == sanitized(s).push(c),
        sanitized(Seq::empty()).len() == 0,
{
    reveal(Seq::filter);
    assert(s.push(c).drop_last() =~= s);
}

} // verus!
