//! Paths as the collectors show them.
use crate::model::Platform;
use crate::text::scan::{occurs_at, starts_with};
use crate::text::{from_chars, to_chars};
use vstd::prelude::*;
use vstd::string::*;

verus! {

/// Whether a character separates the names of a path: `/`, and `\` on Windows.
pub open spec fn is_separator(c: char, platform: Platform) -> bool {
    c == '/' || (c == '\\' && platform == Platform::Windows)
}

/// The length of `path` up to and with its last separator; zero where it has none.
pub open spec fn name_start(path: Seq<char>, platform: Platform) -> int
    decreases path.len(),
{
    if path.len() == 0 {
        0
    } else if is_separator(path.last(), platform) {
        path.len() as int
    } else {
        name_start(path.drop_last(), platform)
    }
}

/// What follows the last separator of a path.
pub open spec fn last_name(path: Seq<char>, platform: Platform) -> Seq<char> {
    path.skip(name_start(path, platform))
}

/// What stands before the last separator of a path; nothing where it has none.
pub open spec fn parent_of(path: Seq<char>, platform: Platform) -> Seq<char> {
    let n = name_start(path, platform);
    if n == 0 {
        Seq::empty()
    } else {
        path.take(n - 1)
    }
}

proof fn lemma_name_start(path: Seq<char>, platform: Platform)
    ensures
        0 <= name_start(path, platform) <= path.len(),
    decreases path.len(),
{
    if path.len() > 0 {
        lemma_name_start(path.drop_last(), platform);
    }
}

/// A path without a separator from `n` on has a last name that reaches back to `n`.
pub proof fn lemma_last_name_keeps(path: Seq<char>, n: int, platform: Platform)
    requires
        0 <= n <= path.len(),
        forall|i: int| n <= i < path.len() ==> !is_separator(#[trigger] path[i], platform),
    ensures
        0 <= name_start(path, platform) <= n,
    decreases path.len(),
{
    if n < path.len() {
        assert(!is_separator(path[path.len() - 1], platform));
        lemma_last_name_keeps(path.drop_last(), n, platform);
    } else {
        lemma_name_start(path, platform);
    }
}

/// Whether a character separates the names of a path.
pub fn separates(c: char, platform: Platform) -> (r: bool)
    ensures
        r == is_separator(c, platform),
{
    c == '/' || (c == '\\' && platform == Platform::Windows)
}

fn find_name_start(chars: &Vec<char>, platform: Platform) -> (r: usize)
    ensures
        r == name_start(chars@, platform),
        r <= chars@.len(),
{
    proof {
        lemma_name_start(chars@, platform);
    }
    let mut i: usize = chars.len();
    assert(chars@.take(i as int) =~= chars@);
    while i > 0
        invariant
            i <= chars@.len(),
            name_start(chars@.take(i as int), platform) == name_start(chars@, platform),
        decreases i,
    {
        assert(chars@.take(i as int).drop_last() =~= chars@.take(i - 1));
        if separates(chars[i - 1], platform) {
            return i;
        }
        i -= 1;
    }
    0
}

/// The character between a directory and what lies below it.
pub open spec fn separator(platform: Platform) -> char {
    if platform == Platform::Windows {
        '\\'
    } else {
        '/'
    }
}

/// Whether a path is a drive of Windows alone, a letter and a colon. What follows it is
/// relative to the drive's current directory.
pub open spec fn is_drive(path: Seq<char>, platform: Platform) -> bool {
    &&& platform == Platform::Windows
    &&& path.len() == 2
    &&& ('a' <= path[0] <= 'z' || 'A' <= path[0] <= 'Z')
    &&& path[1] == ':'
}

/// `rest` below the directory `base`.
pub open spec fn joined(base: Seq<char>, rest: Seq<char>, platform: Platform) -> Seq<char> {
    if base.len() == 0 || is_separator(base.last(), platform) || is_drive(base, platform) {
        base + rest
    } else {
        base.push(separator(platform)) + rest
    }
}

/// `rest` below the directory `base`, for a relative path `rest`.
pub fn join(base: &str, rest: &str, platform: Platform) -> (r: String)
    ensures
        r@ == joined(base@, rest@, platform),
{
    let chars = to_chars(base);
    let mut out = base.to_owned();
    let drive: bool = platform == Platform::Windows && chars.len() == 2 && (('a' <= chars[0]
        && chars[0] <= 'z') || ('A' <= chars[0] && chars[0] <= 'Z')) && chars[1] == ':';
    if chars.len() > 0 && !drive && !separates(chars[chars.len() - 1], platform) {
        if platform == Platform::Windows {
            out.push('\\');
        } else {
            out.push('/');
        }
    }
    out.append(rest);
    out
}

/// The last name of a path, where it has one.
pub fn last_path_segment(path: &str, platform: Platform) -> (r: Option<String>)
    ensures
        match r {
            Some(name) => name@ == last_name(path@, platform) && name@.len() > 0,
            None => last_name(path@, platform).len() == 0,
        },
{
    let chars = to_chars(path);
    let start = find_name_start(&chars, platform);
    if start == chars.len() {
        None
    } else {
        let name = from_chars(&chars, start, chars.len());
        assert(name@ =~= last_name(path@, platform));
        Some(name)
    }
}

/// The directory that a path lies in.
pub fn parent_dir(path: &str, platform: Platform) -> (r: String)
    ensures
        r@ == parent_of(path@, platform),
{
    let chars = to_chars(path);
    let start = find_name_start(&chars, platform);
    if start == 0 {
        String::new()
    } else {
        let parent = from_chars(&chars, 0, start - 1);
        assert(parent@ =~= parent_of(path@, platform));
        parent
    }
}

/// A path as it is shown: with `~` for the home directory.
pub open spec fn abbreviated(path: Seq<char>, home: Option<&str>, platform: Platform) -> Seq<char> {
    match home {
        Some(h) => {
            let n = h@.len() as int;
            if n > 0 && occurs_at(path, h@, 0) && (path.len() == n || is_separator(path[n], platform)) {
                seq!['~'] + path.skip(n)
            } else {
                path
            }
        },
        None => path,
    }
}

/// A path as it is shown: with `~` for the home directory.
pub fn abbrev_path(path: &str, home: Option<&str>, platform: Platform) -> (r: String)
    ensures
        r@ == abbreviated(path@, home, platform),
{
    match home {
        Some(h) => {
            let chars = to_chars(path);
            let n: usize = to_chars(h).len();
            if n > 0 && starts_with(path, h) && (chars.len() == n || separates(chars[n], platform)) {
                let mut out = String::new();
                out.push('~');
                let rest = from_chars(&chars, n, chars.len());
                out.append(rest.as_str());
                assert(out@ =~= abbreviated(path@, home, platform));
                out
            } else {
                path.to_owned()
            }
        },
        None => path.to_owned(),
    }
}

/// The last name of a path is what follows its last separator.
pub proof fn lemma_last_name_is(head: Seq<char>, name: Seq<char>, platform: Platform)
    requires
        head.len() > 0 ==> is_separator(head.last(), platform),
        forall|i: int| 0 <= i < name.len() ==> !is_separator(#[trigger] name[i], platform),
    ensures
        name_start(head + name, platform) == head.len(),
        last_name(head + name, platform) == name,
    decreases name.len(),
{
    let path = head + name;
    if name.len() > 0 {
        assert(path.last() == name.last());
        assert(path.drop_last() =~= head + name.drop_last());
        lemma_last_name_is(head, name.drop_last(), platform);
    } else {
        assert(path =~= head);
    }
    assert(path.skip(head.len() as int) =~= name);
}

/// A path is split at its last separator: the name that follows it, and the directory that
/// stands before it.
pub proof fn law_path_is_split_at_its_last_separator(
    dir: Seq<char>,
    sep: char,
    name: Seq<char>,
    platform: Platform,
)
    requires
        sep == '/' || (sep == '\\' && platform == Platform::Windows),
        forall|i: int|
            0 <= i < name.len() ==> #[trigger] name[i] != '/' && (platform == Platform::Windows
                ==> name[i] != '\\'),
    ensures
        last_name(dir.push(sep) + name, platform) == name,
        parent_of(dir.push(sep) + name, platform) == dir,
        last_name(name, platform) == name,
        parent_of(name, platform).len() == 0,
{
    lemma_last_name_is(dir.push(sep), name, platform);
    lemma_last_name_is(Seq::empty(), name, platform);
    assert(Seq::<char>::empty() + name =~= name);
    assert((dir.push(sep) + name).take(dir.len() as int) =~= dir);
}

/// To join and to split are inverse, for a directory that does not end in a separator.
pub proof fn law_joined_splits_again(dir: Seq<char>, name: Seq<char>, platform: Platform)
    requires
        dir.len() > 2,
        dir.last() != '/' && dir.last() != '\\',
        forall|i: int| 0 <= i < name.len() ==> #[trigger] name[i] != '/' && name[i] != '\\',
    ensures
        last_name(joined(dir, name, platform), platform) == name,
        parent_of(joined(dir, name, platform), platform) == dir,
        joined(dir, name, platform) == dir + (if platform == Platform::Windows {
            seq!['\\']
        } else {
            seq!['/']
        }) + name,
{
    if platform == Platform::Windows {
        law_path_is_split_at_its_last_separator(dir, '\\', name, platform);
        assert(dir + seq!['\\'] =~= dir.push('\\'));
    } else {
        law_path_is_split_at_its_last_separator(dir, '/', name, platform);
        assert(dir + seq!['/'] =~= dir.push('/'));
    }
}

/// A directory that ends in a separator, an empty one and a drive alone are joined without
/// another separator.
pub proof fn law_joined_adds_no_second_separator(dir: Seq<char>, name: Seq<char>)
    ensures
        joined(Seq::empty(), name, Platform::Other) == name,
        joined(dir.push('/'), name, Platform::Other) == dir.push('/') + name,
        joined(dir.push('/'), name, Platform::MacOs) == dir.push('/') + name,
        joined(dir.push('/'), name, Platform::Windows) == dir.push('/') + name,
        joined(dir.push('\\'), name, Platform::Windows) == dir.push('\\') + name,
        joined(seq!['C', ':'], name, Platform::Windows) == seq!['C', ':'] + name,
{
    assert(Seq::<char>::empty() + name =~= name);
}

/// What lies in the home directory is shown behind `~`; a path beside it is shown whole.
pub proof fn law_home_is_abbreviated(home: &str, rest: Seq<char>, path: Seq<char>, platform: Platform)
    requires
        home@.len() > 0,
    ensures
        abbreviated(home@, Some(home), platform) == seq!['~'],
        abbreviated(home@.push('/') + rest, Some(home), platform) == seq!['~', '/'] + rest,
        rest.len() > 0 && rest[0] != '/' && rest[0] != '\\' ==> abbreviated(
            home@ + rest,
            Some(home),
            platform,
        ) == home@ + rest,
        path.len() < home@.len() ==> abbreviated(path, Some(home), platform) == path,
        abbreviated(path, None, platform) == path,
{
    let h = home@;
    let n = h.len() as int;
    assert(h.subrange(0, n) =~= h);
    assert(seq!['~'] + h.skip(n) =~= seq!['~']);
    let below = h.push('/') + rest;
    assert(below.subrange(0, n) =~= h);
    assert(seq!['~'] + below.skip(n) =~= seq!['~', '/'] + rest);
}

/// Nothing is put between a drive of Windows, whatever its letter, and what is relative to
/// it; a colon behind anything else, or elsewhere, is part of a name.
pub proof fn law_drives_have_a_letter(c: char, name: Seq<char>)
    ensures
        'a' <= c <= 'z' || 'A' <= c <= 'Z' ==> joined(seq![c, ':'], name, Platform::Windows) == seq![
            c,
            ':',
        ] + name,
        !('a' <= c <= 'z') && !('A' <= c <= 'Z') ==> joined(seq![c, ':'], name, Platform::Windows)
            == seq![c, ':', '\\'] + name,
        joined(seq![c, ':'], name, Platform::Other) == seq![c, ':', '/'] + name,
        joined(seq![c, c, ':'], name, Platform::Windows) == seq![c, c, ':', '\\'] + name,
        c != ':' && c != '/' && c != '\\' ==> joined(seq!['C', c], name, Platform::Windows) == seq![
            'C',
            c,
            '\\',
        ] + name,
{
    assert(seq!['C', c].push('\\') =~= seq!['C', c, '\\']);
    assert(seq![c, ':'].push('\\') =~= seq![c, ':', '\\']);
    assert(seq![c, ':'].push('/') =~= seq![c, ':', '/']);
    assert(seq![c, c, ':'].push('\\') =~= seq![c, c, ':', '\\']);
}

} // verus!
