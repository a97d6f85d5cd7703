//! Byte lengths of text in UTF-8.
use vstd::prelude::*;
use vstd::string::*;
use vstd::utf8::*;

verus! {

/// The length of `s` in UTF-8 bytes.
pub open spec fn byte_len(s: Seq<char>) -> nat {
    encode_utf8(s).len()
}

/// The longest prefix of `s` that fits into `max` UTF-8 bytes.
pub open spec fn fitting(s: Seq<char>, max: nat) -> Seq<char>
    decreases s.len(),
{
    if s.len() == 0 || byte_len(s) <= max {
        s
    } else {
        fitting(s.drop_last(), max)
    }
}

/// Encoding distributes over concatenation.
proof fn lemma_encode_concat(a: Seq<char>, b: Seq<char>)
    ensures
        encode_utf8(a + b) == encode_utf8(a) + encode_utf8(b),
    decreases a.len(),
{
    if a.len() == 0 {
        assert(a + b =~= b);
        assert(encode_utf8(a) + encode_utf8(b) =~= encode_utf8(b));
    } else {
        assert((a + b).drop_first() =~= a.drop_first() + b);
        lemma_encode_concat(a.drop_first(), b);
        assert(encode_utf8(a + b) =~= encode_utf8(a) + encode_utf8(b));
    }
}

/// A prefix takes no more bytes than the whole.
pub proof fn lemma_byte_len_prefix(s: Seq<char>, k: int)
    requires
        0 <= k <= s.len(),
    ensures
        byte_len(s.take(k)) <= byte_len(s),
        k < s.len() ==> byte_len(s.take(k)) < byte_len(s),
{
    assert(s =~= s.take(k) + s.skip(k));
    lemma_encode_concat(s.take(k), s.skip(k));
    if k < s.len() {
        assert(encode_scalar(s.skip(k)[0] as u32).len() > 0);
    }
}

/// Where a prefix ends, the bytes have a character boundary.
proof fn lemma_prefix_boundary(s: Seq<char>, k: int)
    requires
        0 <= k <= s.len(),
    ensures
        is_char_boundary(encode_utf8(s), byte_len(s.take(k)) as int),
    decreases s.len(),
{
    broadcast use encode_utf8_valid_utf8;

    if k > 0 {
        let rest = s.drop_first();
        lemma_prefix_boundary(rest, k - 1);
        assert(s.take(k).drop_first() =~= rest.take(k - 1));
        encode_utf8_first_scalar(s);
        assert(pop_first_scalar(encode_utf8(s)) =~= encode_utf8(rest));
        lemma_byte_len_prefix(s, k);
    }
}

/// A prefix that fits, and that the next character would take over the limit,
/// is the longest that fits.
proof fn lemma_fitting_is(s: Seq<char>, max: nat, k: int)
    requires
        0 <= k <= s.len(),
        byte_len(s.take(k)) <= max,
        k < s.len() ==> byte_len(s.take(k + 1)) > max,
    ensures
        fitting(s, max) == s.take(k),
    decreases s.len(),
{
    if k == s.len() {
        assert(s.take(k) =~= s);
    } else {
        assert(s.take(k + 1).len() == k + 1);
        lemma_byte_len_prefix(s, k + 1);
        let front = s.drop_last();
        assert(front.take(k) =~= s.take(k));
        if k < front.len() {
            assert(front.take(k + 1) =~= s.take(k + 1));
        }
        lemma_fitting_is(front, max, k);
    }
}

/// The longest fitting prefix is a prefix and fits.
pub proof fn lemma_fitting(s: Seq<char>, max: nat)
    ensures
        fitting(s, max).len() <= s.len(),
        fitting(s, max) == s.take(fitting(s, max).len() as int),
        byte_len(fitting(s, max)) <= max,
    decreases s.len(),
{
    if s.len() == 0 || byte_len(s) <= max {
        assert(s.take(s.len() as int) =~= s);
    } else {
        lemma_fitting(s.drop_last(), max);
        let n = fitting(s, max).len() as int;
        assert(s.drop_last().take(n) =~= s.take(n));
    }
}

/// The longest prefix of `s` that fits into `max` bytes.
pub fn fit(s: &str, max: usize) -> (r: String)
    ensures
        r@ == fitting(s@, max as nat),
{
    broadcast use encode_utf8_valid_utf8;

    let bytes = s.as_bytes();
    if bytes.len() <= max {
        return s.to_owned();
    }
    let mut end: usize = max;
    while end > 0 && !s.is_char_boundary(end)
        invariant
            bytes@ == encode_utf8(s@),
            end <= max < bytes@.len(),
            forall|k: int| end < k <= max ==> !is_char_boundary(bytes@, k),
        decreases end,
    {
        end -= 1;
    }
    proof {
        is_char_boundary_start_end_of_seq(bytes@);
    }
    let (head, tail) = s.split_at(end);
    proof {
        decode_utf8_split(bytes@, end as int);
        encode_utf8_decode_utf8(s@);
        encode_utf8_decode_utf8(head@);
        encode_utf8_decode_utf8(tail@);
        assert(s@ =~= head@ + tail@);
        let k = head@.len() as int;
        assert(s@.take(k) =~= head@);
        if k < s@.len() {
            lemma_prefix_boundary(s@, k + 1);
            assert(s@.take(k + 1).take(k) =~= s@.take(k));
            lemma_byte_len_prefix(s@.take(k + 1), k);
        }
        lemma_fitting_is(s@, max as nat, k);
    }
    head.to_owned()
}

/// A text is cut to the longest prefix whose bytes fit: one more character would not.
pub proof fn law_longest_fitting_prefix(s: Seq<char>, max: nat, k: int)
    requires
        0 <= k <= s.len(),
        encode_utf8(s.take(k)).len() <= max,
        k < s.len() ==> encode_utf8(s.take(k + 1)).len() > max,
    ensures
        fitting(s, max) == s.take(k),
        encode_utf8(s).len() <= max ==> fitting(s, max) == s,
{
    lemma_fitting_is(s, max, k);
    if encode_utf8(s).len() <= max && k < s.len() {
        lemma_byte_len_prefix(s, k + 1);
    }
    assert(s.take(s.len() as int) =~= s);
}

} // verus!
