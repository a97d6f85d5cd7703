//! What the files beside a session say: the branch that is checked out in its
//! directory, and the configured size of its model's context.
use super::jsonc::{strip_jsonc_comments, stripped};
use crate::json::{parse_json, parsed_json, Json, JsonTree};
use crate::text::scan::{
    after_last, law_text_is_cut_at_a_character, occurs_at, past_last, strip_prefix, trim, trimmed,
};
use crate::text::utf8::{
    byte_len, fit, fitting, law_longest_fitting_prefix, lemma_byte_len_prefix,
};
use vstd::prelude::*;
use vstd::string::*;
use vstd::utf8::*;

verus! {

/// Whether the content of a `HEAD` file names a reference, such as a branch.
pub open spec fn names_reference(head: Seq<char>) -> bool {
    occurs_at(trimmed(head), "ref: "@, 0)
}

/// Whether the content of a `HEAD` file names a branch.
pub open spec fn names_branch(head: Seq<char>) -> bool {
    occurs_at(trimmed(head), "ref: refs/heads/"@, 0)
}

/// What a `HEAD` file shows: the whole name of the branch; of a reference that is no
/// branch the last name; and else the first seven bytes of the commit, or nothing where
/// it is shorter than that.
pub open spec fn branch_of(head: Seq<char>) -> Seq<char> {
    let text = trimmed(head);
    if names_branch(head) {
        text.skip(16)
    } else if names_reference(head) {
        after_last(text.skip(5), '/')
    } else if byte_len(text) >= 7 {
        fitting(text, 7)
    } else {
        Seq::empty()
    }
}

/// Whether the first seven bytes of a `HEAD` file without a reference are characters
/// of their own, as those of a commit are.
pub open spec fn head_splits(head: Seq<char>) -> bool {
    names_reference(head) || byte_len(trimmed(head)) < 7 || byte_len(fitting(trimmed(head), 7)) == 7
}

/// The branch, or the short commit, that a `HEAD` file shows.
pub fn branch_of_head(head: &str) -> (r: String)
    requires
        head_splits(head@),
    ensures
        r@ == branch_of(head@),
{
    let text = trim(head);
    proof {
        reveal_strlit("ref: ");
        reveal_strlit("ref: refs/heads/");
        lemma_branch_is_reference(head@);
    }
    match strip_prefix(text.as_str(), "ref: refs/heads/") {
        Some(branch) => {
            return branch;
        },
        None => {},
    }
    match strip_prefix(text.as_str(), "ref: ") {
        Some(path) => past_last(path.as_str(), '/'),
        None => if text.as_str().as_bytes().len() >= 7 {
            fit(text.as_str(), 7)
        } else {
            String::new()
        },
    }
}

proof fn lemma_branch_is_reference(head: Seq<char>)
    ensures
        names_branch(head) ==> names_reference(head),
{
    reveal_strlit("ref: ");
    reveal_strlit("ref: refs/heads/");
    if names_branch(head) {
        let text = trimmed(head);
        let whole = text.subrange(0, 16);
        assert forall|i: int| 0 <= i < 5 implies text.subrange(0, 5)[i] == "ref: "@[i] by {
            assert(text[i] == whole[i]);
        }
        assert(text.subrange(0, 5) =~= "ref: "@);
    }
}

/// The size of a model's context in a configuration.
pub open spec fn limit_in(config: JsonTree, provider: Seq<char>, model: Seq<char>) -> Option<u64> {
    config.field("provider"@).field(provider).field("models"@).field(model).field("limit"@).field(
        "context"@,
    ).unsigned()
}

/// The size of a model's context in a configuration.
pub fn config_limit(config: &Json, provider: &str, model: &str) -> (r: Option<u64>)
    ensures
        r == limit_in(config@, provider@, model@),
{
    config.field("provider").field(provider).field("models").field(model).field("limit").field(
        "context",
    ).as_u64()
}

/// The size of a model's context in a configuration file: JSON with comments.
pub fn context_limit(content: &str, provider: &str, model: &str) -> (r: Option<u64>)
    ensures
        r == match parsed_json(stripped(content@)) {
            Some(config) => limit_in(config, provider@, model@),
            None => None,
        },
{
    let clean = strip_jsonc_comments(content);
    match parse_json(clean.as_str()) {
        Some(config) => config_limit(&config, provider, model),
        None => None,
    }
}

/// A branch is shown by its whole name, another reference by its last name, and a commit by
/// its first seven characters of ASCII.
pub proof fn law_branch_is_shown(head: Seq<char>, name: Seq<char>, path: Seq<char>)
    ensures
        trimmed(head) == "ref: refs/heads/"@ + name ==> branch_of(head) == name,
        trimmed(head) == "ref: "@ + path.push('/') + name && !name.contains('/') && !occurs_at(
            trimmed(head),
            "ref: refs/heads/"@,
            0,
        ) ==> branch_of(head) == name,
        !occurs_at(trimmed(head), "ref: "@, 0) && encode_utf8(trimmed(head)).len() >= 7
            && encode_utf8(trimmed(head).take(7)).len() == 7 && trimmed(head).len() >= 7
            ==> branch_of(head) == trimmed(head).take(7),
        !occurs_at(trimmed(head), "ref: "@, 0) && encode_utf8(trimmed(head)).len() < 7 ==> branch_of(
            head,
        ).len() == 0,
{
    reveal_strlit("ref: ");
    reveal_strlit("ref: refs/heads/");
    lemma_branch_is_reference(head);
    let text = trimmed(head);
    if text == "ref: refs/heads/"@ + name {
        assert(text.subrange(0, 16) =~= "ref: refs/heads/"@);
        assert(text.skip(16) =~= name);
    }
    if text == "ref: "@ + path.push('/') + name {
        assert(text.subrange(0, 5) =~= "ref: "@);
        assert(text.skip(5) =~= path.push('/') + name);
        law_text_is_cut_at_a_character(path, '/', name);
    }
    if encode_utf8(text).len() >= 7 && text.len() >= 7 && encode_utf8(text.take(7)).len() == 7 {
        if text.len() > 7 {
            lemma_byte_len_prefix(text.take(8), 7);
            assert(text.take(8).take(7) =~= text.take(7));
        }
        law_longest_fitting_prefix(text, 7, 7);
    }
    if encode_utf8(text).len() < 7 {
        assert(byte_len(text) < 7);
    }
}

/// The limit of a model stands below its provider in the configuration.
pub proof fn law_limit_stands_below_the_model(config: JsonTree, provider: Seq<char>, model: Seq<char>, n: u64)
    ensures
        ({
            let models = config.field("provider"@).field(provider).field("models"@);
            let context = models.field(model).field("limit"@).field("context"@);
            &&& context == JsonTree::Number(Some(n)) ==> limit_in(config, provider, model) == Some(n)
            &&& !(context is Number) ==> limit_in(config, provider, model) is None
        }),
{
}

} // verus!
