//! JSON documents.
//!
//! A document is read into a tree of the library's own, which the collectors
//! walk. Reading a member of something that is no object, or a member that is
//! not there, gives `null`.
use crate::text::same;
use vstd::prelude::*;

verus! {

/// A JSON document as a mathematical value.
pub ghost enum JsonTree {
    Null,
    Bool(bool),
    /// The number as an unsigned 64-bit integer, where it is one.
    Number(Option<u64>),
    Str(Seq<char>),
    Array(Seq<JsonTree>),
    /// The members in the order in which the document's reader lists them.
    Object(Seq<(Seq<char>, JsonTree)>),
}

/// A JSON document.
#[derive(Debug)]
pub enum Json {
    Null,
    Bool(bool),
    /// The number as an unsigned 64-bit integer, where it is one.
    Number(Option<u64>),
    Str(String),
    Array(Vec<Json>),
    /// The members in the order in which the document's reader lists them.
    Object(Vec<(String, Json)>),
}

/// The first member named `key`, or null.
pub open spec fn lookup(fields: Seq<(Seq<char>, JsonTree)>, key: Seq<char>) -> JsonTree
    decreases fields.len(),
{
    if fields.len() == 0 {
        JsonTree::Null
    } else if fields[0].0 == key {
        fields[0].1
    } else {
        lookup(fields.drop_first(), key)
    }
}

impl JsonTree {
    /// The member named `key`, or null.
    pub open spec fn field(self, key: Seq<char>) -> JsonTree {
        match self {
            JsonTree::Object(fields) => lookup(fields, key),
            _ => JsonTree::Null,
        }
    }

    /// The string, where this is one.
    pub open spec fn text(self) -> Option<Seq<char>> {
        match self {
            JsonTree::Str(s) => Some(s),
            _ => None,
        }
    }

    /// The string, or the empty one where this is no string.
    pub open spec fn text_or_empty(self) -> Seq<char> {
        match self {
            JsonTree::Str(s) => s,
            _ => Seq::empty(),
        }
    }

    /// The unsigned number, where this is one.
    pub open spec fn unsigned(self) -> Option<u64> {
        match self {
            JsonTree::Number(n) => n,
            _ => None,
        }
    }

    /// The unsigned number, or zero where this is none.
    pub open spec fn unsigned_or_zero(self) -> u64 {
        match self {
            JsonTree::Number(Some(n)) => n,
            _ => 0,
        }
    }

    /// The elements of an array, and no elements of anything else.
    pub open spec fn elements(self) -> Seq<JsonTree> {
        match self {
            JsonTree::Array(items) => items,
            _ => Seq::empty(),
        }
    }
}

impl View for Json {
    type V = JsonTree;

    open spec fn view(&self) -> JsonTree {
        self.tree()
    }
}

/// The trees of a list of documents.
pub open spec fn trees(v: Seq<Json>) -> Seq<JsonTree> {
    Seq::new(v.len(), |i: int| v[i]@)
}

impl Json {
    /// The document as a mathematical value.
    pub open spec fn tree(self) -> JsonTree
        decreases self,
    {
        match self {
            Json::Null => JsonTree::Null,
            Json::Bool(b) => JsonTree::Bool(b),
            Json::Number(n) => JsonTree::Number(n),
            Json::Str(s) => JsonTree::Str(s@),
            Json::Array(items) => JsonTree::Array(
                Seq::new(
                    items@.len(),
                    |i: int|
                        if 0 <= i < items@.len() {
                            items@[i].tree()
                        } else {
                            JsonTree::Null
                        },
                ),
            ),
            Json::Object(fields) => JsonTree::Object(
                Seq::new(
                    fields@.len(),
                    |i: int|
                        if 0 <= i < fields@.len() {
                            (fields@[i].0@, fields@[i].1.tree())
                        } else {
                            (Seq::empty(), JsonTree::Null)
                        },
                ),
            ),
        }
    }

    /// The member named `key`, or null.
    pub fn field(&self, key: &str) -> (r: &Json)
        ensures
            r@ == self@.field(key@),
    {
        match self {
            Json::Object(fields) => {
                let ghost whole = self@->Object_0;
                let mut i: usize = 0;
                assert(whole.skip(0) =~= whole);
                while i < fields.len()
                    invariant
                        i <= fields@.len(),
                        whole.len() == fields@.len(),
                        forall|k: int|
                            0 <= k < fields@.len() ==> whole[k] == (
                                #[trigger] fields@[k].0@,
                                fields@[k].1@,
                            ),
                        lookup(whole.skip(i as int), key@) == lookup(whole, key@),
                        self@ == JsonTree::Object(whole),
                    decreases fields@.len() - i,
                {
                    assert(whole.skip(i as int)[0] == whole[i as int]);
                    if same(fields[i].0.as_str(), key) {
                        return &fields[i].1;
                    }
                    assert(whole.skip(i as int).drop_first() =~= whole.skip(i + 1));
                    i += 1;
                }
                &Json::Null
            },
            _ => &Json::Null,
        }
    }

    /// The string, where this is one.
    pub fn as_str(&self) -> (r: Option<&str>)
        ensures
            match r {
                Some(s) => self@ == JsonTree::Str(s@),
                None => self@.text() is None,
            },
    {
        match self {
            Json::Str(s) => Some(s.as_str()),
            _ => None,
        }
    }

    /// The string, or the empty one where this is no string.
    pub fn str_or_empty(&self) -> (r: &str)
        ensures
            r@ == self@.text_or_empty(),
    {
        match self {
            Json::Str(s) => s.as_str(),
            _ => {
                proof {
                    reveal_strlit("");
                    assert(""@ =~= Seq::<char>::empty());
                }
                ""
            },
        }
    }

    /// The unsigned number, where this is one.
    pub fn as_u64(&self) -> (r: Option<u64>)
        ensures
            r == self@.unsigned(),
    {
        match self {
            Json::Number(n) => *n,
            _ => None,
        }
    }

    /// The unsigned number, or zero where this is none.
    pub fn u64_or_zero(&self) -> (r: u64)
        ensures
            r == self@.unsigned_or_zero(),
    {
        match self {
            Json::Number(Some(n)) => *n,
            _ => 0,
        }
    }

    /// Whether this is the constant `true`.
    pub fn is_true(&self) -> (r: bool)
        ensures
            r == (self@ == JsonTree::Bool(true)),
    {
        match self {
            Json::Bool(b) => *b,
            _ => false,
        }
    }

    /// The elements, where this is an array.
    pub fn as_array(&self) -> (r: Option<&Vec<Json>>)
        ensures
            match r {
                Some(v) => self@ == JsonTree::Array(trees(v@)),
                None => !(self@ is Array),
            },
    {
        match self {
            Json::Array(items) => {
                assert(self@->Array_0 =~= trees(items@));
                Some(items)
            },
            _ => None,
        }
    }
}

/// `serde_json::Value`, the outside crate's document type.
#[verifier::external_type_specification]
#[verifier::external_body]
pub struct ExValue(serde_json::Value);

/// One level of an outside document.
enum Node {
    Null,
    Bool(bool),
    Number(Option<u64>),
    Str(String),
    Array(Vec<serde_json::Value>),
    Object(Vec<(String, serde_json::Value)>),
}

/// What `serde_json::from_str` reads from a text: the document, or nothing where
/// the text is no JSON.
pub uninterp spec fn parsed_json(text: Seq<char>) -> Option<JsonTree>;

/// What an outside document holds.
pub uninterp spec fn value_tree(v: serde_json::Value) -> JsonTree;

/// Calls `serde_json::from_str`, which reads one JSON document that spans the
/// whole text and fails on anything else. The result depends on the text alone.
#[verifier::external_body]
fn from_text(text: &str) -> (r: Option<serde_json::Value>)
    ensures
        match r {
            Some(v) => parsed_json(text@) == Some(value_tree(v)),
            None => parsed_json(text@) is None,
        },
{
    serde_json::from_str(text).ok()
}

/// Takes a `serde_json::Value` apart, one variant each. `Number::as_u64` gives the
/// number where it is a non-negative integer of at most 64 bits, and nothing for
/// negative and fractional numbers; the members of a `serde_json::Map` come in
/// the map's own order.
#[verifier::external_body]
fn open_value(v: serde_json::Value) -> (r: Node)
    ensures
        match r {
            Node::Null => value_tree(v) == JsonTree::Null,
            Node::Bool(b) => value_tree(v) == JsonTree::Bool(b),
            Node::Number(n) => value_tree(v) == JsonTree::Number(n),
            Node::Str(s) => value_tree(v) == JsonTree::Str(s@),
            Node::Array(items) => value_tree(v) == JsonTree::Array(
                Seq::new(items@.len(), |i: int| value_tree(items@[i]))),
            Node::Object(fields) => value_tree(v) == JsonTree::Object(
                Seq::new(fields@.len(), |i: int| (fields@[i].0@, value_tree(fields@[i].1)))),
        },
{
    match v {
        serde_json::Value::Null => Node::Null,
        serde_json::Value::Bool(b) => Node::Bool(b),
        serde_json::Value::Number(n) => Node::Number(n.as_u64()),
        serde_json::Value::String(s) => Node::Str(s),
        serde_json::Value::Array(items) => Node::Array(items),
        serde_json::Value::Object(fields) => Node::Object(fields.into_iter().collect()),
    }
}

/// Rebuilds an outside document as a tree of the library's own.
fn to_json(v: serde_json::Value) -> (r: Json)
    ensures
        r@ == value_tree(v),
    decreases value_tree(v),
{
    let ghost whole = value_tree(v);
    match open_value(v) {
        Node::Null => Json::Null,
        Node::Bool(b) => Json::Bool(b),
        Node::Number(n) => Json::Number(n),
        Node::Str(s) => Json::Str(s),
        Node::Array(items) => {
            let mut out: Vec<Json> = Vec::new();
            for item in it: items
                invariant
                    whole == value_tree(v),
                    whole == JsonTree::Array(Seq::new(it.seq().len(), |i: int| value_tree(it.seq()[i]))),
                    out@.len() == it.index(),
                    forall|i: int| 0 <= i < out@.len() ==> #[trigger] out@[i]@ == value_tree(it.seq()[i]),
            {
                proof {
                    assert(whole->Array_0[it.index()] == value_tree(item));
                    assert(decreases_to!(whole => whole->Array_0[it.index()]));
                }
                let j = to_json(item);
                out.push(j);
            }
            let r = Json::Array(out);
            assert forall|i: int| 0 <= i < out@.len() implies r@->Array_0[i] == whole->Array_0[i] by {
                assert(out@[i]@ == out@[i].tree());
            }
            assert(r@->Array_0 =~= whole->Array_0);
            r
        },
        Node::Object(fields) => {
            let mut out: Vec<(String, Json)> = Vec::new();
            for field in it: fields
                invariant
                    whole == value_tree(v),
                    whole == JsonTree::Object(
                        Seq::new(it.seq().len(), |i: int| (it.seq()[i].0@, value_tree(it.seq()[i].1)))),
                    out@.len() == it.index(),
                    forall|i: int| 0 <= i < out@.len() ==> (#[trigger] out@[i]).1@ == value_tree(it.seq()[i].1)
                        && out@[i].0@ == it.seq()[i].0@,
            {
                let (key, value) = field;
                proof {
                    assert(whole->Object_0[it.index()].1 == value_tree(value));
                    assert(decreases_to!(whole => whole->Object_0[it.index()]));
                    assert(decreases_to!(whole->Object_0[it.index()] => whole->Object_0[it.index()].1));
                }
                let j = to_json(value);
                out.push((key, j));
            }
            let r = Json::Object(out);
            assert(r@->Object_0 =~= whole->Object_0);
            r
        },
    }
}

/// Reads a JSON text.
pub fn parse_json(text: &str) -> (r: Option<Json>)
    ensures
        match r {
            Some(j) => parsed_json(text@) == Some(j@),
            None => parsed_json(text@) is None,
        },
{
    match from_text(text) {
        Some(v) => Some(to_json(v)),
        None => None,
    }
}

/// A member is the first one of its name; anything but an object, and an object without it,
/// gives null.
pub proof fn law_member_is_the_first_of_its_name(
    fields: Seq<(Seq<char>, JsonTree)>,
    key: Seq<char>,
    k: int,
)
    requires
        0 <= k <= fields.len(),
        forall|i: int| 0 <= i < k ==> (#[trigger] fields[i]).0 != key,
        k < fields.len() ==> fields[k].0 == key,
    ensures
        k < fields.len() ==> JsonTree::Object(fields).field(key) == fields[k].1,
        k == fields.len() ==> JsonTree::Object(fields).field(key) == JsonTree::Null,
        JsonTree::Null.field(key) == JsonTree::Null,
        JsonTree::Array(Seq::empty()).field(key) == JsonTree::Null,
        JsonTree::Str(key).field(key) == JsonTree::Null,
    decreases fields.len(),
{
    if k > 0 {
        assert(fields[0].0 != key);
        let rest = fields.drop_first();
        assert forall|i: int| 0 <= i < k - 1 implies (#[trigger] rest[i]).0 != key by {
            assert(rest[i] == fields[i + 1]);
        }
        law_member_is_the_first_of_its_name(rest, key, k - 1);
    }
}

/// What a document is read as: its text, its unsigned number and its elements, where it is
/// of that kind, and nothing, zero or none where it is not.
pub proof fn law_documents_are_read_by_kind(
    tree: JsonTree,
    text: Seq<char>,
    n: u64,
    items: Seq<JsonTree>,
)
    ensures
        tree == JsonTree::Str(text) ==> tree.text_or_empty() == text && tree.text() == Some(text),
        !(tree is Str) ==> tree.text_or_empty().len() == 0 && tree.text() is None,
        tree == JsonTree::Number(Some(n)) ==> tree.unsigned_or_zero() == n && tree.unsigned() == Some(
            n,
        ),
        !(tree is Number) || tree == JsonTree::Number(None) ==> tree.unsigned_or_zero() == 0
            && tree.unsigned() is None,
        tree == JsonTree::Array(items) ==> tree.elements() == items,
        !(tree is Array) ==> tree.elements().len() == 0,
{
}

/// A document shows what it holds, part by part and in its order.
pub proof fn law_document_shows_its_parts(
    b: bool,
    n: Option<u64>,
    s: String,
    items: Vec<Json>,
    fields: Vec<(String, Json)>,
    i: int,
)
    ensures
        Json::Null@ == JsonTree::Null,
        Json::Bool(b)@ == JsonTree::Bool(b),
        Json::Number(n)@ == JsonTree::Number(n),
        Json::Str(s)@ == JsonTree::Str(s@),
        Json::Array(items)@ matches JsonTree::Array(t) && t.len() == items@.len() && (0 <= i
            < items@.len() ==> t[i] == items@[i]@),
        Json::Object(fields)@ matches JsonTree::Object(t) && t.len() == fields@.len() && (0 <= i
            < fields@.len() ==> t[i] == (fields@[i].0@, fields@[i].1@)),
{
}

} // verus!
