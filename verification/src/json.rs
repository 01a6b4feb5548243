//! JSON documents as trees.
//!
//! The text of a document is parsed by `serde_json`; what the rest of the
//! library reads is the tree below, which keeps the members of an object in
//! document order.

use vstd::prelude::*;

verus! {

/// A JSON value.
#[derive(Debug, PartialEq, Eq)]
pub enum Json {
    Null,
    Bool(bool),
    /// A number written as a whole number from 0 to 2^64 - 1, without sign,
    /// fraction or exponent.
    Integer(u64),
    /// Any other number.
    OtherNumber,
    Text(String),
    List(Vec<Json>),
    /// The members of an object, in document order.
    Object(Vec<(String, Json)>),
}

/// What a [`Json`] tree holds.
pub enum JsonView {
    Null,
    Bool(bool),
    Integer(u64),
    OtherNumber,
    Text(Seq<char>),
    List(Seq<JsonView>),
    Object(Seq<(Seq<char>, JsonView)>),
}

/// What `doc` holds: the same tree, with texts as sequences of characters.
pub open spec fn tree_view(doc: Json) -> JsonView
    decreases doc,
{
    match doc {
        Json::Null => JsonView::Null,
        Json::Bool(b) => JsonView::Bool(b),
        Json::Integer(n) => JsonView::Integer(n),
        Json::OtherNumber => JsonView::OtherNumber,
        Json::Text(t) => JsonView::Text(t@),
        Json::List(items) => JsonView::List(
            Seq::new(
                items@.len(),
                |i: int|
                    if 0 <= i < items@.len() {
                        tree_view(items@[i])
                    } else {
                        JsonView::Null
                    },
            ),
        ),
        Json::Object(members) => JsonView::Object(
            Seq::new(
                members@.len(),
                |i: int|
                    if 0 <= i < members@.len() {
                        (members@[i].0@, tree_view(members@[i].1))
                    } else {
                        (Seq::empty(), JsonView::Null)
                    },
            ),
        ),
    }
}

impl View for Json {
    type V = JsonView;

    open spec fn view(&self) -> JsonView {
        tree_view(*self)
    }
}

/// The value of the first member called `name`, if there is one.
pub open spec fn lookup(members: Seq<(Seq<char>, JsonView)>, name: Seq<char>) -> Option<JsonView>
    decreases members.len(),
{
    if members.len() == 0 {
        None
    } else if members.first().0 == name {
        Some(members.first().1)
    } else {
        lookup(members.drop_first(), name)
    }
}

impl JsonView {
    /// The value of the member called `name`, where `self` is an object that
    /// has one.
    pub open spec fn member(self, name: Seq<char>) -> Option<JsonView> {
        match self {
            JsonView::Object(members) => lookup(members, name),
            _ => None,
        }
    }
}

/// A list holds the views of its items, in order.
pub proof fn lemma_list_view(items: Vec<Json>)
    ensures
        Json::List(items)@ matches JsonView::List(views) && views.len() == items@.len()
            && forall|i: int| 0 <= i < items@.len() ==> #[trigger] views[i] == items@[i]@,
{
}

/// An object holds its members' names and the views of their values, in order.
pub proof fn lemma_object_view(members: Vec<(String, Json)>)
    ensures
        Json::Object(members)@ matches JsonView::Object(views) && views.len() == members@.len()
            && forall|i: int|
            0 <= i < members@.len() ==> #[trigger] views[i] == (members@[i].0@, members@[i].1@),
{
}

/// Skipping members whose names differ from `name` does not change what is
/// found under `name`.
pub proof fn lemma_lookup_skips(members: Seq<(Seq<char>, JsonView)>, name: Seq<char>, k: int)
    requires
        0 <= k <= members.len(),
        forall|i: int| 0 <= i < k ==> (#[trigger] members[i]).0 != name,
    ensures
        lookup(members, name) == lookup(members.skip(k), name),
    decreases k,
{
    if k == 0 {
        assert(members.skip(0) =~= members);
    } else {
        let rest = members.drop_first();
        lemma_lookup_skips(rest, name, k - 1);
        assert(rest.skip(k - 1) =~= members.skip(k));
    }
}

/// The tree that the text of a JSON document denotes; `None` for a text that
/// is not one JSON document.
pub uninterp spec fn json_document(text: Seq<char>) -> Option<JsonView>;

/// `serde_json::Value`, a parsed JSON value. Nothing is known of what is
/// inside one but through [`value_tree`].
#[verifier::external_type_specification]
#[verifier::external_body]
pub struct ExValue(serde_json::Value);

/// What a parsed value holds, as a tree: a number as [`JsonView::Integer`]
/// where `Number::as_u64` gives its value, else as
/// [`JsonView::OtherNumber`]; the members of an object in the order in which
/// `Map::iter` hands them out.
pub uninterp spec fn value_tree(value: serde_json::Value) -> JsonView;

/// Parses the text of a JSON document with `serde_json::from_str`.
///
/// The contract claims only that the outcome is a function of the text: the
/// same text is refused every time, or gives a value that holds the same
/// tree every time.
#[verifier::external_body]
fn parse_value(text: &str) -> (parsed: Option<serde_json::Value>)
    ensures
        match parsed {
            Some(value) => json_document(text@) == Some(value_tree(value)),
            None => json_document(text@) is None,
        },
{
    serde_json::from_str::<serde_json::Value>(text).ok()
}

/// Copies a parsed `serde_json::Value` into a tree, node for node: each
/// variant becomes the variant of [`Json`] of the same kind.
///
/// The contract claims that the copy holds what the value holds.
#[verifier::external_body]
fn tree_of(value: &serde_json::Value) -> (doc: Json)
    ensures
        doc@ == value_tree(*value),
{
    match value {
        serde_json::Value::Null => Json::Null,
        serde_json::Value::Bool(b) => Json::Bool(*b),
        serde_json::Value::Number(n) => n.as_u64().map_or(Json::OtherNumber, Json::Integer),
        serde_json::Value::String(s) => Json::Text(s.clone()),
        serde_json::Value::Array(items) => Json::List(items.iter().map(tree_of).collect()),
        serde_json::Value::Object(members) => Json::Object(
            members.iter().map(|(name, v)| (name.clone(), tree_of(v))).collect(),
        ),
    }
}

impl Json {
    /// Parses the text of a JSON document into a tree.
    pub fn parse(text: &str) -> (doc: Option<Json>)
        ensures
            match doc {
                Some(tree) => json_document(text@) == Some(tree@),
                None => json_document(text@) is None,
            },
    {
        match parse_value(text) {
            Some(value) => Some(tree_of(&value)),
            None => None,
        }
    }

    /// The value of the first member called `name`, where `self` is an object
    /// that has one.
    pub fn member(&self, name: &str) -> (found: Option<&Json>)
        ensures
            match found {
                Some(value) => self@.member(name@) == Some(value@),
                None => self@.member(name@) is None,
            },
    {
        match self {
            Json::Object(members) => {
                proof {
                    lemma_object_view(*members);
                }
                let ghost views = self@->Object_0;
                let wanted: String = name.to_owned();
                let mut i: usize = 0;
                while i < members.len()
                    invariant
                        i <= members.len(),
                        wanted@ == name@,
                        self@ == JsonView::Object(views),
                        views.len() == members@.len(),
                        forall|j: int|
                            0 <= j < members@.len() ==> #[trigger] views[j] == (
                                members@[j].0@,
                                members@[j].1@,
                            ),
                        forall|j: int| 0 <= j < i ==> (#[trigger] views[j]).0 != name@,
                    decreases members.len() - i,
                {
                    if members[i].0 == wanted {
                        proof {
                            lemma_lookup_skips(views, name@, i as int);
                        }
                        return Some(&members[i].1);
                    }
                    i += 1;
                }
                proof {
                    lemma_lookup_skips(views, name@, i as int);
                }
                None
            },
            _ => None,
        }
    }
}

} // verus!
