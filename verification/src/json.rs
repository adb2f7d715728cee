//! A small JSON value type for the requests that the library prepares for
//! TDLib.

use vstd::prelude::*;

verus! {

/// A JSON value; objects keep their fields in order.
#[derive(Debug, PartialEq)]
pub enum TdJson {
    Null,
    Bool(bool),
    Int(i64),
    Text(String),
    Array(Vec<TdJson>),
    Object(Vec<(String, TdJson)>),
}

/// What a JSON value holds, with text as character sequences.
#[verifier::ext_equal]
pub enum JsonTree {
    Null,
    Bool(bool),
    Int(int),
    Text(Seq<char>),
    Array(Seq<JsonTree>),
    Object(Seq<(Seq<char>, JsonTree)>),
}

impl TdJson {
    pub open spec fn tree(self) -> JsonTree
        decreases self,
    {
        match self {
            TdJson::Null => JsonTree::Null,
            TdJson::Bool(b) => JsonTree::Bool(b),
            TdJson::Int(n) => JsonTree::Int(n as int),
            TdJson::Text(s) => JsonTree::Text(s@),
            TdJson::Array(items) => JsonTree::Array(
                Seq::new(
                    items@.len(),
                    |i: int|
                        if 0 <= i < items@.len() {
                            items@[i].tree()
                        } else {
                            JsonTree::Null
                        },
                ),
            ),
            TdJson::Object(fields) => JsonTree::Object(
                Seq::new(
                    fields@.len(),
                    |i: int|
                        if 0 <= i < fields@.len() {
                            (fields@[i].0@, fields@[i].1.tree())
                        } else {
                            (Seq::empty(), JsonTree::Null)
                        },
                ),
            ),
        }
    }
}

/// The value of the first field named `key` among `fields`, if any.
pub open spec fn first_field(fields: Seq<(Seq<char>, JsonTree)>, key: Seq<char>) -> Option<JsonTree>
    decreases fields.len(),
{
    if fields.len() == 0 {
        None
    } else if fields[0].0 == key {
        Some(fields[0].1)
    } else {
        first_field(fields.drop_first(), key)
    }
}

/// The first field named `key` sits at `index`: that field's value is found.
pub proof fn lemma_first_field_at(fields: Seq<(Seq<char>, JsonTree)>, key: Seq<char>, index: int)
    requires
        0 <= index < fields.len(),
        fields[index].0 == key,
        forall|j: int| 0 <= j < index ==> fields[j].0 != key,
    ensures
        first_field(fields, key) == Some(fields[index].1),
    decreases index,
{
    if index > 0 {
        let rest = fields.drop_first();
        assert forall|j: int| 0 <= j < index - 1 implies rest[j].0 != key by {
            assert(rest[j] == fields[j + 1]);
        }
        assert(rest[index - 1] == fields[index]);
        lemma_first_field_at(rest, key, index - 1);
    }
}

impl JsonTree {
    /// What a reader of the object finds under `key`: the value of its first
    /// field of that name; nothing for a value that is no object.
    pub open spec fn field(self, key: Seq<char>) -> Option<JsonTree> {
        match self {
            JsonTree::Object(fields) => first_field(fields, key),
            _ => None,
        }
    }
}

/// The fields of an object, each with its value's tree.
pub open spec fn entries_tree(fields: Seq<(String, TdJson)>) -> Seq<(Seq<char>, JsonTree)> {
    Seq::new(fields.len(), |i: int| (fields[i].0@, fields[i].1.tree()))
}

/// A text value.
pub fn text(s: &str) -> (value: TdJson)
    ensures
        value.tree() == JsonTree::Text(s@),
{
    TdJson::Text(s.to_owned())
}

/// One field of an object.
pub fn entry(name: &str, value: TdJson) -> (field: (String, TdJson))
    ensures
        field.0@ == name@,
        field.1 == value,
{
    (name.to_owned(), value)
}

/// An object with `fields` in order.
pub fn object(fields: Vec<(String, TdJson)>) -> (value: TdJson)
    ensures
        value.tree() == JsonTree::Object(entries_tree(fields@)),
{
    let ghost entries = fields@;
    let value = TdJson::Object(fields);
    proof {
        let t = value.tree();
        assert(t is Object);
        assert(t->Object_0 =~= entries_tree(entries));
    }
    value
}

} // verus!
