//! Building, writing and reading JSON values of the `serde_json` crate.
use vstd::prelude::*;
use vstd::string::*;
use crate::text::same;

verus! {

/// The value of the `serde_json` crate.
#[verifier::external_type_specification]
#[verifier::external_body]
pub struct ExValue(serde_json::Value);

/// What a JSON value holds.
pub enum Tree {
    Null,
    Truth(bool),
    /// A natural number.
    Number(u64),
    /// A negative whole number.
    Negative(i64),
    /// Any other number, by the bits of its double precision.
    Decimal(u64),
    Text(Seq<char>),
    List(Seq<Tree>),
    Object(Map<Seq<char>, Tree>),
}

/// What a JSON value holds.
pub uninterp spec fn tree_of(value: serde_json::Value) -> Tree;

/// What JSON values hold.
pub open spec fn trees_of(values: Seq<serde_json::Value>) -> Seq<Tree> {
    Seq::new(values.len(), |i: int| tree_of(values[i]))
}

/// The members of an object; of two with one name, the later counts.
pub open spec fn members(fields: Seq<(Seq<char>, Tree)>) -> Map<Seq<char>, Tree>
    decreases fields.len(),
{
    if fields.len() == 0 {
        Map::empty()
    } else {
        members(fields.drop_last()).insert(fields.last().0, fields.last().1)
    }
}

/// Fields over plain sequences.
pub open spec fn fields_of(fields: Seq<(String, serde_json::Value)>) -> Seq<(Seq<char>, Tree)> {
    Seq::new(fields.len(), |i: int| (fields[i].0@, tree_of(fields[i].1)))
}

/// The null value: `serde_json::Value::Null`.
#[verifier::external_body]
pub(crate) fn null() -> (value: serde_json::Value)
    ensures
        tree_of(value) == Tree::Null,
{
    serde_json::Value::Null
}

/// A truth value: `serde_json::Value::Bool`.
#[verifier::external_body]
pub(crate) fn truth(b: bool) -> (value: serde_json::Value)
    ensures
        tree_of(value) == Tree::Truth(b),
{
    serde_json::Value::Bool(b)
}

/// A number: `serde_json::Value::Number` of an unsigned integer.
#[verifier::external_body]
pub(crate) fn number(n: u64) -> (value: serde_json::Value)
    ensures
        tree_of(value) == Tree::Number(n),
{
    serde_json::Value::Number(n.into())
}

/// A text: `serde_json::Value::String`.
#[verifier::external_body]
pub(crate) fn text(s: String) -> (value: serde_json::Value)
    ensures
        tree_of(value) == Tree::Text(s@),
{
    serde_json::Value::String(s)
}

/// A list: `serde_json::Value::Array`.
#[verifier::external_body]
pub(crate) fn list(items: Vec<serde_json::Value>) -> (value: serde_json::Value)
    ensures
        tree_of(value) == Tree::List(trees_of(items@)),
{
    serde_json::Value::Array(items)
}

/// An object: `serde_json::Value::Object` of a map that is collected from the
/// fields, a later field replacing an earlier one of its name.
#[verifier::external_body]
pub(crate) fn object(fields: Vec<(String, serde_json::Value)>) -> (value: serde_json::Value)
    ensures
        tree_of(value) == Tree::Object(members(fields_of(fields@))),
{
    serde_json::Value::Object(fields.into_iter().collect())
}

/// The JSON text of a value, unless it cannot be written.
pub uninterp spec fn json_text(tree: Tree) -> Option<Seq<char>>;

/// The JSON text of a value, by `serde_json::to_string`. Members are written
/// in the order of their names, so the text depends on what the value holds.
#[verifier::external_body]
pub(crate) fn to_text(value: &serde_json::Value) -> (text: Option<String>)
    ensures
        match text {
            Some(s) => json_text(tree_of(*value)) == Some(s@),
            None => json_text(tree_of(*value)) is None,
        },
{
    serde_json::to_string(value).ok()
}

/// What the value of a JSON text holds, if the bytes are one.
pub uninterp spec fn parsed(bytes: Seq<u8>) -> Option<Tree>;

/// Reads a JSON text, by `serde_json::from_slice`. Whether the bytes are such a
/// text, and what its value holds, depends on the bytes alone.
#[verifier::external_body]
pub(crate) fn parse(bytes: &[u8]) -> (value: Option<serde_json::Value>)
    ensures
        match value {
            Some(value) => parsed(bytes@) == Some(tree_of(value)),
            None => parsed(bytes@) is None,
        },
{
    serde_json::from_slice(bytes).ok()
}

/// A JSON value taken apart by one level.
pub enum Node {
    Null,
    Truth(bool),
    /// A number, where it is natural.
    Number(Option<u64>),
    Text(String),
    List(Vec<serde_json::Value>),
    Object(Vec<(String, serde_json::Value)>),
}

/// `node` is `tree`, taken apart.
pub open spec fn is_node(node: Node, tree: Tree) -> bool {
    match tree {
        Tree::Null => node is Null,
        Tree::Truth(b) => node == Node::Truth(b),
        Tree::Number(n) => node == Node::Number(Some(n)),
        Tree::Negative(_) => node == Node::Number(None),
        Tree::Decimal(_) => node == Node::Number(None),
        Tree::Text(s) => node matches Node::Text(text) && text@ == s,
        Tree::List(items) => node matches Node::List(list) && trees_of(list@) == items,
        Tree::Object(map) => node matches Node::Object(fields) && members(fields_of(fields@)) == map,
    }
}

/// Tells the variants of `serde_json::Value` apart and copies out what they
/// hold: the members of an object, the items of a list, a number where
/// `Number::as_u64` gives one.
#[verifier::external_body]
pub(crate) fn open_value(value: &serde_json::Value) -> (node: Node)
    ensures
        is_node(node, tree_of(*value)),
{
    match value {
        serde_json::Value::Null => Node::Null,
        serde_json::Value::Bool(b) => Node::Truth(*b),
        serde_json::Value::Number(n) => Node::Number(n.as_u64()),
        serde_json::Value::String(s) => Node::Text(s.clone()),
        serde_json::Value::Array(items) => Node::List(items.clone()),
        serde_json::Value::Object(map) => Node::Object(map.clone().into_iter().collect()),
    }
}

/// The member of a tree with this name, where it is an object that has one.
pub open spec fn member(tree: Tree, name: Seq<char>) -> Option<Tree> {
    match tree {
        Tree::Object(map) => if map.contains_key(name) {
            Some(map[name])
        } else {
            None
        },
        _ => None,
    }
}

pub(crate) proof fn lemma_last_counts(fields: Seq<(Seq<char>, Tree)>, i: int)
    requires
        0 <= i < fields.len(),
        forall|j: int| i < j < fields.len() ==> (#[trigger] fields[j]).0 != fields[i].0,
    ensures
        members(fields).contains_key(fields[i].0),
        members(fields)[fields[i].0] == fields[i].1,
    decreases fields.len(),
{
    if i < fields.len() - 1 {
        let fewer = fields.drop_last();
        assert(fields[fields.len() - 1].0 != fields[i].0);
        assert forall|j: int| i < j < fewer.len() implies (#[trigger] fewer[j]).0 != fewer[i].0 by {
            assert(fields[j].0 != fields[i].0);
        }
        lemma_last_counts(fewer, i);
    }
}

pub(crate) proof fn lemma_members(fields: Seq<(Seq<char>, Tree)>, name: Seq<char>)
    ensures
        members(fields).contains_key(name) <==> exists|i: int|
            0 <= i < fields.len() && (#[trigger] fields[i]).0 == name,
    decreases fields.len(),
{
    if fields.len() > 0 {
        let fewer = fields.drop_last();
        lemma_members(fewer, name);
        if members(fields).contains_key(name) {
            if fields.last().0 == name {
                assert(fields[fields.len() - 1].0 == name);
            } else {
                let i = choose|i: int| 0 <= i < fewer.len() && (#[trigger] fewer[i]).0 == name;
                assert(fields[i].0 == name);
            }
        }
        if exists|i: int| 0 <= i < fields.len() && (#[trigger] fields[i]).0 == name {
            let i = choose|i: int| 0 <= i < fields.len() && (#[trigger] fields[i]).0 == name;
            if i < fewer.len() {
                assert(fewer[i].0 == name);
            }
        }
    }
}

/// The member of an object with this name: the last one, if there are more.
pub(crate) fn find_member<'a>(fields: &'a Vec<(String, serde_json::Value)>, name: &str) -> (found:
    Option<&'a serde_json::Value>)
    ensures
        match found {
            Some(value) => member(object_of(fields_of(fields@)), name@) == Some(tree_of(*value)),
            None => member(object_of(fields_of(fields@)), name@) is None,
        },
{
    let ghost all = fields_of(fields@);
    let mut n: usize = fields.len();
    while n > 0
        invariant
            n <= fields@.len(),
            all == fields_of(fields@),
            forall|j: int| n <= j < all.len() ==> (#[trigger] all[j]).0 != name@,
        decreases n,
    {
        n = n - 1;
        assert(all[n as int] == (fields@[n as int].0@, tree_of(fields@[n as int].1)));
        if same(fields[n].0.as_str(), name) {
            proof {
                lemma_last_counts(all, n as int);
            }
            return Some(&fields[n].1);
        }
    }
    proof {
        lemma_members(all, name@);
    }
    None
}

/// An object under construction.
pub struct Fields {
    fields: Vec<(String, serde_json::Value)>,
}

impl Fields {
    /// The fields so far.
    pub closed spec fn view(&self) -> Seq<(Seq<char>, Tree)> {
        fields_of(self.fields@)
    }

    /// An object without fields.
    pub fn new() -> (fields: Self)
        ensures
            fields@ == Seq::<(Seq<char>, Tree)>::empty(),
    {
        let fields = Fields { fields: Vec::new() };
        assert(fields@ =~= Seq::empty());
        fields
    }

    /// Adds a field.
    pub fn put(&mut self, name: &str, value: serde_json::Value)
        ensures
            final(self)@ == old(self)@.push((name@, tree_of(value))),
    {
        let ghost before = self.fields@;
        let key = name.to_owned();
        self.fields.push((key, value));
        proof {
            let now = self.fields@;
            assert(now == before.push((key, value)));
            assert(fields_of(now) =~= fields_of(before).push((name@, tree_of(value))));
        }
    }

    /// Adds a field with a text.
    pub fn put_text(&mut self, name: &str, value: &str)
        ensures
            final(self)@ == old(self)@.push((name@, Tree::Text(value@))),
    {
        self.put(name, text(value.to_owned()))
    }

    /// Adds a field with a truth value.
    pub fn put_truth(&mut self, name: &str, value: bool)
        ensures
            final(self)@ == old(self)@.push((name@, Tree::Truth(value))),
    {
        self.put(name, truth(value))
    }

    /// The object.
    pub fn done(self) -> (value: serde_json::Value)
        ensures
            tree_of(value) == Tree::Object(members(self@)),
    {
        object(self.fields)
    }
}

/// The object with these fields.
pub open spec fn object_of(fields: Seq<(Seq<char>, Tree)>) -> Tree {
    Tree::Object(members(fields))
}

} // verus!
