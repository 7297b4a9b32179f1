//! The key/value documents from which a configuration is read, and the
//! reading of such a document from JSON text.

use vstd::prelude::*;
use crate::error::ConfigError;

verus! {

/// A value of a document: a node of its tree.
#[derive(Debug)]
pub enum Node {
    Null,
    Bool(bool),
    /// A number. It holds the number itself where that is written as a
    /// non-negative integer below 2^64, and nothing for any other number.
    Number(Option<u64>),
    Text(String),
    List(Vec<Node>),
    /// A nested document: its entries in their order, each a key with its
    /// value.
    Document(Vec<(String, Node)>),
}

/// What a `Node` stands for.
pub enum NodeView {
    Null,
    Bool(bool),
    Number(Option<u64>),
    Text(Seq<char>),
    List(Seq<NodeView>),
    Document(Seq<(Seq<char>, NodeView)>),
}

/// The view of a node: the same tree, with every string taken as its
/// characters. (The tests on `i` are there for the recursion to be seen to
/// end; a sequence is never asked for an element outside its length.)
pub open spec fn node_view(node: Node) -> NodeView
    decreases node,
{
    match node {
        Node::Null => NodeView::Null,
        Node::Bool(b) => NodeView::Bool(b),
        Node::Number(n) => NodeView::Number(n),
        Node::Text(s) => NodeView::Text(s@),
        Node::List(items) => NodeView::List(
            Seq::new(
                items@.len(),
                |i: int|
                    if 0 <= i < items@.len() {
                        node_view(items@[i])
                    } else {
                        NodeView::Null
                    },
            ),
        ),
        Node::Document(entries) => NodeView::Document(
            Seq::new(
                entries@.len(),
                |i: int|
                    if 0 <= i < entries@.len() {
                        (entries@[i].0@, node_view(entries@[i].1))
                    } else {
                        (Seq::empty(), NodeView::Null)
                    },
            ),
        ),
    }
}

impl View for Node {
    type V = NodeView;

    open spec fn view(&self) -> NodeView {
        node_view(*self)
    }
}

/// What a sequence of entries stands for: each key as its characters, each
/// value as its view.
pub open spec fn entries_view(entries: Seq<(String, Node)>) -> Seq<(Seq<char>, NodeView)> {
    Seq::new(entries.len(), |i: int| (entries[i].0@, entries[i].1@))
}

/// A nested document stands for the views of its entries.
pub proof fn lemma_document_view(entries: Vec<(String, Node)>)
    ensures
        Node::Document(entries)@ == NodeView::Document(entries_view(entries@)),
{
    assert(Node::Document(entries)@->Document_0 =~= entries_view(entries@));
}

/// What the text of a JSON document holds, as `serde_json::from_str` reads
/// it into a `serde_json::Value`; nothing where that function reports an
/// error.
pub uninterp spec fn json_text_content(text: Seq<char>) -> Option<NodeView>;

/// What a `serde_json::Value` holds: the same tree, with the entries of each
/// object in the order in which its map hands them out.
pub uninterp spec fn json_value_content(value: serde_json::Value) -> NodeView;

/// `serde_json::Value`, a JSON value as the parser returns it. Nothing of
/// its inside is known here; it is only handed from the parser to the copy.
#[verifier::external_type_specification]
#[verifier::external_body]
pub struct ExJsonValue(serde_json::Value);

/// `serde_json::Error`, the error of the parser. Nothing of it is read.
#[verifier::external_type_specification]
#[verifier::external_body]
pub struct ExJsonError(serde_json::Error);

/// Calls `serde_json::from_str` for a `serde_json::Value`. Nothing is proved
/// of the parser: the contract only gives its result a name, which rests on
/// the parser returning the same tree whenever it is given the same text.
#[verifier::external_body]
fn json_from_str(text: &str) -> (r: Result<serde_json::Value, serde_json::Error>)
    ensures
        match r {
            Ok(value) => json_text_content(text@) == Some(json_value_content(value)),
            Err(_) => json_text_content(text@).is_none(),
        },
{
    serde_json::from_str::<serde_json::Value>(text)
}

/// Copies a `serde_json::Value` into a `Node`, variant by variant. A number
/// is taken through `serde_json::Number::as_u64`, and the entries of an
/// object through `serde_json::Map::iter`. The contract says that the copy
/// holds what the outside value holds.
#[verifier::external_body]
fn json_to_value(value: &serde_json::Value) -> (r: Node)
    ensures
        r@ == json_value_content(*value),
{
    match value {
        serde_json::Value::Null => Node::Null,
        serde_json::Value::Bool(b) => Node::Bool(*b),
        serde_json::Value::Number(n) => Node::Number(n.as_u64()),
        serde_json::Value::String(s) => Node::Text(s.clone()),
        serde_json::Value::Array(a) => Node::List(a.iter().map(json_to_value).collect()),
        serde_json::Value::Object(m) => Node::Document(
            m.iter().map(|(k, v)| (k.clone(), json_to_value(v))).collect(),
        ),
    }
}

impl Node {
    /// Reads a value from JSON text. Text that is not JSON is rejected.
    pub fn from_json_text(text: &str) -> (r: Result<Node, ConfigError>)
        ensures
            match r {
                Ok(value) => json_text_content(text@) == Some(value@),
                Err(e) => json_text_content(text@).is_none() && e == ConfigError::LoadFailed,
            },
    {
        match json_from_str(text) {
            Ok(parsed) => Ok(json_to_value(&parsed)),
            Err(_) => Err(ConfigError::LoadFailed),
        }
    }
}

} // verus!
