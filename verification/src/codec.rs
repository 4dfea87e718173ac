//! Reading and writing YAML text with `serde_yaml`.
use crate::yaml::Node;
use crate::yaml::Tree;
use serde::Deserialize;
use vstd::prelude::*;

verus! {

/// A YAML value as `serde_yaml` holds it.
#[verifier::external_type_specification]
#[verifier::external_body]
pub struct ExValue(serde_yaml::Value);

/// A YAML number, carried through unchanged.
#[verifier::external_type_specification]
#[verifier::external_body]
pub struct ExNumber(serde_yaml::Number);

/// A YAML tag, carried through unchanged.
#[verifier::external_type_specification]
#[verifier::external_body]
pub struct ExTag(serde_yaml::value::Tag);

/// The error of `serde_yaml`.
#[verifier::external_type_specification]
#[verifier::external_body]
pub struct ExError(serde_yaml::Error);

/// The document that `serde_yaml` reads from `text`, or `None` where it refuses the
/// text. Nothing is proved of it: it names what the parser of `serde_yaml` does.
pub uninterp spec fn yaml_tree(text: Seq<char>) -> Option<Tree>;

/// The document that a value of `serde_yaml` holds: its variants, strings, items and
/// entries, in their order.
pub uninterp spec fn value_tree(value: serde_yaml::Value) -> Tree;

/// The text that `serde_yaml` writes for `tree`, or `None` where it fails to write
/// it. Nothing is proved of it: it names what the emitter of `serde_yaml` does.
pub uninterp spec fn yaml_text(tree: Tree) -> Option<Seq<char>>;

/// Calls `serde_yaml::Value::deserialize` on `serde_yaml::Deserializer::from_str(input)`.
///
/// Believed without proof: whether a value comes back, and which document it holds,
/// depends on the text alone; `yaml_tree` is the name of that document.
#[verifier::external_body]
fn parse_value(input: &str) -> (r: Result<serde_yaml::Value, serde_yaml::Error>)
    ensures
        match r {
            Ok(value) => yaml_tree(input@) == Some(value_tree(value)),
            Err(_) => yaml_tree(input@) is None,
        },
{
    serde_yaml::Value::deserialize(serde_yaml::Deserializer::from_str(input))
}

/// Copies a `serde_yaml::Value` into a node: one arm for each variant of the value,
/// each moving the fields over, the items and entries in their order.
///
/// Believed without proof: the node holds the document that the value holds.
#[verifier::external_body]
fn node_of_value(value: &serde_yaml::Value) -> (node: Node)
    ensures
        node@ == value_tree(*value),
{
    match value {
        serde_yaml::Value::Null => Node::Null,
        serde_yaml::Value::Bool(b) => Node::Bool(*b),
        serde_yaml::Value::Number(n) => Node::Number(n.clone()),
        serde_yaml::Value::String(s) => Node::String(s.clone()),
        serde_yaml::Value::Sequence(items) => Node::Sequence(items.iter().map(node_of_value).collect()),
        serde_yaml::Value::Mapping(m) => Node::Mapping(
            m.iter().map(|(k, v)| (node_of_value(k), node_of_value(v))).collect(),
        ),
        serde_yaml::Value::Tagged(t) => Node::Tagged(t.tag.clone(), Box::new(node_of_value(&t.value))),
    }
}

/// Copies a node into a `serde_yaml::Value`: one arm for each variant of the node,
/// each moving the fields over, the items and entries in their order.
///
/// Believed without proof: the value holds the document that the node holds. The
/// entries of a mapping are collected into a `serde_yaml::Mapping`, which keeps one
/// entry for each key, so this is claimed of plain trees only, where no key is
/// there twice.
#[verifier::external_body]
fn value_of_node(node: &Node) -> (value: serde_yaml::Value)
    requires
        node@.plain(),
    ensures
        value_tree(value) == node@,
{
    match node {
        Node::Null => serde_yaml::Value::Null,
        Node::Bool(b) => serde_yaml::Value::Bool(*b),
        Node::Number(n) => serde_yaml::Value::Number(n.clone()),
        Node::String(s) => serde_yaml::Value::String(s.clone()),
        Node::Sequence(items) => serde_yaml::Value::Sequence(items.iter().map(value_of_node).collect()),
        Node::Mapping(entries) => serde_yaml::Value::Mapping(
            entries.iter().map(|e| (value_of_node(&e.0), value_of_node(&e.1))).collect(),
        ),
        Node::Tagged(tag, inner) => serde_yaml::Value::Tagged(
            Box::new(serde_yaml::value::TaggedValue { tag: tag.clone(), value: value_of_node(inner) }),
        ),
    }
}

/// Calls `serde_yaml::to_string` on a value.
///
/// Believed without proof: whether a text comes back, and which, depends on the
/// document alone; `yaml_text` is the name of that text.
#[verifier::external_body]
fn value_to_string(value: &serde_yaml::Value) -> (r: Result<String, serde_yaml::Error>)
    ensures
        match r {
            Ok(text) => yaml_text(value_tree(*value)) == Some(text@),
            Err(_) => yaml_text(value_tree(*value)) is None,
        },
{
    serde_yaml::to_string(value)
}

/// Reads the YAML document that `input` holds, or `None` where `input` is no YAML
/// document.
pub fn parse(input: &str) -> (r: Option<Node>)
    ensures
        match r {
            Some(node) => yaml_tree(input@) == Some(node@),
            None => yaml_tree(input@) is None,
        },
{
    match parse_value(input) {
        Ok(value) => Some(node_of_value(&value)),
        Err(_) => None,
    }
}

/// Writes a plain YAML document as text, or `None` where the document cannot be
/// written.
pub fn render(node: &Node) -> (r: Option<String>)
    requires
        node@.plain(),
    ensures
        match r {
            Some(text) => yaml_text(node@) == Some(text@),
            None => yaml_text(node@) is None,
        },
{
    let value = value_of_node(node);
    match value_to_string(&value) {
        Ok(text) => Some(text),
        Err(_) => None,
    }
}

} // verus!
