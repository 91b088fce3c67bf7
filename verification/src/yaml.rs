//! YAML documents as `serde_yaml` parses them, read through a tree model.

use vstd::prelude::*;

verus! {

/// `serde_yaml::Value`, a parsed YAML node.
#[verifier::external_type_specification]
#[verifier::external_body]
pub struct ExYamlValue(serde_yaml::Value);

/// A YAML node with its tags taken off, as `serde_yaml::Value`'s accessors
/// see it. Integers are held by value; floating-point numbers only by kind.
pub enum YamlNode {
    Null,
    Bool(bool),
    Int(int),
    Float,
    Text(Seq<char>),
    List(Seq<YamlNode>),
    Mapping(Seq<(YamlNode, YamlNode)>),
}

/// What a parsed `serde_yaml::Value` holds, tags removed at every level.
pub uninterp spec fn yaml_tree(v: serde_yaml::Value) -> YamlNode;

/// What `serde_yaml::from_str::<Value>` makes of a text: the tree, or the
/// error message.
pub uninterp spec fn yaml_parse(text: Seq<char>) -> Result<YamlNode, Seq<char>>;

/// `serde_yaml::from_str::<serde_yaml::Value>`: the parsed document, or the
/// error's message. The result is a function of the text.
#[verifier::external_body]
pub(crate) fn parse_yaml_value(text: &str) -> (r: Result<serde_yaml::Value, String>)
    ensures
        match r {
            Ok(v) => yaml_parse(text@) == Ok::<YamlNode, Seq<char>>(yaml_tree(v)),
            Err(e) => yaml_parse(text@) == Err::<YamlNode, Seq<char>>(e@),
        },
{
    serde_yaml::from_str::<serde_yaml::Value>(text).map_err(|error| error.to_string())
}

/// `Value::is_null`: whether the untagged node is null.
#[verifier::external_body]
pub(crate) fn yaml_is_null(v: &serde_yaml::Value) -> (r: bool)
    ensures
        r == (yaml_tree(*v) is Null),
{
    v.is_null()
}

/// `Value::as_bool`: the boolean of an untagged boolean node.
#[verifier::external_body]
pub(crate) fn yaml_as_bool(v: &serde_yaml::Value) -> (r: Option<bool>)
    ensures
        match r {
            Some(b) => yaml_tree(*v) == YamlNode::Bool(b),
            None => !(yaml_tree(*v) is Bool),
        },
{
    v.as_bool()
}

/// `Value::as_u64`: the value of an untagged integer node that is not
/// negative. An integer node it refuses is negative and fits `i64`, since
/// `serde_yaml` keeps integers as `u64` or negative `i64`.
#[verifier::external_body]
pub(crate) fn yaml_as_u64(v: &serde_yaml::Value) -> (r: Option<u64>)
    ensures
        match r {
            Some(n) => yaml_tree(*v) == YamlNode::Int(n as int),
            None => yaml_tree(*v) matches YamlNode::Int(i) ==> i64::MIN <= i < 0,
        },
{
    v.as_u64()
}

/// `Value::as_i64`: the value of an untagged integer node that fits `i64`.
#[verifier::external_body]
pub(crate) fn yaml_as_i64(v: &serde_yaml::Value) -> (r: Option<i64>)
    ensures
        match r {
            Some(n) => yaml_tree(*v) == YamlNode::Int(n as int),
            None => !(yaml_tree(*v) matches YamlNode::Int(i) && i64::MIN <= i <= i64::MAX),
        },
{
    v.as_i64()
}

/// `Value::is_f64`: whether the untagged node is a floating-point number.
#[verifier::external_body]
pub(crate) fn yaml_is_float(v: &serde_yaml::Value) -> (r: bool)
    ensures
        r == (yaml_tree(*v) is Float),
{
    v.is_f64()
}

/// `Value::as_str`: the text of an untagged string node.
#[verifier::external_body]
pub(crate) fn yaml_as_str(v: &serde_yaml::Value) -> (r: Option<String>)
    ensures
        match r {
            Some(s) => yaml_tree(*v) == YamlNode::Text(s@),
            None => !(yaml_tree(*v) is Text),
        },
{
    v.as_str().map(|s| s.to_string())
}

/// `Value::as_sequence` and its length: the number of items of an untagged
/// sequence node.
#[verifier::external_body]
pub(crate) fn yaml_list_len(v: &serde_yaml::Value) -> (r: Option<usize>)
    ensures
        match r {
            Some(n) => yaml_tree(*v) is List && yaml_tree(*v)->List_0.len() == n,
            None => !(yaml_tree(*v) is List),
        },
{
    v.as_sequence().map(|items| items.len())
}

/// `Value::as_sequence` and indexing: the item at `i` of a sequence node.
#[verifier::external_body]
pub(crate) fn yaml_list_item(v: &serde_yaml::Value, i: usize) -> (r: &serde_yaml::Value)
    requires
        yaml_tree(*v) is List,
        i < yaml_tree(*v)->List_0.len(),
    ensures
        yaml_tree(*r) == yaml_tree(*v)->List_0[i as int],
{
    &v.as_sequence().unwrap()[i]
}

/// `Value::as_mapping` and its length: the number of entries of an untagged
/// mapping node.
#[verifier::external_body]
pub(crate) fn yaml_map_len(v: &serde_yaml::Value) -> (r: Option<usize>)
    ensures
        match r {
            Some(n) => yaml_tree(*v) is Mapping && yaml_tree(*v)->Mapping_0.len() == n,
            None => !(yaml_tree(*v) is Mapping),
        },
{
    v.as_mapping().map(|entries| entries.len())
}

/// `Mapping::iter`: the entry at position `i` of a mapping node, in document
/// order.
#[verifier::external_body]
pub(crate) fn yaml_map_entry(v: &serde_yaml::Value, i: usize) -> (r: (&serde_yaml::Value, &serde_yaml::Value))
    requires
        yaml_tree(*v) is Mapping,
        i < yaml_tree(*v)->Mapping_0.len(),
    ensures
        (yaml_tree(*r.0), yaml_tree(*r.1)) == yaml_tree(*v)->Mapping_0[i as int],
{
    v.as_mapping().unwrap().iter().nth(i).unwrap()
}

} // verus!
