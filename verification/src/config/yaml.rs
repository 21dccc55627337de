//! YAML documents as plain values, and reading them from text with
//! `yaml_rust`.
use vstd::prelude::*;

verus! {

/// A YAML node, as `yaml_rust` reads it.
pub enum YamlNode {
    /// A floating-point scalar, kept as written.
    Real(String),
    Integer(i64),
    String(String),
    Boolean(bool),
    Array(Vec<YamlNode>),
    /// A mapping, its entries in the order of the document; each key occurs once.
    Hash(Vec<(YamlNode, YamlNode)>),
    Alias(usize),
    Null,
    /// What a missing key or an invalid conversion gives.
    BadValue,
}

/// Whether `node` is the string scalar `key`.
pub open spec fn is_string_key(node: YamlNode, key: Seq<char>) -> bool {
    match node {
        YamlNode::String(s) => s@ == key,
        _ => false,
    }
}

/// The value of the first entry of a mapping whose key is the string `key`;
/// `BadValue` if there is none.
pub open spec fn hash_lookup(entries: Seq<(YamlNode, YamlNode)>, key: Seq<char>) -> YamlNode
    decreases entries.len(),
{
    if entries.len() == 0 {
        YamlNode::BadValue
    } else if is_string_key(entries[0].0, key) {
        entries[0].1
    } else {
        hash_lookup(entries.skip(1), key)
    }
}

/// `node[key]`: the value of `key` in a mapping; `BadValue` for any other node.
pub open spec fn yaml_index(node: YamlNode, key: Seq<char>) -> YamlNode {
    match node {
        YamlNode::Hash(h) => hash_lookup(h@, key),
        _ => YamlNode::BadValue,
    }
}

/// The documents that `yaml_rust` reads from a text; `None` where the text is
/// not valid YAML.
pub uninterp spec fn yaml_documents(text: Seq<char>) -> Option<Seq<YamlNode>>;

/// `yaml_rust`'s node type, which the library only converts.
#[verifier::external_type_specification]
#[verifier::external_body]
pub struct ExYaml(yaml_rust::Yaml);

/// Converts a `yaml_rust` node into a `YamlNode`, variant for variant.
#[verifier::external_body]
fn node_of(y: &yaml_rust::Yaml) -> YamlNode {
    match y {
        yaml_rust::Yaml::Real(s) => YamlNode::Real(s.clone()),
        yaml_rust::Yaml::Integer(i) => YamlNode::Integer(*i),
        yaml_rust::Yaml::String(s) => YamlNode::String(s.clone()),
        yaml_rust::Yaml::Boolean(b) => YamlNode::Boolean(*b),
        yaml_rust::Yaml::Array(v) => YamlNode::Array(v.iter().map(node_of).collect()),
        yaml_rust::Yaml::Hash(h) => YamlNode::Hash(h.iter().map(|(k, v)| (node_of(k), node_of(v))).collect()),
        yaml_rust::Yaml::Alias(a) => YamlNode::Alias(*a),
        yaml_rust::Yaml::Null => YamlNode::Null,
        yaml_rust::Yaml::BadValue => YamlNode::BadValue,
    }
}

/// Reads the YAML documents of `text` with `yaml_rust::YamlLoader::load_from_str`;
/// `None` where the loader reports a scan error. The result is named
/// `yaml_documents`.
#[verifier::external_body]
pub(crate) fn load_yaml_documents(text: &str) -> (docs: Option<Vec<YamlNode>>)
    ensures
        match docs {
            Some(d) => yaml_documents(text@) == Some(d@),
            None => yaml_documents(text@) is None,
        },
{
    match yaml_rust::YamlLoader::load_from_str(text) {
        Ok(docs) => Some(docs.iter().map(node_of).collect()),
        Err(_) => None,
    }
}

} // verus!
