//! Typed access to the keys of a YAML mapping.
use vstd::prelude::*;
use super::{ConfigError, ConfigErrorCode, ConfigErrorView};
use super::yaml::{YamlNode, yaml_index};
use crate::utils::text::string_push;

verus! {

/// `Missing key '<key>'`
pub open spec fn missing_key_message(key: Seq<char>) -> Seq<char> {
    "Missing key '"@ + key + seq!['\'']
}

/// `'<key>' is not <what>`
pub open spec fn not_a_message(key: Seq<char>, what: Seq<char>) -> Seq<char> {
    seq!['\''] + key + "' is not "@ + what
}

/// A syntax error with the given message.
pub open spec fn syntax_error(message: Seq<char>) -> ConfigErrorView {
    (ConfigErrorCode::YamlSyntaxError, message)
}

/// The value of `key` in `doc`; a missing key (or one whose value is
/// `BadValue`) is an error.
pub open spec fn child_of(doc: YamlNode, key: Seq<char>) -> Result<YamlNode, ConfigErrorView> {
    let node = yaml_index(doc, key);
    if node is BadValue {
        Err(syntax_error(missing_key_message(key)))
    } else {
        Ok(node)
    }
}

/// The boolean value of `key` in `doc`.
pub open spec fn bool_of(doc: YamlNode, key: Seq<char>) -> Result<bool, ConfigErrorView> {
    match child_of(doc, key) {
        Err(e) => Err(e),
        Ok(YamlNode::Boolean(b)) => Ok(b),
        Ok(_) => Err(syntax_error(not_a_message(key, "a bool"@))),
    }
}

/// The number of `key` in `doc`, taken as `usize` as Rust's `as` does.
pub open spec fn usize_of(doc: YamlNode, key: Seq<char>) -> Result<usize, ConfigErrorView> {
    match child_of(doc, key) {
        Err(e) => Err(e),
        Ok(YamlNode::Integer(i)) => Ok(i as usize),
        Ok(_) => Err(syntax_error(not_a_message(key, "a number"@))),
    }
}

/// The text of the string `key` in `doc`.
pub open spec fn string_of(doc: YamlNode, key: Seq<char>) -> Result<Seq<char>, ConfigErrorView> {
    match child_of(doc, key) {
        Err(e) => Err(e),
        Ok(YamlNode::String(s)) => Ok(s@),
        Ok(_) => Err(syntax_error(not_a_message(key, "a string"@))),
    }
}

fn not_a_error(key: &String, what: &str) -> (e: ConfigError)
    ensures
        e@ == syntax_error(not_a_message(key@, what@)),
{
    let mut message = String::new();
    string_push(&mut message, '\'');
    message.append(key.as_str());
    message.append("' is not ");
    message.append(what);
    assert(message@ =~= not_a_message(key@, what@));
    ConfigError { code: ConfigErrorCode::YamlSyntaxError, message }
}

/// Config Parser
pub struct ConfigParser {}

impl ConfigParser {
    /// Get child from YAML
    pub fn get_child<'a>(yaml_doc: &'a YamlNode, child: &String) -> (r: Result<&'a YamlNode, ConfigError>)
        ensures
            match r {
                Ok(node) => child_of(*yaml_doc, child@) == Ok::<YamlNode, ConfigErrorView>(*node),
                Err(e) => child_of(*yaml_doc, child@) == Err::<YamlNode, ConfigErrorView>(e@),
            },
    {
        if let YamlNode::Hash(entries) = yaml_doc {
            let mut i: usize = 0;
            assert(entries@.skip(0) =~= entries@);
            while i < entries.len()
                invariant
                    i <= entries.len(),
                    *yaml_doc == YamlNode::Hash(*entries),
                    hash_lookup_from(entries@, child@, i as int) == yaml_index(*yaml_doc, child@),
                decreases entries.len() - i,
            {
                assert(entries@.skip(i as int).skip(1) =~= entries@.skip(i + 1));
                assert(entries@.skip(i as int)[0] == entries@[i as int]);
                let key = &entries[i].0;
                let found = match key {
                    YamlNode::String(s) => *s == *child,
                    _ => false,
                };
                if found {
                    let node = &entries[i].1;
                    if let YamlNode::BadValue = node {
                        return Err(missing_key(child));
                    }
                    return Ok(node);
                }
                i += 1;
            }
            assert(entries@.skip(i as int) =~= Seq::<(YamlNode, YamlNode)>::empty());
        }
        Err(missing_key(child))
    }

    /// get YAML value as bool
    pub fn get_bool(yaml_doc: &YamlNode, key: &String) -> (r: Result<bool, ConfigError>)
        ensures
            match r {
                Ok(b) => bool_of(*yaml_doc, key@) == Ok::<bool, ConfigErrorView>(b),
                Err(e) => bool_of(*yaml_doc, key@) == Err::<bool, ConfigErrorView>(e@),
            },
    {
        match ConfigParser::get_child(yaml_doc, key) {
            Ok(child) => match child {
                YamlNode::Boolean(v) => Ok(*v),
                _ => Err(not_a_error(key, "a bool")),
            },
            Err(err) => Err(err),
        }
    }

    /// get YAML value as usize
    pub fn get_usize(yaml_doc: &YamlNode, key: &String) -> (r: Result<usize, ConfigError>)
        ensures
            match r {
                Ok(n) => usize_of(*yaml_doc, key@) == Ok::<usize, ConfigErrorView>(n),
                Err(e) => usize_of(*yaml_doc, key@) == Err::<usize, ConfigErrorView>(e@),
            },
    {
        match ConfigParser::get_child(yaml_doc, key) {
            Ok(child) => match child {
                YamlNode::Integer(v) => Ok(*v as usize),
                _ => Err(not_a_error(key, "a number")),
            },
            Err(err) => Err(err),
        }
    }

    /// get YAML value as string
    pub fn get_string(yaml_doc: &YamlNode, key: &String) -> (r: Result<String, ConfigError>)
        ensures
            match r {
                Ok(s) => string_of(*yaml_doc, key@) == Ok::<Seq<char>, ConfigErrorView>(s@),
                Err(e) => string_of(*yaml_doc, key@) == Err::<Seq<char>, ConfigErrorView>(e@),
            },
    {
        match ConfigParser::get_child(yaml_doc, key) {
            Ok(child) => match child {
                YamlNode::String(s) => Ok(s.clone()),
                _ => Err(not_a_error(key, "a string")),
            },
            Err(err) => Err(err),
        }
    }
}

/// `hash_lookup` over the entries from index `i` on.
pub open spec fn hash_lookup_from(entries: Seq<(YamlNode, YamlNode)>, key: Seq<char>, i: int) -> YamlNode {
    super::yaml::hash_lookup(entries.skip(i), key)
}

fn missing_key(child: &String) -> (e: ConfigError)
    ensures
        e@ == syntax_error(missing_key_message(child@)),
{
    let mut message = String::from_str("Missing key '");
    message.append(child.as_str());
    string_push(&mut message, '\'');
    assert(message@ =~= missing_key_message(child@));
    ConfigError { code: ConfigErrorCode::YamlSyntaxError, message }
}

} // verus!
