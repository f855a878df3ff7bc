//! What the library takes on trust from yaml_rust: reading YAML text into
//! documents. Everything after that works on `Node` values and is verified.

use crate::document::Node;
use crate::limits::within_limits;
use vstd::prelude::*;
use yaml_rust::{ScanError, Yaml, YamlLoader};

verus! {

/// yaml_rust's document tree; only converted to `Node`, never inspected here.
#[verifier::external_type_specification]
#[verifier::external_body]
pub struct ExYaml(Yaml);

/// yaml_rust's error for text that is not well-formed YAML.
#[verifier::external_type_specification]
#[verifier::external_body]
pub struct ExScanError(ScanError);

/// The documents, as `Node` trees, that yaml_rust reads from `text`; `None`
/// where it rejects the text.
pub uninterp spec fn yaml_documents(text: Seq<char>) -> Option<Seq<Node>>;

/// Relies on yaml_rust's `Yaml` enum: rewrites one value as a `Node`,
/// variant for variant, children included. Used by `load_yaml` alone, whose
/// `requires` bounds the depth of this recursion too.
#[verifier::external_body]
fn node_from_yaml(y: &Yaml) -> Node {
    match y {
        Yaml::Integer(i) => Node::Integer(*i),
        Yaml::String(s) => Node::Text(s.clone()),
        Yaml::Real(s) => Node::Real(s.clone()),
        Yaml::Boolean(b) => Node::Boolean(*b),
        Yaml::Array(a) => Node::List(a.iter().map(node_from_yaml).collect()),
        Yaml::Hash(h) => Node::Mapping(h.iter().map(|(k, v)| (node_from_yaml(k), node_from_yaml(v))).collect()),
        Yaml::Null => Node::Null,
        Yaml::Alias(_) => Node::Invalid,
        Yaml::BadValue => Node::Invalid,
    }
}

/// Relies on yaml_rust::YamlLoader::load_from_str: it reads `text` into its
/// documents in order, or fails with a ScanError, and the outcome depends on
/// the text alone. It recurses once per open collection and copies a tree
/// for each alias of an anchor, so it is given only texts that
/// `within_limits` admits (see `limits`), which bound both.
#[verifier::external_body]
pub(crate) fn load_yaml(text: &str) -> (r: Result<Vec<Node>, ScanError>)
    requires
        within_limits(text@),
    ensures
        match r {
            Ok(docs) => yaml_documents(text@) == Some(docs@),
            Err(_) => yaml_documents(text@) is None,
        },
{
    match YamlLoader::load_from_str(text) {
        Ok(docs) => Ok(docs.iter().map(node_from_yaml).collect()),
        Err(e) => Err(e),
    }
}

} // verus!
