//! The hierarchical document that a YAML text parses into: scalars,
//! sequences and keyed mappings, as plain values.

use vstd::prelude::*;

verus! {

/// One node of a parsed document.
pub enum Node {
    Integer(i64),
    Text(String),
    Real(String),
    Boolean(bool),
    List(Vec<Node>),
    /// Key/value pairs in document order.
    Mapping(Vec<(Node, Node)>),
    Null,
    /// An empty document, an unresolved alias or a value the parser rejected.
    Invalid,
}

/// Whether `k` is the text key `key`.
pub open spec fn is_text_key(k: Node, key: Seq<char>) -> bool {
    match k {
        Node::Text(s) => s@ == key,
        _ => false,
    }
}

/// The value of the first pair of `entries` whose key is the text `key`.
pub open spec fn lookup_entries(entries: Seq<(Node, Node)>, key: Seq<char>) -> Option<Node>
    decreases entries.len(),
{
    if entries.len() == 0 {
        None
    } else if is_text_key(entries[0].0, key) {
        Some(entries[0].1)
    } else {
        lookup_entries(entries.drop_first(), key)
    }
}

/// The value under the text key `key` of a mapping node; `None` for a
/// mapping without that key and for any node that is no mapping.
pub open spec fn lookup(node: Node, key: Seq<char>) -> Option<Node> {
    match node {
        Node::Mapping(entries) => lookup_entries(entries@, key),
        _ => None,
    }
}

/// Looks up the text key `key` in `node`, as `lookup` describes.
pub fn get<'a>(node: &'a Node, key: &str) -> (r: Option<&'a Node>)
    ensures
        match r {
            Some(v) => lookup(*node, key@) == Some(*v),
            None => lookup(*node, key@) is None,
        },
{
    match node {
        Node::Mapping(entries) => {
            let wanted = String::from_str(key);
            let mut i: usize = 0;
            assert(entries@.subrange(0, entries@.len() as int) =~= entries@);
            while i < entries.len()
                invariant
                    0 <= i <= entries@.len(),
                    wanted@ == key@,
                    lookup(*node, key@) == lookup_entries(entries@, key@),
                    lookup_entries(entries@, key@) == lookup_entries(entries@.subrange(i as int, entries@.len() as int), key@),
                decreases entries.len() - i,
            {
                proof {
                    let rest = entries@.subrange(i as int, entries@.len() as int);
                    assert(rest.drop_first() =~= entries@.subrange(i + 1, entries@.len() as int));
                    assert(rest[0] == entries@[i as int]);
                }
                let pair = &entries[i];
                match &pair.0 {
                    Node::Text(s) => {
                        if *s == wanted {
                            proof {
                                let rest = entries@.subrange(i as int, entries@.len() as int);
                                assert(is_text_key(rest[0].0, key@));
                                assert(lookup_entries(rest, key@) == Some(rest[0].1));
                            }
                            return Some(&pair.1);
                        }
                    },
                    _ => {},
                }
                i = i + 1;
            }
            None
        },
        _ => None,
    }
}

} // verus!
