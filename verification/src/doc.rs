use vstd::prelude::*;

verus! {

/// One node of the structured configuration document: the tolerant tree that
/// the document provider hands over. Absent or mismatched fields are not
/// errors here; they surface when a reader resolves them at point of use.
pub enum DocNode {
    /// An explicit null value.
    Null,
    /// An integer scalar.
    Int(i64),
    /// A string scalar.
    Text(String),
    /// An ordered sequence of nodes.
    Sequence(Vec<DocNode>),
    /// An ordered mapping from string keys to nodes.
    Mapping(Vec<DocEntry>),
    /// Any scalar the plan model never reads.
    Other,
}

/// One key/value entry of a mapping node.
pub struct DocEntry {
    pub key: String,
    pub value: DocNode,
}

/// The value under `key` in `entries`, taking the first entry whose key
/// matches.
pub open spec fn lookup_entries(entries: Seq<DocEntry>, key: Seq<char>) -> Option<DocNode>
    decreases entries.len(),
{
    if entries.len() == 0 {
        None
    } else if entries[0].key@ == key {
        Some(entries[0].value)
    } else {
        lookup_entries(entries.drop_first(), key)
    }
}

/// The value under `key` when `node` is a mapping holding that key; `None`
/// for a missing key or a non-mapping node.
pub open spec fn field_of(node: DocNode, key: Seq<char>) -> Option<DocNode> {
    match node {
        DocNode::Mapping(entries) => lookup_entries(entries@, key),
        _ => None,
    }
}

/// Resolves `key` in `node` as `field_of` describes.
#[verifier::loop_isolation(false)]
pub fn get_field<'a>(node: &'a DocNode, key: &str) -> (r: Option<&'a DocNode>)
    ensures
        match field_of(*node, key@) {
            Some(v) => r matches Some(rv) && *rv == v,
            None => r is None,
        },
{
    match node {
        DocNode::Mapping(entries) => {
            let wanted = key.to_owned();
            let n = entries.len();
            let mut i: usize = 0;
            assert(entries@.skip(0) =~= entries@);
            while i < n
                invariant
                    n == entries.len(),
                    i <= n,
                    wanted@ == key@,
                    lookup_entries(entries@.skip(i as int), key@) == lookup_entries(
                        entries@,
                        key@,
                    ),
                decreases n - i,
            {
                assert(entries@.skip(i as int)[0] == entries@[i as int]);
                if entries[i].key == wanted {
                    assert(lookup_entries(entries@.skip(i as int), key@) == Some(
                        entries@[i as int].value,
                    ));
                    return Some(&entries[i].value);
                }
                assert(entries@.skip(i as int).drop_first() =~= entries@.skip(i as int + 1));
                i = i + 1;
            }
            assert(entries@.skip(n as int) =~= Seq::<DocEntry>::empty());
            None
        },
        _ => None,
    }
}

} // verus!
