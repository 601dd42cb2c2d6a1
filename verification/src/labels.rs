//! The grouping label on created containers. Every container this system
//! creates carries `<key> = <namespace>`, whatever labels the manifest
//! supplied; a caller-supplied value under the same key is overwritten.

use crate::engine::{label_key, spec_label_key};
use vstd::prelude::*;

verus! {

/// The mapping a list of label pairs denotes: keys bind left to right, a
/// later pair overriding an earlier one with the same key.
pub open spec fn pairs_to_map(s: Seq<(String, String)>) -> Map<Seq<char>, Seq<char>>
    decreases s.len(),
{
    if s.len() == 0 {
        Map::empty()
    } else {
        pairs_to_map(s.drop_last()).insert(s.last().0@, s.last().1@)
    }
}

/// The mapping of an optional label list; a missing list denotes no labels.
pub open spec fn spec_labels_of(labels: Option<Vec<(String, String)>>) -> Map<
    Seq<char>,
    Seq<char>,
> {
    match labels {
        Option::Some(v) => pairs_to_map(v@),
        Option::None => Map::empty(),
    }
}

/// Add the grouping label to a manifest's labels, overwriting any value the
/// manifest carried under that key: the denoted mapping binds the grouping
/// key to exactly the configured namespace.
pub fn with_group_label(labels: Option<Vec<(String, String)>>, namespace: &str) -> (r: Vec<
    (String, String),
>)
    ensures
        pairs_to_map(r@) == spec_labels_of(labels).insert(spec_label_key(), namespace@),
        pairs_to_map(r@)[spec_label_key()] == namespace@,
{
    let mut v: Vec<(String, String)> = match labels {
        Some(v) => v,
        None => Vec::new(),
    };
    let ghost before = v@;
    v.push((label_key().to_owned(), namespace.to_owned()));
    proof {
        assert(v@.drop_last() =~= before);
        assert(v@.last().0@ == spec_label_key());
        assert(v@.last().1@ == namespace@);
        assert(pairs_to_map(before) == spec_labels_of(labels));
        assert(pairs_to_map(v@) =~= spec_labels_of(labels).insert(spec_label_key(), namespace@));
    }
    v
}

} // verus!
