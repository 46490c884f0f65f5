//! The unit of a provider's output: one ordered key/value pair per
//! requested stat name.

use vstd::prelude::*;

verus! {

/// One stat line: its name and its formatted display value.
#[derive(Debug)]
pub struct StatPair {
    pub key: String,
    pub value: String,
}

/// The character sequences of a list of stat pairs.
pub open spec fn pair_views(v: Seq<StatPair>) -> Seq<(Seq<char>, Seq<char>)> {
    v.map_values(|p: StatPair| (p.key@, p.value@))
}

} // verus!
