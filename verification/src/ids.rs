//! Typed identifiers of the entities that reports refer to.

use vstd::prelude::*;

verus! {

/// Identifies a person.
#[derive(Clone, Copy, Debug, PartialEq, Eq, Structural, Hash, Default)]
pub struct PersonId(pub i32);

/// Identifies a community.
#[derive(Clone, Copy, Debug, PartialEq, Eq, Structural, Hash, Default)]
pub struct CommunityId(pub i32);

/// Identifies a post.
#[derive(Clone, Copy, Debug, PartialEq, Eq, Structural, Hash, Default)]
pub struct PostId(pub i32);

/// Identifies a report on a post.
#[derive(Clone, Copy, Debug, PartialEq, Eq, Structural, Hash, Default)]
pub struct PostReportId(pub i32);

/// The single integer under which a relationship between two entities is
/// filed: the first identifier in the high half, the second in the low half,
/// each shifted into the unsigned range.
pub open spec fn edge_key(a: i32, b: i32) -> u64 {
    ((a + 0x8000_0000) * 0x1_0000_0000 + (b + 0x8000_0000)) as u64
}

/// Distinct pairs of identifiers are filed under distinct keys.
pub proof fn lemma_edge_key_injective(a: i32, b: i32, c: i32, d: i32)
    requires
        edge_key(a, b) == edge_key(c, d),
    ensures
        a == c,
        b == d,
{
}

/// Computes the key of the pair `(a, b)`.
pub fn make_edge_key(a: i32, b: i32) -> (k: u64)
    ensures
        k == edge_key(a, b),
{
    let hi: i64 = a as i64 + 0x8000_0000i64;
    let lo: i64 = b as i64 + 0x8000_0000i64;
    (hi as u64) * 0x1_0000_0000u64 + (lo as u64)
}

} // verus!
