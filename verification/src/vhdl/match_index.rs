use vstd::prelude::*;
use crate::text_util::spec_contains;

verus! {

/// The strength of one candidate pair.  Tags that differ score nothing;
/// with matching tags, equal names outrank names containing one
/// another, which outrank unrelated names.
pub open spec fn spec_match_score(a_name: Seq<char>, b_name: Seq<char>, tags_match: bool) -> u32 {
    if !tags_match {
        0
    } else if a_name == b_name {
        3
    } else if spec_contains(a_name, b_name) || spec_contains(b_name, a_name) {
        2
    } else {
        1
    }
}

/// An exact name match with matching tags scores strictly above a
/// containment match, which scores strictly above a bare tag match,
/// which scores strictly above a tag mismatch; every score lies between
/// zero and three.
pub proof fn lemma_match_score_monotonic(a_name: Seq<char>, b_name: Seq<char>)
    ensures
        spec_match_score(a_name, b_name, false) == 0,
        a_name == b_name ==> spec_match_score(a_name, b_name, true) == 3,
        a_name != b_name && (spec_contains(a_name, b_name) || spec_contains(b_name, a_name))
            ==> spec_match_score(a_name, b_name, true) == 2,
        !spec_contains(a_name, b_name) && !spec_contains(b_name, a_name) ==> a_name != b_name
            && spec_match_score(a_name, b_name, true) == 1,
        0 < 1 < 2 < 3,
        spec_match_score(a_name, b_name, true) <= 3,
{
    if a_name == b_name {
        assert(spec_contains(a_name, b_name)) by {
            assert(a_name.subrange(0, b_name.len() as int) =~= b_name);
            assert(crate::text_util::spec_matches_at(a_name, b_name, 0));
        }
    }
}

/// The strength of a candidate pair whose class or type tags differ.
pub const NO_MATCH: u32 = 0;

/// The strength of a pair related by class alone.
pub const CLASS_MATCH: u32 = 1;

/// The strength of a class match whose names contain one another.
pub const PARTIAL_MATCH: u32 = 2;

/// The strength of a class match whose names are equal.
pub const FULL_MATCH: u32 = 3;

/// The incumbent of a greedy arg-max fold: the index of the best-scoring
/// candidate seen so far and its strength.  A new candidate takes over
/// only on strictly greater strength, so the first-seen candidate wins
/// ties.
#[derive(Debug, Clone, Copy, PartialEq, Eq, Structural)]
pub struct MatchIndex {
    pub index: usize,
    pub strength: u32,
}

impl MatchIndex {
    /// The fold step: the better of the incumbent and a new candidate,
    /// the incumbent on ties.
    pub open spec fn spec_updated(self, index: usize, strength: u32) -> MatchIndex {
        if self.strength < strength {
            MatchIndex { index, strength }
        } else {
            self
        }
    }

    pub fn new() -> (r: MatchIndex)
        ensures
            r.index == 0,
            r.strength == 0,
    {
        MatchIndex { index: 0, strength: 0 }
    }

    pub fn update(&mut self, index: usize, strength: u32)
        ensures
            *final(self) == old(self).spec_updated(index, strength),
    {
        if self.strength < strength {
            self.index = index;
            self.strength = strength;
        }
    }

    pub fn strength(&self) -> (r: u32)
        ensures
            r == self.strength,
    {
        self.strength
    }

    pub fn position(&self) -> (r: usize)
        ensures
            r == self.index,
    {
        self.index
    }

    pub fn is_match(&self) -> (r: bool)
        ensures
            r == (self.strength > 0),
    {
        self.strength > 0
    }
}

} // verus!
