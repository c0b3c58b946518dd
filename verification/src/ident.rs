//! Stable identity paths for tree nodes.
//!
//! Transient per-node state survives across frames only because each
//! logical node addresses it by the same identity every frame.  An
//! identity is the path from the root seed to the node: a sequence of
//! numeric parts, extended by one part per child step.  Two siblings
//! extend the same parent with different parts, so they never collide.

use vstd::prelude::*;

verus! {

/// Path step marking a container's child or inference slot.
pub const TAG_LIST: u64 = 1;

/// Path step marking a map's pending-key and inference slot.
pub const TAG_MAP: u64 = 2;

/// A stable identity for one node of the value tree.
#[derive(Clone)]
pub struct Id {
    parts: Vec<u64>,
}

impl View for Id {
    type V = Seq<u64>;

    closed spec fn view(&self) -> Seq<u64> {
        self.parts@
    }
}

impl Id {
    /// The root identity for a probe session.
    pub fn new(seed: u64) -> (r: Id)
        ensures
            r@ == seq![seed],
    {
        let mut parts: Vec<u64> = Vec::new();
        parts.push(seed);
        Id { parts }
    }

    /// The identity of a child slot reached by one more path step.
    pub fn with(&self, part: u64) -> (r: Id)
        ensures
            r@ == self@.push(part),
    {
        let mut parts = self.parts.clone();
        parts.push(part);
        Id { parts }
    }

    /// A copy addressing the same node.
    pub fn clone_id(&self) -> (r: Id)
        ensures
            r@ == self@,
    {
        Id { parts: self.parts.clone() }
    }

    /// Whether two identities address the same node.
    pub fn same(&self, other: &Id) -> (r: bool)
        ensures
            r == (self@ == other@),
    {
        if self.parts.len() != other.parts.len() {
            proof {
                assert(self@.len() != other@.len());
            }
            return false;
        }
        let n = self.parts.len();
        let mut i: usize = 0;
        while i < n
            invariant
                n == self.parts.len() == other.parts.len(),
                0 <= i <= n,
                forall|j: int| 0 <= j < i ==> self@[j] == other@[j],
            decreases n - i,
        {
            if self.parts[i] != other.parts[i] {
                return false;
            }
            i += 1;
        }
        proof {
            assert(self@ =~= other@);
        }
        true
    }
}

/// Two siblings never share an identity: extending one parent path by
/// two different steps yields two different identities.
pub proof fn lemma_sibling_ids_differ(parent: Seq<u64>, i: u64, j: u64)
    requires
        i != j,
    ensures
        parent.push(i) != parent.push(j),
{
    assert(parent.push(i)[parent.len() as int] == i);
    assert(parent.push(j)[parent.len() as int] == j);
}

} // verus!
