//! Growing the forest keeps it well formed.

use crate::forest::Forest;
use vstd::prelude::*;

verus! {

/// What grafting does to each sibling group: the group of `owner` gains
/// `id` at its end, the new node owns an empty group, every other group
/// stays as it was.
pub proof fn lemma_graft_groups(s: Forest, owner: Option<u128>, id: u128)
    requires
        s.linked(),
        s.owns_group(owner),
        !s.contains(id),
    ensures
        s.graft(owner, id).nodes.dom() == s.nodes.dom().insert(id),
        s.graft(owner, id).group(owner) == s.group(owner).push(id),
        s.graft(owner, id).group(Some(id)) == Seq::<u128>::empty(),
        forall|other: Option<u128>|
            other != owner && other != Some(id) ==> #[trigger] s.graft(owner, id).group(other)
                == s.group(other),
        s.graft(owner, id).owner_of(id) == owner,
        forall|x: u128| x != id ==> #[trigger] s.graft(owner, id).owner_of(x) == s.owner_of(x),
{
}

/// Grafting a node that the table does not hold yet onto an existing group
/// keeps the forest well formed.
pub proof fn lemma_graft_keeps_wf(s: Forest, owner: Option<u128>, id: u128)
    requires
        s.wf(),
        s.owns_group(owner),
        !s.contains(id),
    ensures
        s.graft(owner, id).wf(),
{
    let t = s.graft(owner, id);
    lemma_graft_groups(s, owner, id);
    // Each node stands in the group of its parent: the new one at the end
    // of its group, every other one where it stood.
    assert forall|x: u128| t.contains(x) implies t.owns_group(#[trigger] t.owner_of(x))
        && t.group(t.owner_of(x)).contains(x) by {
        if x == id {
            assert(t.group(owner)[s.group(owner).len() as int] == id);
        } else {
            let g = s.owner_of(x);
            let i = choose|i: int| 0 <= i < s.group(g).len() && s.group(g)[i] == x;
            assert(t.group(g)[i] == x);
        }
    }
    // The new node is numbered after all the others.
    let birth = choose|birth: Map<u128, nat>| s.ordered_by(birth);
    assert(t.ordered_by(birth.insert(id, s.nodes.len())));
}

} // verus!
