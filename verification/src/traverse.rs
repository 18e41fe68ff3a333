//! The visible lines of the outline, produced without recursion.

use crate::descent::LineModel;
use crate::forest::Forest;
use crate::store::TreeStore;
use vstd::prelude::*;

verus! {

/// One line of the rendered outline: how deep the node stands, which node
/// it is, and what a renderer needs to draw it.
#[derive(Debug, Clone)]
pub struct VisibleLine {
    pub depth: usize,
    pub id: u128,
    pub name: String,
    pub is_selected: bool,
    pub is_leaf: bool,
}

impl View for VisibleLine {
    type V = LineModel;

    open spec fn view(&self) -> LineModel {
        LineModel {
            depth: self.depth as nat,
            id: self.id,
            name: self.name@,
            is_selected: self.is_selected,
            is_leaf: self.is_leaf,
        }
    }
}

/// The lines of a vector, each by its view.
pub open spec fn lines_of(lines: Seq<VisibleLine>) -> Seq<LineModel> {
    lines.map_values(|line: VisibleLine| line@)
}

/// A sibling group that the walk is in the middle of: the members before
/// `next` are done. The frame at index `k` of the stack stands at depth `k`.
struct Frame {
    owner: Option<u128>,
    next: usize,
}

/// The lines that a stack of frames still owes, the topmost frame first.
spec fn owed(forest: Forest, frames: Seq<Frame>, selected: Option<u128>) -> Seq<LineModel>
    decreases frames.len(),
{
    if frames.len() == 0 {
        Seq::empty()
    } else {
        forest.lines_from(
            frames.last().owner,
            frames.last().next as int,
            (frames.len() - 1) as nat,
            selected,
        ) + owed(forest, frames.drop_last(), selected)
    }
}

/// Each frame names an existing group and an index within it or at its end.
spec fn frames_fit(forest: Forest, frames: Seq<Frame>) -> bool {
    forall|k: int|
        0 <= k < frames.len() ==> forest.owns_group((#[trigger] frames[k]).owner) && frames[k].next
            <= forest.group(frames[k].owner).len()
}

impl TreeStore {
    /// Every node of the outline as one line, in depth-first pre-order:
    /// a node, then its children in order, then its next sibling.
    /// Top-level nodes have depth 0. Each call starts afresh.
    pub fn traverse_visible(&self) -> (lines: Vec<VisibleLine>)
        requires
            self.well_formed(),
        ensures
            lines_of(lines@) == self@.visible_lines(),
            lines@.len() == self@.forest.nodes.len(),
    {
        let ghost forest = self@.forest;
        let ghost selected = self@.selected;
        let mut lines: Vec<VisibleLine> = Vec::new();
        let mut stack: Vec<Frame> = Vec::new();
        stack.push(Frame { owner: None, next: 0 });
        proof {
            assert(owed(forest, stack@, selected) =~= forest.visible_lines(selected)) by {
                reveal_with_fuel(owed, 2);
            }
        }
        while stack.len() > 0
            invariant
                self.well_formed(),
                forest == self@.forest,
                selected == self@.selected,
                frames_fit(forest, stack@),
                lines_of(lines@) + owed(forest, stack@, selected) == forest.visible_lines(selected),
            decreases 2 * owed(forest, stack@, selected).len() + stack@.len(),
        {
            let ghost before = stack@;
            let ghost done = lines@;
            let depth: usize = stack.len() - 1;
            let frame = stack.pop().unwrap();
            proof {
                assert(stack@ =~= before.drop_last());
                assert(frames_fit(forest, stack@));
            }
            let members = self.group(frame.owner);
            if frame.next < members.len() {
                let id = members[frame.next];
                proof {
                    forest.lemma_slack_shrinks(frame.owner, frame.next as int);
                }
                let node = self.node(id).unwrap();
                let is_selected = match self.selected_node {
                    Some(chosen) => chosen == id,
                    None => false,
                };
                lines.push(
                    VisibleLine {
                        depth,
                        id,
                        name: node.name.clone(),
                        is_selected,
                        is_leaf: !node.is_folder(),
                    },
                );
                let ghost rest = stack@;
                stack.push(Frame { owner: frame.owner, next: frame.next + 1 });
                let ghost middle = stack@;
                stack.push(Frame { owner: Some(id), next: 0 });
                proof {
                    // The popped frame owed this line, then the lines below
                    // it, then the lines of its later siblings; the two new
                    // frames owe the last two, the topmost first.
                    let line = forest.line(id, depth as nat, selected);
                    let below = forest.lines_from(Some(id), 0, (depth + 1) as nat, selected);
                    let after = forest.lines_from(
                        frame.owner,
                        frame.next + 1,
                        depth as nat,
                        selected,
                    );
                    let under = owed(forest, rest, selected);
                    assert(middle.drop_last() =~= rest);
                    assert(stack@.drop_last() =~= middle);
                    assert(owed(forest, middle, selected) == after + under);
                    assert(owed(forest, stack@, selected) == below + (after + under));
                    assert(owed(forest, before, selected) == (seq![line] + below + after) + under);
                    assert(lines_of(lines@) =~= lines_of(done) + seq![line]);
                    assert(lines_of(lines@) + owed(forest, stack@, selected) =~= lines_of(done)
                        + owed(forest, before, selected));
                    assert(frames_fit(forest, stack@));
                }
            }
        }
        proof {
            forest.lemma_lines_list_every_node_once(selected);
        }
        lines
    }
}

} // verus!
