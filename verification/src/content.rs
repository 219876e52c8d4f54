//! Content slots: the marks on cells that wait for a node of the caller's.

use vstd::prelude::*;
use std::collections::HashMap;
use crate::grid::ContentTag;
use crate::handle::NodeId;

verus! {

broadcast use vstd::std_specs::hash::group_hash_axioms;

/// Marks the cell that was placed for the content of a nine-patch.
#[derive(Clone, Copy, Debug, PartialEq, Eq, Structural)]
pub struct NinePatchContent {
    /// Tag of the content slot.
    pub content: ContentTag,
    /// A node has been grafted under the cell.
    pub loaded: bool,
    /// Node that the nine-patch was laid out under.
    pub parent: NodeId,
}

/// The nodes that the caller has ready, by the tag of the slot each is for.
pub open spec fn slot_map(contents: &Option<HashMap<ContentTag, NodeId>>) -> Option<
    Map<ContentTag, NodeId>,
> {
    match contents {
        Some(m) => Some(m@),
        None => None,
    }
}

impl NinePatchContent {
    /// Node to graft under the cell now: the one that is ready for the
    /// slot, as long as none has been grafted yet.
    pub open spec fn graft_node(self, contents: Map<ContentTag, NodeId>) -> Option<NodeId> {
        if !self.loaded && contents.contains_key(self.content) {
            Some(contents[self.content])
        } else {
            None
        }
    }

    /// The mark after a look at the nodes that are ready.
    pub open spec fn after_graft(self, contents: Map<ContentTag, NodeId>) -> NinePatchContent {
        NinePatchContent {
            content: self.content,
            loaded: self.loaded || contents.contains_key(self.content),
            parent: self.parent,
        }
    }

    /// The mark after one look at each of `rounds`, in turn.
    pub open spec fn after_grafts(self, rounds: Seq<Map<ContentTag, NodeId>>) -> NinePatchContent
        decreases rounds.len(),
    {
        if rounds.len() == 0 {
            self
        } else {
            self.after_grafts(rounds.drop_last()).after_graft(rounds.last())
        }
    }

    /// Number of looks, one at each of `rounds` in turn, that hand out a
    /// node to graft.
    pub open spec fn grafts(self, rounds: Seq<Map<ContentTag, NodeId>>) -> nat
        decreases rounds.len(),
    {
        if rounds.len() == 0 {
            0
        } else {
            let before = self.after_grafts(rounds.drop_last());
            self.grafts(rounds.drop_last()) + (if before.graft_node(rounds.last()) is Some {
                1nat
            } else {
                0nat
            })
        }
    }

    /// Looks for a node that is ready for the slot. Where one is and none
    /// has been grafted yet, it is handed out to be grafted under the cell,
    /// and the mark is set to loaded. Otherwise nothing changes.
    pub fn graft(&mut self, contents: &HashMap<ContentTag, NodeId>) -> (node: Option<NodeId>)
        ensures
            node == old(self).graft_node(contents@),
            *final(self) == old(self).after_graft(contents@),
    {
        if self.loaded {
            return None;
        }
        match contents.get(&self.content) {
            Some(node) => {
                self.loaded = true;
                Some(*node)
            },
            None => None,
        }
    }
}

/// A content slot is loaded at most once and stays loaded: over any run of
/// looks at the nodes that are ready, a mark that was loaded stays as it
/// was and hands out nothing, and a mark that was not loaded hands out one
/// node if it ends loaded, and none if it does not.
pub proof fn lemma_loaded_once(mark: NinePatchContent, rounds: Seq<Map<ContentTag, NodeId>>)
    ensures
        mark.loaded ==> mark.after_grafts(rounds) == mark,
        mark.after_grafts(rounds).content == mark.content,
        mark.after_grafts(rounds).parent == mark.parent,
        mark.grafts(rounds) == (if !mark.loaded && mark.after_grafts(rounds).loaded {
            1nat
        } else {
            0nat
        }),
        mark.after_grafts(rounds).loaded <==> mark.loaded || exists|i: int|
            0 <= i < rounds.len() && #[trigger] rounds[i].contains_key(mark.content),
    decreases rounds.len(),
{
    if rounds.len() > 0 {
        let earlier = rounds.drop_last();
        lemma_loaded_once(mark, earlier);
        if mark.after_grafts(rounds).loaded && !mark.loaded {
            if rounds.last().contains_key(mark.content) {
                assert(rounds[rounds.len() - 1].contains_key(mark.content));
            } else {
                let i = choose|i: int|
                    0 <= i < earlier.len() && #[trigger] earlier[i].contains_key(mark.content);
                assert(rounds[i].contains_key(mark.content));
            }
        }
        if exists|i: int| 0 <= i < rounds.len() && #[trigger] rounds[i].contains_key(mark.content) {
            let i = choose|i: int|
                0 <= i < rounds.len() && #[trigger] rounds[i].contains_key(mark.content);
            if i < rounds.len() - 1 {
                assert(earlier[i].contains_key(mark.content));
            }
        }
    }
}

} // verus!
