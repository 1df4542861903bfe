//! Read-only navigation over a decoded document tree: root access,
//! lookup by block id, a node's ordered children, and a node's parent.
//! An id absent from the tree is a soft condition — the caller gets
//! nothing back, never a failure — since a reference may validly point
//! outside the current snapshot.

use vstd::prelude::*;
use crate::model::Block;
use crate::model::BlockView;
use crate::model::Document;
use crate::model::block_views;

verus! {

/// The first block with the given id, in pre-order.
pub open spec fn spec_find(b: BlockView, id: Seq<char>) -> Option<BlockView>
    decreases b, 0int,
{
    if b.block_id == id {
        Some(b)
    } else {
        spec_find_kids(b.children, 0, id)
    }
}

pub open spec fn spec_find_kids(cs: Seq<BlockView>, i: int, id: Seq<char>) -> Option<BlockView>
    decreases cs, cs.len() - i,
{
    if 0 <= i < cs.len() {
        match spec_find(cs[i], id) {
            Some(r) => Some(r),
            None => spec_find_kids(cs, i + 1, id),
        }
    } else {
        None
    }
}

/// Whether one of the block's own children carries the id.
pub open spec fn spec_has_child(b: BlockView, id: Seq<char>) -> bool {
    exists|j: int| 0 <= j < b.children.len() && (#[trigger] b.children[j]).block_id == id
}

/// The first block, in pre-order, among whose children the id occurs:
/// the structural parent of the block so named.
pub open spec fn spec_parent(b: BlockView, id: Seq<char>) -> Option<BlockView>
    decreases b, 0int,
{
    if spec_has_child(b, id) {
        Some(b)
    } else {
        spec_parent_kids(b.children, 0, id)
    }
}

pub open spec fn spec_parent_kids(cs: Seq<BlockView>, i: int, id: Seq<char>) -> Option<BlockView>
    decreases cs, cs.len() - i,
{
    if 0 <= i < cs.len() {
        match spec_parent(cs[i], id) {
            Some(r) => Some(r),
            None => spec_parent_kids(cs, i + 1, id),
        }
    } else {
        None
    }
}

fn find_in<'a>(b: &'a Block, id: &String) -> (r: Option<&'a Block>)
    ensures
        (match r {
            Some(f) => spec_find(b@, id@) == Some(f@),
            None => spec_find(b@, id@) is None,
        }),
    decreases b, 0int,
{
    if b.block_id.eq(id) {
        Some(b)
    } else {
        find_in_kids(&b.children, 0, id)
    }
}

fn find_in_kids<'a>(cs: &'a Vec<Block>, i: usize, id: &String) -> (r: Option<&'a Block>)
    requires
        i <= cs@.len(),
    ensures
        (match r {
            Some(f) => spec_find_kids(block_views(cs@), i as int, id@) == Some(f@),
            None => spec_find_kids(block_views(cs@), i as int, id@) is None,
        }),
    decreases cs, cs@.len() - i,
{
    if i < cs.len() {
        proof {
            crate::model::lemma_block_views_index(cs@, i as int);
        }
        match find_in(&cs[i], id) {
            Some(f) => Some(f),
            None => find_in_kids(cs, i + 1, id),
        }
    } else {
        proof {
            crate::model::lemma_block_views_len(cs@);
        }
        None
    }
}

/// Whether one of the block's own children carries the id.
fn has_child(b: &Block, id: &String) -> (r: bool)
    ensures
        r == spec_has_child(b@, id@),
{
    let mut i: usize = 0;
    while i < b.children.len()
        invariant
            i <= b.children@.len(),
            forall|j: int| 0 <= j < i ==> (#[trigger] b.children@[j]).block_id@ != id@,
        decreases b.children@.len() - i,
    {
        if b.children[i].block_id.eq(id) {
            proof {
                crate::model::lemma_block_views_index(b.children@, i as int);
                assert(b@.children[i as int].block_id == id@);
            }
            return true;
        }
        i = i + 1;
    }
    proof {
        crate::model::lemma_block_views_len(b.children@);
        assert forall|j: int| 0 <= j < b@.children.len() implies (
        #[trigger] b@.children[j]).block_id != id@ by {
            crate::model::lemma_block_views_index(b.children@, j);
        }
    }
    false
}

fn parent_in<'a>(b: &'a Block, id: &String) -> (r: Option<&'a Block>)
    ensures
        (match r {
            Some(p) => spec_parent(b@, id@) == Some(p@),
            None => spec_parent(b@, id@) is None,
        }),
    decreases b, 0int,
{
    if has_child(b, id) {
        Some(b)
    } else {
        parent_in_kids(&b.children, 0, id)
    }
}

fn parent_in_kids<'a>(cs: &'a Vec<Block>, i: usize, id: &String) -> (r: Option<&'a Block>)
    requires
        i <= cs@.len(),
    ensures
        (match r {
            Some(p) => spec_parent_kids(block_views(cs@), i as int, id@) == Some(p@),
            None => spec_parent_kids(block_views(cs@), i as int, id@) is None,
        }),
    decreases cs, cs@.len() - i,
{
    if i < cs.len() {
        proof {
            crate::model::lemma_block_views_index(cs@, i as int);
        }
        match parent_in(&cs[i], id) {
            Some(p) => Some(p),
            None => parent_in_kids(cs, i + 1, id),
        }
    } else {
        proof {
            crate::model::lemma_block_views_len(cs@);
        }
        None
    }
}

impl Document {
    /// The root block of the tree.
    pub fn root(&self) -> (r: &Block)
        ensures
            r@ == self@,
    {
        &self.root
    }

    /// The first block with the given id, in pre-order; nothing when the
    /// id is absent from this tree.
    pub fn lookup<'a>(&'a self, id: &String) -> (r: Option<&'a Block>)
        ensures
            (match r {
                Some(f) => spec_find(self@, id@) == Some(f@),
                None => spec_find(self@, id@) is None,
            }),
    {
        find_in(&self.root, id)
    }

    /// The ordered children of the block with the given id.
    pub fn children_of<'a>(&'a self, id: &String) -> (r: Option<&'a Vec<Block>>)
        ensures
            (match r {
                Some(v) => spec_find(self@, id@) matches Some(f) && block_views(v@) == f.children,
                None => spec_find(self@, id@) is None,
            }),
    {
        match find_in(&self.root, id) {
            Some(b) => Some(&b.children),
            None => None,
        }
    }

    /// The structural parent of the block with the given id; nothing for
    /// the root or for an absent id.
    pub fn parent_of<'a>(&'a self, id: &String) -> (r: Option<&'a Block>)
        ensures
            (match r {
                Some(p) => spec_parent(self@, id@) == Some(p@),
                None => spec_parent(self@, id@) is None,
            }),
    {
        parent_in(&self.root, id)
    }
}

} // verus!
