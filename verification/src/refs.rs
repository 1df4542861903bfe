//! The reference extractor: collects the document identifiers referenced
//! from a tree, deduplicated in first-discovery order, with a filter for
//! references whose metadata marks the target as trashed.

use vstd::prelude::*;
use crate::crawl::string_eq_lit;
use crate::model::Block;
use crate::model::BlockView;
use crate::model::Document;

verus! {

/// A reference's metadata marks its target as trashed when it starts
/// with this word.
pub open spec fn spec_is_trashed(info: Seq<char>) -> bool {
    info.len() >= 5 && info.take(5) == "trash"@
}

/// The reference targets of a block, an absent slot counting as none.
pub open spec fn ref_ids_of(b: BlockView) -> Seq<Seq<char>> {
    match b.ref_doc_id {
        None => Seq::empty(),
        Some(v) => v,
    }
}

/// The metadata of the block's reference `i`, when it exists; a target
/// beyond the metadata slot has none.
pub open spec fn ref_info_at(b: BlockView, i: int) -> Option<Seq<char>> {
    match b.ref_info {
        None => None,
        Some(v) => if 0 <= i < v.len() {
            Some(v[i])
        } else {
            None
        },
    }
}

/// Whether the block's reference `i` is marked trashed; a reference
/// without metadata is not.
pub open spec fn entry_trashed(b: BlockView, i: int) -> bool {
    match ref_info_at(b, i) {
        None => false,
        Some(s) => spec_is_trashed(s),
    }
}

/// Appends an id unless it was already discovered.
pub open spec fn add_id(acc: Seq<Seq<char>>, id: Seq<char>) -> Seq<Seq<char>> {
    if acc.contains(id) {
        acc
    } else {
        acc.push(id)
    }
}

/// Folds the block's own references from index `i` on into the
/// accumulator, skipping trashed ones unless `inc` asks for them.
pub open spec fn spec_add_refs(b: BlockView, i: int, inc: bool, acc: Seq<Seq<char>>) -> Seq<
    Seq<char>,
>
    decreases ref_ids_of(b).len() - i,
{
    let ids = ref_ids_of(b);
    if 0 <= i < ids.len() {
        let acc2 = if inc || !entry_trashed(b, i) {
            add_id(acc, ids[i])
        } else {
            acc
        };
        spec_add_refs(b, i + 1, inc, acc2)
    } else {
        acc
    }
}

/// Folds a whole subtree, pre-order, into the accumulator.
pub open spec fn spec_collect(b: BlockView, inc: bool, acc: Seq<Seq<char>>) -> Seq<Seq<char>>
    decreases b, 0int,
{
    spec_collect_kids(b.children, 0, inc, spec_add_refs(b, 0, inc, acc))
}

pub open spec fn spec_collect_kids(
    cs: Seq<BlockView>,
    i: int,
    inc: bool,
    acc: Seq<Seq<char>>,
) -> Seq<Seq<char>>
    decreases cs, cs.len() - i,
{
    if 0 <= i < cs.len() {
        spec_collect_kids(cs, i + 1, inc, spec_collect(cs[i], inc, acc))
    } else {
        acc
    }
}

/// All document ids referenced from the tree, deduplicated, in
/// first-discovery order; with `include_trash` false, a reference whose
/// metadata marks its target trashed contributes nothing.
pub open spec fn spec_doc_ids(root: BlockView, include_trash: bool) -> Seq<Seq<char>> {
    spec_collect(root, include_trash, Seq::empty())
}

/// Whether the metadata string marks its target as trashed.
pub(crate) fn is_trashed(info: &String) -> (r: bool)
    ensures
        r == spec_is_trashed(info@),
{
    if info.as_str().unicode_len() >= 5 {
        let p = info.as_str().substring_char(0, 5);
        string_eq_lit(&p.to_owned(), "trash")
    } else {
        false
    }
}

/// Whether an id was already discovered.
fn contains_id(acc: &Vec<String>, id: &String) -> (r: bool)
    ensures
        r == acc.deep_view().contains(id@),
{
    let mut i: usize = 0;
    while i < acc.len()
        invariant
            i <= acc@.len(),
            forall|j: int| 0 <= j < i ==> acc@[j]@ != id@,
        decreases acc@.len() - i,
    {
        if acc[i].eq(id) {
            proof {
                assert(acc.deep_view()[i as int] == id@);
            }
            return true;
        }
        i = i + 1;
    }
    proof {
        assert forall|j: int| 0 <= j < acc.deep_view().len() implies acc.deep_view()[j] != id@ by {
            assert(acc.deep_view()[j] == acc@[j]@);
        }
    }
    false
}

fn add_refs_into(b: &Block, i: usize, inc: bool, acc: &mut Vec<String>)
    requires
        (match b.ref_doc_id {
            None => i == 0,
            Some(v) => i <= v@.len(),
        }),
    ensures
        final(acc).deep_view() == spec_add_refs(b@, i as int, inc, old(acc).deep_view()),
    decreases (match b.ref_doc_id {
        None => 0int,
        Some(v) => v@.len() - i,
    }),
{
    match &b.ref_doc_id {
        None => {
        },
        Some(ids) => {
            if i < ids.len() {
                let take = if inc {
                    true
                } else {
                    let trashed = match &b.ref_info {
                        None => false,
                        Some(infos) => if i < infos.len() {
                            is_trashed(&infos[i])
                        } else {
                            false
                        },
                    };
                    !trashed
                };
                if take {
                    if !contains_id(acc, &ids[i]) {
                        let ghost pre = acc.deep_view();
                        acc.push(ids[i].clone());
                        proof {
                            assert(acc.deep_view() =~= pre.push(ids.deep_view()[i as int]));
                        }
                    }
                }
                add_refs_into(b, i + 1, inc, acc);
            }
        },
    }
}

fn collect_into(b: &Block, inc: bool, acc: &mut Vec<String>)
    ensures
        final(acc).deep_view() == spec_collect(b@, inc, old(acc).deep_view()),
    decreases b, 0int,
{
    add_refs_into(b, 0, inc, acc);
    collect_kids_into(&b.children, 0, inc, acc);
}

fn collect_kids_into(cs: &Vec<Block>, i: usize, inc: bool, acc: &mut Vec<String>)
    requires
        i <= cs@.len(),
    ensures
        final(acc).deep_view() == spec_collect_kids(
            crate::model::block_views(cs@),
            i as int,
            inc,
            old(acc).deep_view(),
        ),
    decreases cs, cs@.len() - i,
{
    if i < cs.len() {
        proof {
            crate::model::lemma_block_views_index(cs@, i as int);
        }
        collect_into(&cs[i], inc, acc);
        collect_kids_into(cs, i + 1, inc, acc);
    } else {
        proof {
            crate::model::lemma_block_views_len(cs@);
        }
    }
}

/// Collects every document id referenced from the tree, deduplicated in
/// first-discovery order; trashed references are skipped unless
/// `include_trash` asks for them.
pub fn collect_doc_ids(doc: &Document, include_trash: bool) -> (r: Vec<String>)
    ensures
        r.deep_view() == spec_doc_ids(doc@, include_trash),
{
    let mut acc: Vec<String> = Vec::new();
    proof {
        assert(acc.deep_view() =~= Seq::<Seq<char>>::empty());
    }
    collect_into(&doc.root, include_trash, &mut acc);
    acc
}

} // verus!
