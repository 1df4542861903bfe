//! Laws of the projectors, each proved over the spec-level model that
//! the executable functions are verified against.

use vstd::prelude::*;
use crate::crawl::opt_len;
use crate::crawl::pair_count;
use crate::crawl::spec_crawl;
use crate::crawl::spec_crawl_blocks;
use crate::crawl::spec_crawl_kids;
use crate::crawl::spec_first_heading;
use crate::crawl::spec_first_heading_kids;
use crate::crawl::spec_info;
use crate::crawl::spec_is_heading;
use crate::crawl::spec_title;
use crate::crawl::text_of;
use crate::decode::spec_decode;
use crate::markdown::spec_base_fragment;
use crate::markdown::spec_fragment;
use crate::markdown::spec_is_editable;
use crate::markdown::spec_md;
use crate::markdown::spec_md_kids;
use crate::markdown::spec_markdown;
use crate::model::BlockInfoView;
use crate::model::BlockView;
use crate::model::CrawlResultView;
use crate::refs::add_id;
use crate::refs::spec_add_refs;
use crate::refs::spec_collect;
use crate::refs::spec_collect_kids;
use crate::refs::spec_doc_ids;
use crate::refs::ref_ids_of;
use crate::refs::entry_trashed;

verus! {

/// Round-trip identity: decoding a buffer and crawling the result is a
/// function of the bytes alone, so two crawls of the same buffer agree
/// in every record, the title and the summary.
pub proof fn lemma_crawl_deterministic(bytes: Seq<u8>, r1: CrawlResultView, r2: CrawlResultView)
    requires
        spec_decode(bytes) is Some,
        r1 == spec_crawl(spec_decode(bytes)->Some_0),
        r2 == spec_crawl(spec_decode(bytes)->Some_0),
    ensures
        r1 == r2,
{
}

/// Order preservation: a crawl lists the block's own record first, then
/// the children's subtrees whole and in child order — the records of one
/// child's subtree all come before the next child's begin.
pub proof fn lemma_preorder(b: BlockView, pf: Option<Seq<char>>, pid: Option<Seq<char>>)
    ensures
        spec_crawl_blocks(b, pf, pid) == seq![spec_info(b, pf, pid)] + spec_crawl_kids(
            b.children,
            0,
            b.flavour,
            b.block_id,
        ),
        forall|i: int|
            0 <= i < b.children.len() ==> spec_crawl_kids(b.children, i, b.flavour, b.block_id)
                == spec_crawl_blocks(b.children[i], Some(b.flavour), Some(b.block_id))
                + spec_crawl_kids(b.children, i + 1, b.flavour, b.block_id),
{
}

/// Whether a record reports the same number of entries in both
/// reference slots, an absent slot counting as empty.
pub open spec fn ref_lengths_match(info: BlockInfoView) -> bool {
    opt_len(info.ref_doc_id) == opt_len(info.ref_info)
}

/// Reference length invariant: every record of a crawl reports as many
/// reference targets as reference metadata entries.
pub proof fn lemma_ref_lengths(b: BlockView, pf: Option<Seq<char>>, pid: Option<Seq<char>>)
    ensures
        forall|i: int|
            0 <= i < spec_crawl_blocks(b, pf, pid).len() ==> ref_lengths_match(
                #[trigger] spec_crawl_blocks(b, pf, pid)[i],
            ),
    decreases b, 0int,
{
    let s = spec_crawl_blocks(b, pf, pid);
    let m = pair_count(b);
    lemma_ref_lengths_kids(b.children, 0, b.flavour, b.block_id);
    assert forall|i: int| 0 <= i < s.len() implies ref_lengths_match(#[trigger] s[i]) by {
        if i == 0 {
            assert(s[0] == spec_info(b, pf, pid));
            assert(0 <= m <= opt_len(b.ref_doc_id) && m <= opt_len(b.ref_info));
            match b.ref_doc_id {
                Some(v) => {
                    assert(v.take(m).len() == m);
                },
                None => { },
            }
            match b.ref_info {
                Some(v) => {
                    assert(v.take(m).len() == m);
                },
                None => { },
            }
        } else {
            assert(s[i] == spec_crawl_kids(b.children, 0, b.flavour, b.block_id)[i - 1]);
        }
    }
}

pub proof fn lemma_ref_lengths_kids(cs: Seq<BlockView>, i: int, pf: Seq<char>, pid: Seq<char>)
    ensures
        forall|j: int|
            0 <= j < spec_crawl_kids(cs, i, pf, pid).len() ==> ref_lengths_match(
                #[trigger] spec_crawl_kids(cs, i, pf, pid)[j],
            ),
    decreases cs, cs.len() - i,
{
    if 0 <= i < cs.len() {
        lemma_ref_lengths(cs[i], Some(pf), Some(pid));
        lemma_ref_lengths_kids(cs, i + 1, pf, pid);
        let head = spec_crawl_blocks(cs[i], Some(pf), Some(pid));
        let tail = spec_crawl_kids(cs, i + 1, pf, pid);
        assert forall|j: int|
            0 <= j < spec_crawl_kids(cs, i, pf, pid).len() implies ref_lengths_match(
            #[trigger] spec_crawl_kids(cs, i, pf, pid)[j],
        ) by {
            if j < head.len() {
                assert(spec_crawl_kids(cs, i, pf, pid)[j] == head[j]);
            } else {
                assert(spec_crawl_kids(cs, i, pf, pid)[j] == tail[j - head.len()]);
            }
        }
    }
}

/// Whether one id list's members all occur in another.
pub open spec fn id_subset(a: Seq<Seq<char>>, b: Seq<Seq<char>>) -> bool {
    forall|x: Seq<char>| a.contains(x) ==> b.contains(x)
}

pub proof fn lemma_add_id_facts(acc: Seq<Seq<char>>, id: Seq<char>)
    ensures
        add_id(acc, id).contains(id),
        id_subset(acc, add_id(acc, id)),
        forall|x: Seq<char>| add_id(acc, id).contains(x) ==> acc.contains(x) || x == id,
{
    if !acc.contains(id) {
        let p = acc.push(id);
        assert(p[acc.len() as int] == id);
        assert(p.contains(id));
        assert forall|x: Seq<char>| acc.contains(x) implies p.contains(x) by {
            let j = choose|j: int| 0 <= j < acc.len() && acc[j] == x;
            assert(p[j] == x);
        }
        assert forall|x: Seq<char>| p.contains(x) implies acc.contains(x) || x == id by {
            let j = choose|j: int| 0 <= j < p.len() && p[j] == x;
            if j < acc.len() {
                assert(acc[j] == x);
            }
        }
    }
}

pub proof fn lemma_add_refs_extends(b: BlockView, i: int, inc: bool, acc: Seq<Seq<char>>)
    ensures
        id_subset(acc, spec_add_refs(b, i, inc, acc)),
    decreases ref_ids_of(b).len() - i,
{
    let ids = ref_ids_of(b);
    if 0 <= i < ids.len() {
        let acc2 = if inc || !entry_trashed(b, i) {
            add_id(acc, ids[i])
        } else {
            acc
        };
        lemma_add_id_facts(acc, ids[i]);
        lemma_add_refs_extends(b, i + 1, inc, acc2);
        assert forall|x: Seq<char>| acc.contains(x) implies spec_add_refs(
            b,
            i,
            inc,
            acc,
        ).contains(x) by {
            assert(acc2.contains(x));
        }
    }
}

pub proof fn lemma_collect_extends(b: BlockView, inc: bool, acc: Seq<Seq<char>>)
    ensures
        id_subset(acc, spec_collect(b, inc, acc)),
    decreases b, 0int,
{
    let acc1 = spec_add_refs(b, 0, inc, acc);
    lemma_add_refs_extends(b, 0, inc, acc);
    lemma_collect_kids_extends(b.children, 0, inc, acc1);
    assert forall|x: Seq<char>| acc.contains(x) implies spec_collect(b, inc, acc).contains(x) by {
        assert(acc1.contains(x));
    }
}

pub proof fn lemma_collect_kids_extends(cs: Seq<BlockView>, i: int, inc: bool, acc: Seq<Seq<char>>)
    ensures
        id_subset(acc, spec_collect_kids(cs, i, inc, acc)),
    decreases cs, cs.len() - i,
{
    if 0 <= i < cs.len() {
        let acc1 = spec_collect(cs[i], inc, acc);
        lemma_collect_extends(cs[i], inc, acc);
        lemma_collect_kids_extends(cs, i + 1, inc, acc1);
        assert forall|x: Seq<char>| acc.contains(x) implies spec_collect_kids(
            cs,
            i,
            inc,
            acc,
        ).contains(x) by {
            assert(acc1.contains(x));
        }
    }
}

pub proof fn lemma_add_refs_mono(b: BlockView, i: int, acc_f: Seq<Seq<char>>, acc_t: Seq<Seq<char>>)
    requires
        id_subset(acc_f, acc_t),
    ensures
        id_subset(spec_add_refs(b, i, false, acc_f), spec_add_refs(b, i, true, acc_t)),
    decreases ref_ids_of(b).len() - i,
{
    let ids = ref_ids_of(b);
    if 0 <= i < ids.len() {
        let acc2f = if !entry_trashed(b, i) {
            add_id(acc_f, ids[i])
        } else {
            acc_f
        };
        let acc2t = add_id(acc_t, ids[i]);
        lemma_add_id_facts(acc_f, ids[i]);
        lemma_add_id_facts(acc_t, ids[i]);
        assert(id_subset(acc2f, acc2t));
        lemma_add_refs_mono(b, i + 1, acc2f, acc2t);
    }
}

pub proof fn lemma_collect_mono(b: BlockView, acc_f: Seq<Seq<char>>, acc_t: Seq<Seq<char>>)
    requires
        id_subset(acc_f, acc_t),
    ensures
        id_subset(spec_collect(b, false, acc_f), spec_collect(b, true, acc_t)),
    decreases b, 0int,
{
    lemma_add_refs_mono(b, 0, acc_f, acc_t);
    lemma_collect_kids_mono(b.children, 0, spec_add_refs(b, 0, false, acc_f), spec_add_refs(
        b,
        0,
        true,
        acc_t,
    ));
}

pub proof fn lemma_collect_kids_mono(
    cs: Seq<BlockView>,
    i: int,
    acc_f: Seq<Seq<char>>,
    acc_t: Seq<Seq<char>>,
)
    requires
        id_subset(acc_f, acc_t),
    ensures
        id_subset(spec_collect_kids(cs, i, false, acc_f), spec_collect_kids(cs, i, true, acc_t)),
    decreases cs, cs.len() - i,
{
    if 0 <= i < cs.len() {
        lemma_collect_mono(cs[i], acc_f, acc_t);
        lemma_collect_kids_mono(cs, i + 1, spec_collect(cs[i], false, acc_f), spec_collect(
            cs[i],
            true,
            acc_t,
        ));
    }
}

/// Trash filter monotonicity: every id collected with the trash filter
/// on is also collected with the filter off — including trashed targets
/// can only grow the result.
pub proof fn lemma_trash_filter_monotone(root: BlockView)
    ensures
        id_subset(spec_doc_ids(root, false), spec_doc_ids(root, true)),
{
    lemma_collect_mono(root, Seq::empty(), Seq::empty());
}

/// Whether any block of the subtree has a heading flavour.
pub open spec fn tree_has_heading(b: BlockView) -> bool
    decreases b, 0int,
{
    spec_is_heading(b.flavour) || kids_have_heading(b.children, 0)
}

pub open spec fn kids_have_heading(cs: Seq<BlockView>, i: int) -> bool
    decreases cs, cs.len() - i,
{
    if 0 <= i < cs.len() {
        tree_has_heading(cs[i]) || kids_have_heading(cs, i + 1)
    } else {
        false
    }
}

pub proof fn lemma_no_heading_found(b: BlockView)
    requires
        !tree_has_heading(b),
    ensures
        spec_first_heading(b) is None,
    decreases b, 0int,
{
    lemma_no_heading_found_kids(b.children, 0);
}

pub proof fn lemma_no_heading_found_kids(cs: Seq<BlockView>, i: int)
    requires
        !kids_have_heading(cs, i),
    ensures
        spec_first_heading_kids(cs, i) is None,
    decreases cs, cs.len() - i,
{
    if 0 <= i < cs.len() {
        lemma_no_heading_found(cs[i]);
        lemma_no_heading_found_kids(cs, i + 1);
    }
}

/// Title fallback: a document without a heading block anywhere and
/// without text on its root block titles as the empty string, in the
/// crawl and in the Markdown rendering alike.
pub proof fn lemma_title_fallback(root: BlockView, ai: bool)
    requires
        !tree_has_heading(root),
        text_of(root.content).len() == 0,
    ensures
        spec_crawl(root).title == Seq::<char>::empty(),
        spec_markdown(root, ai).title == Seq::<char>::empty(),
{
    lemma_no_heading_found(root);
    assert(spec_title(root) =~= Seq::<char>::empty());
}

/// Whether any block of the subtree has a flavour with an editable
/// rendering variant.
pub open spec fn tree_has_editable(b: BlockView) -> bool
    decreases b, 0int,
{
    spec_is_editable(b.flavour) || kids_have_editable(b.children, 0)
}

pub open spec fn kids_have_editable(cs: Seq<BlockView>, i: int) -> bool
    decreases cs, cs.len() - i,
{
    if 0 <= i < cs.len() {
        tree_has_editable(cs[i]) || kids_have_editable(cs, i + 1)
    } else {
        false
    }
}

/// AI-editable flag isolation, per block: a flavour without an editable
/// variant renders its fragment identically under both modes.
pub proof fn lemma_fragment_mode_independent(b: BlockView, depth: int)
    requires
        !spec_is_editable(b.flavour),
    ensures
        spec_fragment(b, depth, true) == spec_fragment(b, depth, false),
        spec_fragment(b, depth, true) == spec_base_fragment(b, depth),
{
}

/// AI-editable flag isolation, per tree: a document none of whose blocks
/// has an editable flavour renders to the same Markdown under both
/// modes; the flag changes formatting of editable flavours only.
pub proof fn lemma_markdown_mode_independent(b: BlockView, depth: int)
    requires
        !tree_has_editable(b),
    ensures
        spec_md(b, depth, true) == spec_md(b, depth, false),
    decreases b, 0int,
{
    lemma_markdown_mode_independent_kids(b.children, 0, crate::markdown::spec_next_depth(depth));
}

pub proof fn lemma_markdown_mode_independent_kids(cs: Seq<BlockView>, i: int, depth: int)
    requires
        !kids_have_editable(cs, i),
    ensures
        spec_md_kids(cs, i, depth, true) == spec_md_kids(cs, i, depth, false),
    decreases cs, cs.len() - i,
{
    if 0 <= i < cs.len() {
        lemma_markdown_mode_independent(cs[i], depth);
        lemma_markdown_mode_independent_kids(cs, i + 1, depth);
    }
}

/// The flavours this library's projectors render with a rule of their
/// own; everything else takes the fallback path.
pub open spec fn known_flavour(fl: Seq<char>) -> bool {
    fl == "page"@ || fl == "h1"@ || fl == "h2"@ || fl == "h3"@ || fl == "paragraph"@ || fl
        == "list"@ || fl == "code"@ || fl == "quote"@ || fl == "divider"@ || fl == "embed"@ || fl
        == "link"@
}

/// Unknown-flavour pass-through: a block with an unrecognized flavour
/// keeps its content verbatim in its crawl record, and its Markdown is
/// its raw text alone, under either mode — never dropped, never fatal.
pub proof fn lemma_unknown_flavour(
    b: BlockView,
    depth: int,
    ai: bool,
    pf: Option<Seq<char>>,
    pid: Option<Seq<char>>,
)
    requires
        !known_flavour(b.flavour),
    ensures
        spec_info(b, pf, pid).content == b.content,
        spec_fragment(b, depth, ai) == spec_base_fragment(b, depth),
        text_of(b.content).len() > 0 ==> spec_base_fragment(b, depth) == text_of(b.content)
            + "\n"@,
{
}

} // verus!
