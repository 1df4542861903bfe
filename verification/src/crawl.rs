//! The crawler: flattens a document tree into one [`BlockInfo`] record
//! per block, in pre-order, and derives the document's title and a short
//! text excerpt over the whole traversal.

use vstd::prelude::*;
use crate::model::Block;
use crate::model::BlockInfo;
use crate::model::BlockInfoView;
use crate::model::BlockView;
use crate::model::CrawlResult;
use crate::model::CrawlResultView;
use crate::model::Document;

verus! {

/// How many characters of concatenated text content the summary keeps.
pub const SUMMARY_MAX: usize = 150;

/// The concatenation of the runs from index `i` on.
pub open spec fn concat_from(runs: Seq<Seq<char>>, i: int) -> Seq<char>
    decreases runs.len() - i,
{
    if 0 <= i < runs.len() {
        runs[i] + concat_from(runs, i + 1)
    } else {
        Seq::empty()
    }
}

/// A block's plain text: its content runs concatenated; empty when the
/// block has no content slot.
pub open spec fn text_of(content: Option<Seq<Seq<char>>>) -> Seq<char> {
    match content {
        None => Seq::empty(),
        Some(runs) => concat_from(runs, 0),
    }
}

/// The length of an optional list, an absent list counting as empty.
pub open spec fn opt_len(o: Option<Seq<Seq<char>>>) -> int {
    match o {
        None => 0,
        Some(v) => v.len() as int,
    }
}

/// How many complete reference pairs a block carries: the shorter of the
/// two parallel slots, an absent slot counting as empty.
pub open spec fn pair_count(b: BlockView) -> int {
    if opt_len(b.ref_doc_id) <= opt_len(b.ref_info) {
        opt_len(b.ref_doc_id)
    } else {
        opt_len(b.ref_info)
    }
}

/// Truncates a present reference slot to the complete pairs; an absent
/// slot stays absent, never becomes an empty placeholder.
pub open spec fn reconciled(o: Option<Seq<Seq<char>>>, m: int) -> Option<Seq<Seq<char>>> {
    match o {
        None => None,
        Some(v) => Some(v.take(m)),
    }
}

/// The record the crawler emits for one block: every slot verbatim from
/// the tree node, except the reference pair, which is cut down to its
/// complete pairs so that both slots always report the same length.
pub open spec fn spec_info(
    b: BlockView,
    pf: Option<Seq<char>>,
    pid: Option<Seq<char>>,
) -> BlockInfoView {
    BlockInfoView {
        block_id: b.block_id,
        flavour: b.flavour,
        content: b.content,
        blob: b.blob,
        ref_doc_id: reconciled(b.ref_doc_id, pair_count(b)),
        ref_info: reconciled(b.ref_info, pair_count(b)),
        parent_flavour: pf,
        parent_block_id: pid,
        additional: b.additional,
    }
}

/// Pre-order flattening: the block itself, then each child's subtree in
/// child order, every child recorded with this block as its parent.
pub open spec fn spec_crawl_blocks(
    b: BlockView,
    pf: Option<Seq<char>>,
    pid: Option<Seq<char>>,
) -> Seq<BlockInfoView>
    decreases b, 0int,
{
    seq![spec_info(b, pf, pid)] + spec_crawl_kids(b.children, 0, b.flavour, b.block_id)
}

/// The concatenated subtree records of the children from index `i` on.
pub open spec fn spec_crawl_kids(
    cs: Seq<BlockView>,
    i: int,
    pf: Seq<char>,
    pid: Seq<char>,
) -> Seq<BlockInfoView>
    decreases cs, cs.len() - i,
{
    if 0 <= i < cs.len() {
        spec_crawl_blocks(cs[i], Some(pf), Some(pid)) + spec_crawl_kids(cs, i + 1, pf, pid)
    } else {
        Seq::empty()
    }
}

/// Heading flavours, in the open flavour tag set this library renders.
pub open spec fn spec_is_heading(fl: Seq<char>) -> bool {
    fl == "h1"@ || fl == "h2"@ || fl == "h3"@
}

/// The text of the first heading block in pre-order, if any.
pub open spec fn spec_first_heading(b: BlockView) -> Option<Seq<char>>
    decreases b, 0int,
{
    if spec_is_heading(b.flavour) {
        Some(text_of(b.content))
    } else {
        spec_first_heading_kids(b.children, 0)
    }
}

pub open spec fn spec_first_heading_kids(cs: Seq<BlockView>, i: int) -> Option<Seq<char>>
    decreases cs, cs.len() - i,
{
    if 0 <= i < cs.len() {
        match spec_first_heading(cs[i]) {
            Some(t) => Some(t),
            None => spec_first_heading_kids(cs, i + 1),
        }
    } else {
        None
    }
}

/// The document's title: the first heading's text in traversal order, or
/// the root block's own text when no heading exists, or empty.
pub open spec fn spec_title(root: BlockView) -> Seq<char> {
    match spec_first_heading(root) {
        Some(t) => t,
        None => text_of(root.content),
    }
}

/// All text content of the tree in pre-order, concatenated.
pub open spec fn spec_all_text(b: BlockView) -> Seq<char>
    decreases b, 0int,
{
    text_of(b.content) + spec_all_text_kids(b.children, 0)
}

pub open spec fn spec_all_text_kids(cs: Seq<BlockView>, i: int) -> Seq<char>
    decreases cs, cs.len() - i,
{
    if 0 <= i < cs.len() {
        spec_all_text(cs[i]) + spec_all_text_kids(cs, i + 1)
    } else {
        Seq::empty()
    }
}

/// The summary: the first `SUMMARY_MAX` characters of the tree's
/// concatenated text content.
pub open spec fn spec_summary(root: BlockView) -> Seq<char> {
    let t = spec_all_text(root);
    if t.len() > SUMMARY_MAX {
        t.take(SUMMARY_MAX as int)
    } else {
        t
    }
}

/// What a crawl of the whole document yields.
pub open spec fn spec_crawl(root: BlockView) -> CrawlResultView {
    CrawlResultView {
        blocks: spec_crawl_blocks(root, None, None),
        title: spec_title(root),
        summary: spec_summary(root),
    }
}

/// The element-wise view of a sequence of records.
pub open spec fn infos_view(s: Seq<BlockInfo>) -> Seq<BlockInfoView> {
    Seq::new(s.len(), |i: int| s[i]@)
}

/// True of a `String` exactly when it reads as `lit`.
pub(crate) fn string_eq_lit(a: &String, lit: &str) -> (r: bool)
    ensures
        r == (a@ == lit@),
{
    let s = String::from_str(lit);
    a.eq(&s)
}

pub(crate) fn clone_strs(v: &Vec<String>) -> (r: Vec<String>)
    ensures
        r.deep_view() == v.deep_view(),
{
    let mut out: Vec<String> = Vec::new();
    let mut i: usize = 0;
    while i < v.len()
        invariant
            i <= v@.len(),
            out@.len() == i,
            forall|j: int| 0 <= j < i ==> out@[j]@ == v@[j]@,
        decreases v@.len() - i,
    {
        out.push(v[i].clone());
        i = i + 1;
    }
    proof {
        assert forall|j: int| 0 <= j < v@.len() implies out.deep_view()[j] == v.deep_view()[j] by {
            assert(out.deep_view()[j] == out@[j]@);
            assert(v.deep_view()[j] == v@[j]@);
        }
        assert(out.deep_view() =~= v.deep_view());
    }
    out
}

pub(crate) fn clone_opt_strs(o: &Option<Vec<String>>) -> (r: Option<Vec<String>>)
    ensures
        r.deep_view() == o.deep_view(),
{
    match o {
        None => None,
        Some(v) => Some(clone_strs(v)),
    }
}

pub(crate) fn clone_opt_string(o: &Option<String>) -> (r: Option<String>)
    ensures
        r.deep_view() == o.deep_view(),
{
    match o {
        None => None,
        Some(s) => Some(s.clone()),
    }
}

/// The first `m` entries of a string list, cloned.
fn take_strs(v: &Vec<String>, m: usize) -> (r: Vec<String>)
    requires
        m <= v@.len(),
    ensures
        r.deep_view() == v.deep_view().take(m as int),
{
    let mut out: Vec<String> = Vec::new();
    let mut i: usize = 0;
    while i < m
        invariant
            i <= m <= v@.len(),
            out@.len() == i,
            forall|j: int| 0 <= j < i ==> out@[j]@ == v@[j]@,
        decreases m - i,
    {
        out.push(v[i].clone());
        i = i + 1;
    }
    proof {
        assert forall|j: int| 0 <= j < m as int implies out.deep_view()[j] == v.deep_view().take(
            m as int,
        )[j] by {
            assert(out.deep_view()[j] == out@[j]@);
            assert(v.deep_view()[j] == v@[j]@);
        }
        assert(out.deep_view() =~= v.deep_view().take(m as int));
    }
    out
}

/// The record for one tree node, reference pair reconciled.
fn info_of(b: &Block, pf: Option<&String>, pid: Option<&String>) -> (r: BlockInfo)
    ensures
        r@ == spec_info(b@, pf.deep_view(), pid.deep_view()),
{
    let na = match &b.ref_doc_id {
        None => 0usize,
        Some(v) => v.len(),
    };
    let ni = match &b.ref_info {
        None => 0usize,
        Some(v) => v.len(),
    };
    let m = if na <= ni {
        na
    } else {
        ni
    };
    let ref_doc_id = match &b.ref_doc_id {
        None => None,
        Some(v) => Some(take_strs(v, m)),
    };
    let ref_info = match &b.ref_info {
        None => None,
        Some(v) => Some(take_strs(v, m)),
    };
    let pf_c = match pf {
        None => None,
        Some(s) => Some(s.clone()),
    };
    let pid_c = match pid {
        None => None,
        Some(s) => Some(s.clone()),
    };
    BlockInfo {
        block_id: b.block_id.clone(),
        flavour: b.flavour.clone(),
        content: clone_opt_strs(&b.content),
        blob: clone_opt_strs(&b.blob),
        ref_doc_id,
        ref_info,
        parent_flavour: pf_c,
        parent_block_id: pid_c,
        additional: clone_opt_string(&b.additional),
    }
}

fn crawl_into(b: &Block, pf: Option<&String>, pid: Option<&String>, out: &mut Vec<BlockInfo>)
    ensures
        infos_view(final(out)@) == infos_view(old(out)@) + spec_crawl_blocks(
            b@,
            pf.deep_view(),
            pid.deep_view(),
        ),
    decreases b, 0int,
{
    let info = info_of(b, pf, pid);
    out.push(info);
    proof {
        assert(infos_view(out@) =~= infos_view(old(out)@) + seq![
            spec_info(b@, pf.deep_view(), pid.deep_view())
        ]);
    }
    crawl_kids_into(&b.children, 0, &b.flavour, &b.block_id, out);
    proof {
        assert(infos_view(out@) =~= infos_view(old(out)@) + spec_crawl_blocks(
            b@,
            pf.deep_view(),
            pid.deep_view(),
        ));
    }
}

fn crawl_kids_into(cs: &Vec<Block>, i: usize, pf: &String, pid: &String, out: &mut Vec<BlockInfo>)
    requires
        i <= cs@.len(),
    ensures
        infos_view(final(out)@) == infos_view(old(out)@) + spec_crawl_kids(
            crate::model::block_views(cs@),
            i as int,
            pf@,
            pid@,
        ),
    decreases cs, cs@.len() - i,
{
    if i < cs.len() {
        crawl_into(&cs[i], Some(pf), Some(pid), out);
        crawl_kids_into(cs, i + 1, pf, pid, out);
        proof {
            let csv = crate::model::block_views(cs@);
            crate::model::lemma_block_views_index(cs@, i as int);
            assert(infos_view(out@) =~= infos_view(old(out)@) + spec_crawl_kids(
                csv,
                i as int,
                pf@,
                pid@,
            ));
        }
    } else {
        proof {
            let csv = crate::model::block_views(cs@);
            crate::model::lemma_block_views_len(cs@);
            assert(infos_view(out@) =~= infos_view(old(out)@) + spec_crawl_kids(
                csv,
                i as int,
                pf@,
                pid@,
            ));
        }
    }
}

/// Appends the runs from index `i` on to `out`.
pub(crate) fn append_runs(runs: &Vec<String>, i: usize, out: &mut String)
    requires
        i <= runs@.len(),
    ensures
        final(out)@ == old(out)@ + concat_from(runs.deep_view(), i as int),
    decreases runs@.len() - i,
{
    if i < runs.len() {
        out.append(runs[i].as_str());
        append_runs(runs, i + 1, out);
        proof {
            assert(out@ =~= old(out)@ + concat_from(runs.deep_view(), i as int));
        }
    } else {
        proof {
            assert(out@ =~= old(out)@ + concat_from(runs.deep_view(), i as int));
        }
    }
}

/// A block's plain text, as one owned string.
pub(crate) fn text_of_block(b: &Block) -> (r: String)
    ensures
        r@ == text_of(b@.content),
{
    let mut out = String::new();
    match &b.content {
        None => { },
        Some(runs) => {
            append_runs(runs, 0, &mut out);
        },
    }
    out
}

/// True of the heading flavours.
pub(crate) fn is_heading(fl: &String) -> (r: bool)
    ensures
        r == spec_is_heading(fl@),
{
    string_eq_lit(fl, "h1") || string_eq_lit(fl, "h2") || string_eq_lit(fl, "h3")
}

/// The text of the first heading block in pre-order, if any.
pub(crate) fn first_heading(b: &Block) -> (r: Option<String>)
    ensures
        r.deep_view() == spec_first_heading(b@),
    decreases b, 0int,
{
    if is_heading(&b.flavour) {
        Some(text_of_block(b))
    } else {
        first_heading_kids(&b.children, 0)
    }
}

fn first_heading_kids(cs: &Vec<Block>, i: usize) -> (r: Option<String>)
    requires
        i <= cs@.len(),
    ensures
        r.deep_view() == spec_first_heading_kids(crate::model::block_views(cs@), i as int),
    decreases cs, cs@.len() - i,
{
    if i < cs.len() {
        proof {
            crate::model::lemma_block_views_index(cs@, i as int);
        }
        match first_heading(&cs[i]) {
            Some(t) => Some(t),
            None => first_heading_kids(cs, i + 1),
        }
    } else {
        proof {
            crate::model::lemma_block_views_len(cs@);
        }
        None
    }
}

/// The document's title, by the shared fallback rule.
pub(crate) fn title_of(root: &Block) -> (r: String)
    ensures
        r@ == spec_title(root@),
{
    match first_heading(root) {
        Some(t) => t,
        None => text_of_block(root),
    }
}

fn all_text_into(b: &Block, out: &mut String)
    ensures
        final(out)@ == old(out)@ + spec_all_text(b@),
    decreases b, 0int,
{
    match &b.content {
        None => { },
        Some(runs) => {
            append_runs(runs, 0, out);
        },
    }
    all_text_kids_into(&b.children, 0, out);
    proof {
        assert(out@ =~= old(out)@ + spec_all_text(b@));
    }
}

fn all_text_kids_into(cs: &Vec<Block>, i: usize, out: &mut String)
    requires
        i <= cs@.len(),
    ensures
        final(out)@ == old(out)@ + spec_all_text_kids(crate::model::block_views(cs@), i as int),
    decreases cs, cs@.len() - i,
{
    if i < cs.len() {
        all_text_into(&cs[i], out);
        all_text_kids_into(cs, i + 1, out);
        proof {
            crate::model::lemma_block_views_index(cs@, i as int);
            assert(out@ =~= old(out)@ + spec_all_text_kids(
                crate::model::block_views(cs@),
                i as int,
            ));
        }
    } else {
        proof {
            crate::model::lemma_block_views_len(cs@);
            assert(out@ =~= old(out)@ + spec_all_text_kids(
                crate::model::block_views(cs@),
                i as int,
            ));
        }
    }
}

/// The summary excerpt of the whole tree.
pub(crate) fn summary_of(root: &Block) -> (r: String)
    ensures
        r@ == spec_summary(root@),
{
    let mut t = String::new();
    all_text_into(root, &mut t);
    if t.as_str().unicode_len() > SUMMARY_MAX {
        let cut = t.as_str().substring_char(0, SUMMARY_MAX);
        cut.to_owned()
    } else {
        t
    }
}

/// Flattens the document: every block in pre-order, parent before
/// children and child order preserved, plus the title and summary
/// derived once over the whole tree.
pub fn crawl(doc: &Document) -> (r: CrawlResult)
    ensures
        r@ == spec_crawl(doc@),
{
    let mut blocks: Vec<BlockInfo> = Vec::new();
    crawl_into(&doc.root, None, None, &mut blocks);
    let title = title_of(&doc.root);
    let summary = summary_of(&doc.root);
    let r = CrawlResult { blocks, title, summary };
    proof {
        assert(infos_view(Seq::<BlockInfo>::empty()) =~= Seq::<BlockInfoView>::empty());
        assert(Seq::<BlockInfoView>::empty() + spec_crawl_blocks(doc@, None, None)
            =~= spec_crawl_blocks(doc@, None, None));
        assert(r@.blocks =~= spec_crawl(doc@).blocks);
    }
    r
}

} // verus!
