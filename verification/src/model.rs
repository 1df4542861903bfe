//! The in-memory document model: blocks, the decoded document tree, and
//! the value types the projectors produce.

use vstd::prelude::*;

verus! {

/// One node of a decoded document tree.
///
/// `flavour` is an open string tag: unknown flavours are decoded like any
/// other so that the projectors can apply a fallback rule instead of
/// failing.  `ref_doc_id` and `ref_info` are positionally parallel
/// sequences describing outgoing references to other documents; the
/// decoder stores them as found, and the projectors repair a mismatch in
/// their lengths locally.  Children are owned in encoding order, which is
/// significant for every projection.
#[derive(Debug, PartialEq, Eq)]
pub struct Block {
    pub block_id: String,
    pub flavour: String,
    pub content: Option<Vec<String>>,
    pub blob: Option<Vec<String>>,
    pub ref_doc_id: Option<Vec<String>>,
    pub ref_info: Option<Vec<String>>,
    pub additional: Option<String>,
    pub children: Vec<Block>,
}

/// The mathematical model of a [`Block`]: every string a `Seq<char>`,
/// every list a `Seq`, children modelled recursively.
pub struct BlockView {
    pub block_id: Seq<char>,
    pub flavour: Seq<char>,
    pub content: Option<Seq<Seq<char>>>,
    pub blob: Option<Seq<Seq<char>>>,
    pub ref_doc_id: Option<Seq<Seq<char>>>,
    pub ref_info: Option<Seq<Seq<char>>>,
    pub additional: Option<Seq<char>>,
    pub children: Seq<BlockView>,
}

pub open spec fn block_view(b: Block) -> BlockView
    decreases b, 0int,
{
    BlockView {
        block_id: b.block_id@,
        flavour: b.flavour@,
        content: b.content.deep_view(),
        blob: b.blob.deep_view(),
        ref_doc_id: b.ref_doc_id.deep_view(),
        ref_info: b.ref_info.deep_view(),
        additional: b.additional.deep_view(),
        children: block_views(b.children@),
    }
}

pub open spec fn block_views(cs: Seq<Block>) -> Seq<BlockView>
    decreases cs, 1int,
{
    if cs.len() == 0 {
        Seq::empty()
    } else {
        seq![block_view(cs[0])] + block_views(cs.drop_first())
    }
}

impl View for Block {
    type V = BlockView;

    open spec fn view(&self) -> BlockView {
        block_view(*self)
    }
}

pub proof fn lemma_block_views_len(cs: Seq<Block>)
    ensures
        block_views(cs).len() == cs.len(),
    decreases cs.len(),
{
    if cs.len() > 0 {
        lemma_block_views_len(cs.drop_first());
    }
}

pub proof fn lemma_block_views_index(cs: Seq<Block>, i: int)
    requires
        0 <= i < cs.len(),
    ensures
        block_views(cs).len() == cs.len(),
        block_views(cs)[i] == block_view(cs[i]),
    decreases cs.len(),
{
    lemma_block_views_len(cs);
    if i > 0 {
        lemma_block_views_index(cs.drop_first(), i - 1);
    }
}

/// A decoded document: the root block of an owned, acyclic tree.
///
/// Built fresh by each decode call and never mutated afterwards; all
/// projectors read it without changing it.
#[derive(Debug, PartialEq, Eq)]
pub struct Document {
    pub root: Block,
}

impl View for Document {
    type V = BlockView;

    open spec fn view(&self) -> BlockView {
        block_view(self.root)
    }
}

/// One record of a crawl: a block copied verbatim, plus back-references
/// to its structural parent.  A field absent in the tree node is absent
/// here too, never filled with an empty placeholder; the one exception is
/// the reference pair, whose lengths are reconciled (see `crawl`).
#[derive(Debug, Clone, PartialEq, Eq)]
pub struct BlockInfo {
    pub block_id: String,
    pub flavour: String,
    pub content: Option<Vec<String>>,
    pub blob: Option<Vec<String>>,
    pub ref_doc_id: Option<Vec<String>>,
    pub ref_info: Option<Vec<String>>,
    pub parent_flavour: Option<String>,
    pub parent_block_id: Option<String>,
    pub additional: Option<String>,
}

/// The mathematical model of a [`BlockInfo`].
pub struct BlockInfoView {
    pub block_id: Seq<char>,
    pub flavour: Seq<char>,
    pub content: Option<Seq<Seq<char>>>,
    pub blob: Option<Seq<Seq<char>>>,
    pub ref_doc_id: Option<Seq<Seq<char>>>,
    pub ref_info: Option<Seq<Seq<char>>>,
    pub parent_flavour: Option<Seq<char>>,
    pub parent_block_id: Option<Seq<char>>,
    pub additional: Option<Seq<char>>,
}

impl View for BlockInfo {
    type V = BlockInfoView;

    open spec fn view(&self) -> BlockInfoView {
        BlockInfoView {
            block_id: self.block_id@,
            flavour: self.flavour@,
            content: self.content.deep_view(),
            blob: self.blob.deep_view(),
            ref_doc_id: self.ref_doc_id.deep_view(),
            ref_info: self.ref_info.deep_view(),
            parent_flavour: self.parent_flavour.deep_view(),
            parent_block_id: self.parent_block_id.deep_view(),
            additional: self.additional.deep_view(),
        }
    }
}

/// The flattened projection of a document: one record per block in
/// pre-order, with a title and a short text excerpt derived once over
/// the whole traversal.
#[derive(Debug, Clone, PartialEq, Eq)]
pub struct CrawlResult {
    pub blocks: Vec<BlockInfo>,
    pub title: String,
    pub summary: String,
}

/// The mathematical model of a [`CrawlResult`].
pub struct CrawlResultView {
    pub blocks: Seq<BlockInfoView>,
    pub title: Seq<char>,
    pub summary: Seq<char>,
}

impl View for CrawlResult {
    type V = CrawlResultView;

    open spec fn view(&self) -> CrawlResultView {
        CrawlResultView {
            blocks: Seq::new(self.blocks@.len(), |i: int| self.blocks@[i]@),
            title: self.title@,
            summary: self.summary@,
        }
    }
}

/// The Markdown projection of a document.
#[derive(Debug, Clone, PartialEq, Eq)]
pub struct MarkdownResult {
    pub title: String,
    pub markdown: String,
}

/// The mathematical model of a [`MarkdownResult`].
pub struct MarkdownResultView {
    pub title: Seq<char>,
    pub markdown: Seq<char>,
}

impl View for MarkdownResult {
    type V = MarkdownResultView;

    open spec fn view(&self) -> MarkdownResultView {
        MarkdownResultView {
            title: self.title@,
            markdown: self.markdown@,
        }
    }
}

/// The single error category a caller sees: the input bytes did not
/// conform to the binary schema.  Inconsistencies found only during a
/// projection are tolerated locally and never surface as this error.
#[derive(Debug, Clone, PartialEq, Eq)]
pub struct DecodeError {
    pub message: String,
}

impl DecodeError {
    /// The human-readable description of the failure.
    pub fn message(&self) -> (r: &String)
        ensures
            r@ == self.message@,
    {
        &self.message
    }
}

} // verus!
