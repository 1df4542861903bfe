//! The Markdown projector: renders the tree in the same pre-order as the
//! crawler, one fragment per block by a per-flavour rule, with a fallback
//! for unknown flavours and an optional marker mode for editable blocks.

use vstd::prelude::*;
use crate::crawl::spec_title;
use crate::crawl::text_of;
use crate::crawl::title_of;
use crate::crawl::text_of_block;
use crate::crawl::string_eq_lit;
use crate::model::Block;
use crate::model::BlockView;
use crate::model::Document;
use crate::model::MarkdownResult;
use crate::model::MarkdownResultView;

verus! {

/// Nesting levels beyond this depth stop indenting further, so that the
/// depth counter never overflows however deep a decoded tree nests.
pub const DEPTH_CAP: usize = 64;

/// The child depth under a block at `depth`.
pub open spec fn spec_next_depth(depth: int) -> int {
    if depth < DEPTH_CAP {
        depth + 1
    } else {
        depth
    }
}

/// Two spaces per nesting level.
pub open spec fn spaces(n: int) -> Seq<char>
    decreases n,
{
    if n <= 0 {
        Seq::empty()
    } else {
        spaces(n - 1) + "  "@
    }
}

/// The flavours with an AI-editable rendering variant.  Under the
/// editable mode each gets a stable marker line naming the block, so
/// downstream tooling can target the span; every other flavour renders
/// identically under both modes.
pub open spec fn spec_is_editable(fl: Seq<char>) -> bool {
    fl == "paragraph"@ || fl == "h1"@ || fl == "h2"@ || fl == "h3"@ || fl == "list"@ || fl
        == "quote"@
}

/// One reference line per referenced document, from index `i` on.
pub open spec fn refs_from(ids: Seq<Seq<char>>, i: int) -> Seq<char>
    decreases ids.len() - i,
{
    if 0 <= i < ids.len() {
        "[["@ + ids[i] + "]]\n"@ + refs_from(ids, i + 1)
    } else {
        Seq::empty()
    }
}

/// The reference targets a block renders, an absent slot rendering as none.
pub open spec fn spec_ref_ids(b: BlockView) -> Seq<Seq<char>> {
    match b.ref_doc_id {
        None => Seq::empty(),
        Some(v) => v,
    }
}

/// The Markdown fragment of one block, before the editable marker:
/// headings, paragraphs, nested list items, fenced code, block quotes, a
/// divider, reference lines for embeds and links; the page flavour emits
/// nothing of its own, and an unknown flavour falls back to its raw text
/// content, never dropped silently.
pub open spec fn spec_base_fragment(b: BlockView, depth: int) -> Seq<char> {
    let t = text_of(b.content);
    if b.flavour == "page"@ {
        Seq::empty()
    } else if b.flavour == "h1"@ {
        "# "@ + t + "\n\n"@
    } else if b.flavour == "h2"@ {
        "## "@ + t + "\n\n"@
    } else if b.flavour == "h3"@ {
        "### "@ + t + "\n\n"@
    } else if b.flavour == "paragraph"@ {
        t + "\n\n"@
    } else if b.flavour == "list"@ {
        spaces(depth - 1) + "- "@ + t + "\n"@
    } else if b.flavour == "code"@ {
        "```\n"@ + t + "\n```\n\n"@
    } else if b.flavour == "quote"@ {
        "> "@ + t + "\n\n"@
    } else if b.flavour == "divider"@ {
        "---\n\n"@
    } else if b.flavour == "embed"@ || b.flavour == "link"@ {
        refs_from(spec_ref_ids(b), 0)
    } else {
        if t.len() > 0 {
            t + "\n"@
        } else {
            Seq::empty()
        }
    }
}

/// The fragment of one block: under the editable mode, editable flavours
/// are preceded by a marker line carrying the block's stable id.
pub open spec fn spec_fragment(b: BlockView, depth: int, ai: bool) -> Seq<char> {
    if ai && spec_is_editable(b.flavour) {
        "<!--edit:"@ + b.block_id + "-->\n"@ + spec_base_fragment(b, depth)
    } else {
        spec_base_fragment(b, depth)
    }
}

/// The rendering of a subtree: the block's own fragment, then each
/// child's rendering in child order, one level deeper.
pub open spec fn spec_md(b: BlockView, depth: int, ai: bool) -> Seq<char>
    decreases b, 0int,
{
    spec_fragment(b, depth, ai) + spec_md_kids(b.children, 0, spec_next_depth(depth), ai)
}

pub open spec fn spec_md_kids(cs: Seq<BlockView>, i: int, depth: int, ai: bool) -> Seq<char>
    decreases cs, cs.len() - i,
{
    if 0 <= i < cs.len() {
        spec_md(cs[i], depth, ai) + spec_md_kids(cs, i + 1, depth, ai)
    } else {
        Seq::empty()
    }
}

/// What rendering the whole document yields: the same title rule as the
/// crawl, and the root's rendering at depth zero.
pub open spec fn spec_markdown(root: BlockView, ai: bool) -> MarkdownResultView {
    MarkdownResultView { title: spec_title(root), markdown: spec_md(root, 0, ai) }
}

fn is_editable(fl: &String) -> (r: bool)
    ensures
        r == spec_is_editable(fl@),
{
    string_eq_lit(fl, "paragraph") || string_eq_lit(fl, "h1") || string_eq_lit(fl, "h2")
        || string_eq_lit(fl, "h3") || string_eq_lit(fl, "list") || string_eq_lit(fl, "quote")
}

fn append_spaces(n: usize, out: &mut String)
    ensures
        final(out)@ == old(out)@ + spaces(n as int),
{
    let mut i: usize = 0;
    while i < n
        invariant
            i <= n,
            out@ == old(out)@ + spaces(i as int),
        decreases n - i,
    {
        out.append("  ");
        i = i + 1;
    }
}

fn append_refs(ids: &Vec<String>, i: usize, out: &mut String)
    requires
        i <= ids@.len(),
    ensures
        final(out)@ == old(out)@ + refs_from(ids.deep_view(), i as int),
    decreases ids@.len() - i,
{
    if i < ids.len() {
        out.append("[[");
        out.append(ids[i].as_str());
        out.append("]]\n");
        append_refs(ids, i + 1, out);
        proof {
            assert(out@ =~= old(out)@ + refs_from(ids.deep_view(), i as int));
        }
    } else {
        proof {
            assert(out@ =~= old(out)@ + refs_from(ids.deep_view(), i as int));
        }
    }
}

fn append_base_fragment(b: &Block, depth: usize, out: &mut String)
    ensures
        final(out)@ == old(out)@ + spec_base_fragment(b@, depth as int),
{
    if string_eq_lit(&b.flavour, "page") {
        proof {
            assert(out@ =~= old(out)@ + spec_base_fragment(b@, depth as int));
        }
    } else if string_eq_lit(&b.flavour, "h1") {
        let t = text_of_block(b);
        out.append("# ");
        out.append(t.as_str());
        out.append("\n\n");
        proof {
            assert(out@ =~= old(out)@ + spec_base_fragment(b@, depth as int));
        }
    } else if string_eq_lit(&b.flavour, "h2") {
        let t = text_of_block(b);
        out.append("## ");
        out.append(t.as_str());
        out.append("\n\n");
        proof {
            assert(out@ =~= old(out)@ + spec_base_fragment(b@, depth as int));
        }
    } else if string_eq_lit(&b.flavour, "h3") {
        let t = text_of_block(b);
        out.append("### ");
        out.append(t.as_str());
        out.append("\n\n");
        proof {
            assert(out@ =~= old(out)@ + spec_base_fragment(b@, depth as int));
        }
    } else if string_eq_lit(&b.flavour, "paragraph") {
        let t = text_of_block(b);
        out.append(t.as_str());
        out.append("\n\n");
        proof {
            assert(out@ =~= old(out)@ + spec_base_fragment(b@, depth as int));
        }
    } else if string_eq_lit(&b.flavour, "list") {
        let t = text_of_block(b);
        let lvl = if depth == 0 {
            0
        } else {
            depth - 1
        };
        append_spaces(lvl, out);
        out.append("- ");
        out.append(t.as_str());
        out.append("\n");
        proof {
            assert(spaces(lvl as int) == spaces(depth - 1));
            assert(out@ =~= old(out)@ + spec_base_fragment(b@, depth as int));
        }
    } else if string_eq_lit(&b.flavour, "code") {
        let t = text_of_block(b);
        out.append("```\n");
        out.append(t.as_str());
        out.append("\n```\n\n");
        proof {
            assert(out@ =~= old(out)@ + spec_base_fragment(b@, depth as int));
        }
    } else if string_eq_lit(&b.flavour, "quote") {
        let t = text_of_block(b);
        out.append("> ");
        out.append(t.as_str());
        out.append("\n\n");
        proof {
            assert(out@ =~= old(out)@ + spec_base_fragment(b@, depth as int));
        }
    } else if string_eq_lit(&b.flavour, "divider") {
        out.append("---\n\n");
        proof {
            assert(out@ =~= old(out)@ + spec_base_fragment(b@, depth as int));
        }
    } else if string_eq_lit(&b.flavour, "embed") || string_eq_lit(&b.flavour, "link") {
        match &b.ref_doc_id {
            None => {
                proof {
                    assert(out@ =~= old(out)@ + spec_base_fragment(b@, depth as int));
                }
            },
            Some(ids) => {
                append_refs(ids, 0, out);
                proof {
                    assert(out@ =~= old(out)@ + spec_base_fragment(b@, depth as int));
                }
            },
        }
    } else {
        let t = text_of_block(b);
        if t.as_str().unicode_len() > 0 {
            out.append(t.as_str());
            out.append("\n");
            proof {
                assert(out@ =~= old(out)@ + spec_base_fragment(b@, depth as int));
            }
        } else {
            proof {
                assert(out@ =~= old(out)@ + spec_base_fragment(b@, depth as int));
            }
        }
    }
}

fn append_fragment(b: &Block, depth: usize, ai: bool, out: &mut String)
    ensures
        final(out)@ == old(out)@ + spec_fragment(b@, depth as int, ai),
{
    if ai && is_editable(&b.flavour) {
        out.append("<!--edit:");
        out.append(b.block_id.as_str());
        out.append("-->\n");
    }
    append_base_fragment(b, depth, out);
    proof {
        assert(out@ =~= old(out)@ + spec_fragment(b@, depth as int, ai));
    }
}

fn render_into(b: &Block, depth: usize, ai: bool, out: &mut String)
    ensures
        final(out)@ == old(out)@ + spec_md(b@, depth as int, ai),
    decreases b, 0int,
{
    append_fragment(b, depth, ai, out);
    let next = if depth < DEPTH_CAP {
        depth + 1
    } else {
        depth
    };
    render_kids_into(&b.children, 0, next, ai, out);
    proof {
        assert(out@ =~= old(out)@ + spec_md(b@, depth as int, ai));
    }
}

fn render_kids_into(cs: &Vec<Block>, i: usize, depth: usize, ai: bool, out: &mut String)
    requires
        i <= cs@.len(),
    ensures
        final(out)@ == old(out)@ + spec_md_kids(
            crate::model::block_views(cs@),
            i as int,
            depth as int,
            ai,
        ),
    decreases cs, cs@.len() - i,
{
    if i < cs.len() {
        render_into(&cs[i], depth, ai, out);
        render_kids_into(cs, i + 1, depth, ai, out);
        proof {
            crate::model::lemma_block_views_index(cs@, i as int);
            assert(out@ =~= old(out)@ + spec_md_kids(
                crate::model::block_views(cs@),
                i as int,
                depth as int,
                ai,
            ));
        }
    } else {
        proof {
            crate::model::lemma_block_views_len(cs@);
            assert(out@ =~= old(out)@ + spec_md_kids(
                crate::model::block_views(cs@),
                i as int,
                depth as int,
                ai,
            ));
        }
    }
}

/// Renders the whole document to Markdown, with the shared title rule.
/// The `ai_editable` flag changes formatting only — which blocks appear,
/// and their order, is the same under both modes.
pub fn to_markdown(doc: &Document, ai_editable: bool) -> (r: MarkdownResult)
    ensures
        r@ == spec_markdown(doc@, ai_editable),
{
    let title = title_of(&doc.root);
    let mut markdown = String::new();
    render_into(&doc.root, 0, ai_editable, &mut markdown);
    proof {
        assert(Seq::<char>::empty() + spec_md(doc@, 0, ai_editable) =~= spec_md(
            doc@,
            0,
            ai_editable,
        ));
    }
    MarkdownResult { title, markdown }
}

} // verus!
