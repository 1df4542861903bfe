//! The boundary operations: each decodes its own private document tree
//! from the given bytes and runs one projector over it.  A malformed
//! buffer surfaces as a single [`DecodeError`] with a descriptive
//! message; nothing found during a projection ever does.

use vstd::prelude::*;
use crate::crawl::crawl;
use crate::crawl::spec_crawl;
use crate::decode::decode;
use crate::decode::spec_decode;
use crate::markdown::spec_markdown;
use crate::markdown::to_markdown;
use crate::model::CrawlResult;
use crate::model::DecodeError;
use crate::model::MarkdownResult;
use crate::refs::collect_doc_ids;
use crate::refs::spec_doc_ids;

verus! {

/// The message reported for a malformed buffer, with the caller's
/// document id for context.
pub open spec fn decode_error_message(doc_id: Seq<char>) -> Seq<char> {
    "failed to decode document: "@ + doc_id
}

/// The message reported for a malformed buffer when no document id
/// accompanies the call.
pub open spec fn plain_decode_error_message() -> Seq<char> {
    "failed to decode document"@
}

fn decode_error(doc_id: &String) -> (r: DecodeError)
    ensures
        r.message@ == decode_error_message(doc_id@),
{
    let mut m = String::from_str("failed to decode document: ");
    m.append(doc_id.as_str());
    DecodeError { message: m }
}

/// Decodes the buffer and flattens the document: one record per block
/// in pre-order with title and summary.  The document id is only error
/// context; it is not read from the buffer.
pub fn parse_doc_from_binary(doc_bin: Vec<u8>, doc_id: String) -> (r: Result<
    CrawlResult,
    DecodeError,
>)
    ensures
        spec_decode(doc_bin@) matches Some(root) ==> (r matches Ok(c) && c@ == spec_crawl(root)),
        spec_decode(doc_bin@) is None ==> (r matches Err(e) && e.message@ == decode_error_message(
            doc_id@,
        )),
{
    match decode(&doc_bin) {
        Some(doc) => Ok(crawl(&doc)),
        None => Err(decode_error(&doc_id)),
    }
}

/// Decodes the buffer and renders the document as Markdown with its
/// title; `ai_editable` selects the marker mode for editable flavours
/// and changes formatting only.
pub fn parse_doc_to_markdown(doc_bin: Vec<u8>, doc_id: String, ai_editable: bool) -> (r: Result<
    MarkdownResult,
    DecodeError,
>)
    ensures
        spec_decode(doc_bin@) matches Some(root) ==> (r matches Ok(m) && m@ == spec_markdown(
            root,
            ai_editable,
        )),
        spec_decode(doc_bin@) is None ==> (r matches Err(e) && e.message@ == decode_error_message(
            doc_id@,
        )),
{
    match decode(&doc_bin) {
        Some(doc) => Ok(to_markdown(&doc, ai_editable)),
        None => Err(decode_error(&doc_id)),
    }
}

/// Decodes the buffer and collects every referenced document id,
/// deduplicated in first-discovery order, skipping references marked
/// trashed unless `include_trash` asks for them.
pub fn read_all_doc_ids_from_root_doc(doc_bin: Vec<u8>, include_trash: bool) -> (r: Result<
    Vec<String>,
    DecodeError,
>)
    ensures
        spec_decode(doc_bin@) matches Some(root) ==> (r matches Ok(ids) && ids.deep_view()
            == spec_doc_ids(root, include_trash)),
        spec_decode(doc_bin@) is None ==> (r matches Err(e) && e.message@
            == plain_decode_error_message()),
{
    match decode(&doc_bin) {
        Some(doc) => Ok(collect_doc_ids(&doc, include_trash)),
        None => Err(
            DecodeError { message: String::from_str("failed to decode document") },
        ),
    }
}

} // verus!
