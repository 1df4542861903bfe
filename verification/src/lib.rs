//! Decoder and projectors for a versioned binary document-tree encoding.
//!
//! A document arrives as a raw byte buffer holding a tree of typed blocks.
//! The decoder turns the buffer into an owned [`model::Document`]; three
//! independent, read-only projectors then derive values from the tree:
//! a flattened crawl of block records, a Markdown rendering with an
//! extracted title, and the set of document identifiers referenced from
//! the tree.

pub mod api;
pub mod crawl;
pub mod decode;
pub mod laws;
pub mod markdown;
pub mod model;
pub mod refs;
pub mod tree;

pub use model::Block;
pub use model::BlockInfo;
pub use model::CrawlResult;
pub use model::DecodeError;
pub use model::Document;
pub use model::MarkdownResult;
pub use api::parse_doc_from_binary;
pub use api::parse_doc_to_markdown;
pub use api::read_all_doc_ids_from_root_doc;
