//! The binary decoder: from a raw byte buffer to a [`Document`] tree.
//!
//! The encoding is a versioned, length-framed tree:
//!
//! ```text
//! buffer  = version byte (1) , root frame
//! frame   = payload length (u32 LE) , payload
//! payload = id string , flavour string , property count (u8) , properties ,
//!           child count (u32 LE) , child frames
//! property = tag (u8) , data length (u32 LE) , data
//! string  = byte length (u32 LE) , UTF-8 bytes
//! ```
//!
//! Property tags `1..=5` carry the block's content, blob, reference and
//! additional slots; other tags below `0x80` are unknown optional fields
//! and are skipped, while a tag of `0x80` or above is an unknown required
//! structural marker and fails the whole decode.  The header is checked
//! strictly; inside a frame the decoder is best-effort: a malformed
//! property is dropped, a payload whose id or flavour cannot be read is
//! dropped whole, and one whose later parts are malformed keeps the
//! partial data already read.  The frame lengths keep a corrupted block
//! locatable, so its siblings still decode.
//!
//! Every spec function below is the meaning of the format; each exec
//! function is proved to return exactly what its spec function says.

use vstd::prelude::*;
use vstd::utf8::decode_utf8;
use vstd::utf8::valid_utf8;
use crate::model::Block;
use crate::model::BlockView;
use crate::model::Document;
use crate::model::block_view;
use crate::model::block_views;

verus! {

/// The schema version this decoder accepts.
pub const SCHEMA_VERSION: u8 = 1;

/// Property tags of the encoding.
pub const TAG_CONTENT: u8 = 1;

pub const TAG_BLOB: u8 = 2;

pub const TAG_REF_DOC_ID: u8 = 3;

pub const TAG_REF_INFO: u8 = 4;

pub const TAG_ADDITIONAL: u8 = 5;

/// Tags at or above this value are required structural markers.
pub const TAG_REQUIRED_FLOOR: u8 = 0x80;

/// The little-endian value of the four bytes at `pos`.
pub open spec fn le32(s: Seq<u8>, pos: int) -> int {
    s[pos] + 0x100 * (s[pos + 1] + 0x100 * (s[pos + 2] + 0x100 * s[pos + 3]))
}

/// Reads a `u32` length field inside `[pos, end)`; the result pairs the
/// value with the number of bytes consumed.
pub open spec fn spec_read_u32(s: Seq<u8>, pos: int, end: int) -> Option<(int, nat)> {
    if 0 <= pos && pos + 4 <= end && end <= s.len() {
        Some((le32(s, pos), 4nat))
    } else {
        None
    }
}

/// Reads a length-prefixed UTF-8 string inside `[pos, end)`.
pub open spec fn spec_read_str(s: Seq<u8>, pos: int, end: int) -> Option<(Seq<char>, nat)> {
    match spec_read_u32(s, pos, end) {
        None => None,
        Some((n, c)) => {
            if n <= end - (pos + c) {
                let bytes = s.subrange(pos + c, pos + c + n);
                if valid_utf8(bytes) {
                    Some((decode_utf8(bytes), (c + n) as nat))
                } else {
                    None
                }
            } else {
                None
            }
        },
    }
}

/// Reads `count` consecutive strings inside `[pos, end)`.
pub open spec fn spec_read_strs(s: Seq<u8>, pos: int, end: int, count: int) -> Option<
    (Seq<Seq<char>>, nat),
>
    decreases count,
{
    if count <= 0 {
        Some((Seq::empty(), 0nat))
    } else {
        match spec_read_str(s, pos, end) {
            None => None,
            Some((v, c)) => match spec_read_strs(s, pos + c, end, count - 1) {
                None => None,
                Some((vs, c2)) => Some((seq![v] + vs, (c + c2) as nat)),
            },
        }
    }
}

/// Reads a counted list of strings inside `[pos, end)`; trailing bytes of
/// the enclosing property are tolerated for forward compatibility.
pub open spec fn spec_read_str_list(s: Seq<u8>, pos: int, end: int) -> Option<Seq<Seq<char>>> {
    match spec_read_u32(s, pos, end) {
        None => None,
        Some((n, c)) => match spec_read_strs(s, pos + c, end, n) {
            None => None,
            Some((vs, _)) => Some(vs),
        },
    }
}

/// The property slots of a block, as they accumulate while the decoder
/// walks a payload's property list.
pub struct PropsView {
    pub content: Option<Seq<Seq<char>>>,
    pub blob: Option<Seq<Seq<char>>>,
    pub ref_doc_id: Option<Seq<Seq<char>>>,
    pub ref_info: Option<Seq<Seq<char>>>,
    pub additional: Option<Seq<char>>,
}

pub open spec fn empty_props() -> PropsView {
    PropsView {
        content: None,
        blob: None,
        ref_doc_id: None,
        ref_info: None,
        additional: None,
    }
}

/// Outcome of reading a payload's property list.
pub enum PropsOut {
    /// An unknown required marker was found: the whole decode fails.
    Fatal,
    /// A property frame was malformed: keep what was read, drop the rest
    /// of the payload.
    Stop(PropsView),
    /// All properties read; the `nat` is the number of bytes consumed.
    Done(PropsView, nat),
}

/// Applies one property's data region `[pos, dend)` to the slots; a slot
/// whose data is malformed is left as it was.
pub open spec fn spec_apply_prop(s: Seq<u8>, pos: int, dend: int, tag: u8, acc: PropsView) -> PropsView {
    if tag == TAG_CONTENT {
        match spec_read_str_list(s, pos, dend) {
            Some(vs) => PropsView { content: Some(vs), ..acc },
            None => acc,
        }
    } else if tag == TAG_BLOB {
        match spec_read_str_list(s, pos, dend) {
            Some(vs) => PropsView { blob: Some(vs), ..acc },
            None => acc,
        }
    } else if tag == TAG_REF_DOC_ID {
        match spec_read_str_list(s, pos, dend) {
            Some(vs) => PropsView { ref_doc_id: Some(vs), ..acc },
            None => acc,
        }
    } else if tag == TAG_REF_INFO {
        match spec_read_str_list(s, pos, dend) {
            Some(vs) => PropsView { ref_info: Some(vs), ..acc },
            None => acc,
        }
    } else if tag == TAG_ADDITIONAL {
        let bytes = s.subrange(pos, dend);
        if valid_utf8(bytes) {
            PropsView { additional: Some(decode_utf8(bytes)), ..acc }
        } else {
            acc
        }
    } else {
        acc
    }
}

/// Reads `count` properties inside `[pos, end)`.
pub open spec fn spec_props(s: Seq<u8>, pos: int, end: int, count: int, acc: PropsView) -> PropsOut
    decreases count,
{
    if count <= 0 {
        PropsOut::Done(acc, 0nat)
    } else if !(0 <= pos && pos + 5 <= end && end <= s.len()) {
        PropsOut::Stop(acc)
    } else {
        let tag = s[pos];
        let plen = le32(s, pos + 1);
        if plen <= end - (pos + 5) {
            if tag >= TAG_REQUIRED_FLOOR {
                PropsOut::Fatal
            } else {
                let acc2 = spec_apply_prop(s, pos + 5, pos + 5 + plen, tag, acc);
                match spec_props(s, pos + 5 + plen, end, count - 1, acc2) {
                    PropsOut::Fatal => PropsOut::Fatal,
                    PropsOut::Stop(pr) => PropsOut::Stop(pr),
                    PropsOut::Done(pr, c) => PropsOut::Done(pr, (5 + plen + c) as nat),
                }
            }
        } else {
            PropsOut::Stop(acc)
        }
    }
}

/// Outcome of reading one payload.
pub enum NodeOut {
    /// An unknown required marker was found: the whole decode fails.
    Fatal,
    /// The payload's id or flavour could not be read: the block and its
    /// children are dropped; its siblings still decode.
    Dropped,
    /// The block, possibly with only the partial data that was readable.
    Parsed(BlockView),
}

/// Outcome of reading a list of child frames.
pub enum KidsOut {
    Fatal,
    Kids(Seq<BlockView>),
}

/// Assembles a block view from its parsed parts.
pub open spec fn make_block(
    id: Seq<char>,
    fl: Seq<char>,
    pr: PropsView,
    ks: Seq<BlockView>,
) -> BlockView {
    BlockView {
        block_id: id,
        flavour: fl,
        content: pr.content,
        blob: pr.blob,
        ref_doc_id: pr.ref_doc_id,
        ref_info: pr.ref_info,
        additional: pr.additional,
        children: ks,
    }
}

/// Reads one payload from `[pos, end)`.
pub open spec fn spec_payload(s: Seq<u8>, pos: int, end: int) -> NodeOut
    decreases end - pos, 1int,
{
    match spec_read_str(s, pos, end) {
        None => NodeOut::Dropped,
        Some((id, c1)) => match spec_read_str(s, pos + c1, end) {
            None => NodeOut::Dropped,
            Some((fl, c2)) => {
                let p2 = pos + c1 + c2;
                if !(p2 + 1 <= end && end <= s.len()) {
                    NodeOut::Parsed(make_block(id, fl, empty_props(), Seq::empty()))
                } else {
                    match spec_props(s, p2 + 1, end, s[p2] as int, empty_props()) {
                        PropsOut::Fatal => NodeOut::Fatal,
                        PropsOut::Stop(pr) => NodeOut::Parsed(make_block(id, fl, pr, Seq::empty())),
                        PropsOut::Done(pr, c3) => {
                            match spec_read_u32(s, p2 + 1 + c3, end) {
                                None => NodeOut::Parsed(make_block(id, fl, pr, Seq::empty())),
                                Some((cc, c4)) => {
                                    match spec_children(s, p2 + 1 + c3 + c4, end, cc) {
                                        KidsOut::Fatal => NodeOut::Fatal,
                                        KidsOut::Kids(ks) => NodeOut::Parsed(make_block(id, fl, pr, ks)),
                                    }
                                },
                            }
                        },
                    }
                }
            },
        },
    }
}

/// Reads up to `count` child frames from `[pos, end)`; a malformed frame
/// ends the list, a dropped child is skipped.
pub open spec fn spec_children(s: Seq<u8>, pos: int, end: int, count: int) -> KidsOut
    decreases end - pos, 0int,
{
    if count <= 0 {
        KidsOut::Kids(Seq::empty())
    } else {
        match spec_read_u32(s, pos, end) {
            None => KidsOut::Kids(Seq::empty()),
            Some((len, c)) => {
                if len <= end - (pos + c) {
                    let cend = pos + c + len;
                    match spec_payload(s, pos + c, cend) {
                        NodeOut::Fatal => KidsOut::Fatal,
                        NodeOut::Dropped => spec_children(s, cend, end, count - 1),
                        NodeOut::Parsed(bv) => match spec_children(s, cend, end, count - 1) {
                            KidsOut::Fatal => KidsOut::Fatal,
                            KidsOut::Kids(ks) => KidsOut::Kids(seq![bv] + ks),
                        },
                    }
                } else {
                    KidsOut::Kids(Seq::empty())
                }
            },
        }
    }
}

/// The meaning of a whole buffer: `Some(root)` exactly when the buffer
/// decodes, `None` when it must be rejected.  The header is strict: the
/// version byte must match, the root frame must span the rest of the
/// buffer exactly, and the root payload must neither be dropped nor hold
/// an unknown required marker.
pub open spec fn spec_decode(s: Seq<u8>) -> Option<BlockView> {
    if s.len() < 5 {
        None
    } else if s[0] != SCHEMA_VERSION {
        None
    } else if le32(s, 1) != s.len() - 5 {
        None
    } else {
        match spec_payload(s, 5, s.len() as int) {
            NodeOut::Parsed(bv) => Some(bv),
            _ => None,
        }
    }
}

/// Relies on `String::from_utf8`, which std documents to succeed exactly
/// on well-formed UTF-8 input and to return the string those bytes
/// encode; stated with vstd's own UTF-8 model.
#[verifier::external_body]
fn string_from_bytes(v: Vec<u8>) -> (r: Option<String>)
    ensures
        r is Some <==> valid_utf8(v@),
        r matches Some(s) ==> s@ == decode_utf8(v@),
{
    match String::from_utf8(v) {
        Ok(s) => Some(s),
        Err(_) => None,
    }
}

fn read_u32(b: &Vec<u8>, pos: usize, end: usize) -> (r: Option<(u32, usize)>)
    requires
        pos <= end,
        end <= b@.len(),
    ensures
        r is Some <==> spec_read_u32(b@, pos as int, end as int) is Some,
        r matches Some((v, p)) ==> spec_read_u32(b@, pos as int, end as int) matches Some((sv, sc))
            && v == sv && p == pos + sc && p <= end,
{
    if end - pos < 4 {
        None
    } else {
        let b0 = b[pos];
        let b1 = b[pos + 1];
        let b2 = b[pos + 2];
        let b3 = b[pos + 3];
        let v: u32 = (b0 as u32) + 0x100 * (b1 as u32) + 0x10000 * (b2 as u32) + 0x1000000 * (
        b3 as u32);
        Some((v, pos + 4))
    }
}

fn read_str(b: &Vec<u8>, pos: usize, end: usize) -> (r: Option<(String, usize)>)
    requires
        pos <= end,
        end <= b@.len(),
    ensures
        r is Some <==> spec_read_str(b@, pos as int, end as int) is Some,
        r matches Some((v, p)) ==> spec_read_str(b@, pos as int, end as int) matches Some((sv, sc))
            && v@ == sv && p == pos + sc && pos <= p <= end,
{
    match read_u32(b, pos, end) {
        None => None,
        Some((n, p0)) => {
            if (n as usize) > end - p0 {
                None
            } else {
                let stop: usize = p0 + n as usize;
                let mut bytes: Vec<u8> = Vec::new();
                let mut i: usize = p0;
                while i < stop
                    invariant
                        p0 <= i <= stop,
                        stop <= end <= b@.len(),
                        bytes@ == b@.subrange(p0 as int, i as int),
                    decreases stop - i,
                {
                    bytes.push(b[i]);
                    i = i + 1;
                    proof {
                        assert(bytes@ =~= b@.subrange(p0 as int, i as int));
                    }
                }
                proof {
                    assert(bytes@ == b@.subrange(p0 as int, stop as int));
                }
                match string_from_bytes(bytes) {
                    None => None,
                    Some(st) => Some((st, stop)),
                }
            }
        },
    }
}

fn read_strs(b: &Vec<u8>, pos: usize, end: usize, count: u32) -> (r: Option<(Vec<String>, usize)>)
    requires
        pos <= end,
        end <= b@.len(),
    ensures
        r is Some <==> spec_read_strs(b@, pos as int, end as int, count as int) is Some,
        r matches Some((v, p)) ==> spec_read_strs(b@, pos as int, end as int, count as int)
            matches Some((sv, sc)) && v.deep_view() == sv && p == pos + sc && pos <= p <= end,
    decreases count,
{
    if count == 0 {
        let r: Vec<String> = Vec::new();
        proof {
            assert(r.deep_view() =~= Seq::<Seq<char>>::empty());
        }
        Some((r, pos))
    } else {
        match read_str(b, pos, end) {
            None => None,
            Some((v, p)) => match read_strs(b, p, end, count - 1) {
                None => None,
                Some((mut vs, p2)) => {
                    vs.insert(0, v);
                    proof {
                        let s = b@;
                        let sv0 = spec_read_str(s, pos as int, end as int)->Some_0.0;
                        let svs = spec_read_strs(s, p as int, end as int, count - 1)->Some_0.0;
                        assert(vs.deep_view() =~= seq![sv0] + svs);
                    }
                    Some((vs, p2))
                },
            },
        }
    }
}

fn read_str_list(b: &Vec<u8>, pos: usize, end: usize) -> (r: Option<Vec<String>>)
    requires
        pos <= end,
        end <= b@.len(),
    ensures
        r is Some <==> spec_read_str_list(b@, pos as int, end as int) is Some,
        r matches Some(v) ==> spec_read_str_list(b@, pos as int, end as int) matches Some(sv)
            && v.deep_view() == sv,
{
    match read_u32(b, pos, end) {
        None => None,
        Some((n, p)) => match read_strs(b, p, end, n) {
            None => None,
            Some((vs, _)) => Some(vs),
        },
    }
}

/// The property slots as the exec decoder accumulates them.
struct PropsAcc {
    content: Option<Vec<String>>,
    blob: Option<Vec<String>>,
    ref_doc_id: Option<Vec<String>>,
    ref_info: Option<Vec<String>>,
    additional: Option<String>,
}

impl PropsAcc {
    spec fn view_props(&self) -> PropsView {
        PropsView {
            content: self.content.deep_view(),
            blob: self.blob.deep_view(),
            ref_doc_id: self.ref_doc_id.deep_view(),
            ref_info: self.ref_info.deep_view(),
            additional: self.additional.deep_view(),
        }
    }

    fn empty() -> (r: PropsAcc)
        ensures
            r.view_props() == empty_props(),
    {
        PropsAcc {
            content: None,
            blob: None,
            ref_doc_id: None,
            ref_info: None,
            additional: None,
        }
    }
}

enum NodeOutE {
    Fatal,
    Dropped,
    Parsed(Block),
}

spec fn node_out_view(r: NodeOutE) -> NodeOut {
    match r {
        NodeOutE::Fatal => NodeOut::Fatal,
        NodeOutE::Dropped => NodeOut::Dropped,
        NodeOutE::Parsed(b) => NodeOut::Parsed(block_view(b)),
    }
}

enum KidsOutE {
    Fatal,
    Kids(Vec<Block>),
}

spec fn kids_out_view(r: KidsOutE) -> KidsOut {
    match r {
        KidsOutE::Fatal => KidsOut::Fatal,
        KidsOutE::Kids(v) => KidsOut::Kids(block_views(v@)),
    }
}

fn apply_prop(b: &Vec<u8>, pos: usize, dend: usize, tag: u8, acc: PropsAcc) -> (r: PropsAcc)
    requires
        pos <= dend,
        dend <= b@.len(),
    ensures
        r.view_props() == spec_apply_prop(b@, pos as int, dend as int, tag, acc.view_props()),
{
    if tag == TAG_CONTENT {
        match read_str_list(b, pos, dend) {
            Some(vs) => PropsAcc { content: Some(vs), ..acc },
            None => acc,
        }
    } else if tag == TAG_BLOB {
        match read_str_list(b, pos, dend) {
            Some(vs) => PropsAcc { blob: Some(vs), ..acc },
            None => acc,
        }
    } else if tag == TAG_REF_DOC_ID {
        match read_str_list(b, pos, dend) {
            Some(vs) => PropsAcc { ref_doc_id: Some(vs), ..acc },
            None => acc,
        }
    } else if tag == TAG_REF_INFO {
        match read_str_list(b, pos, dend) {
            Some(vs) => PropsAcc { ref_info: Some(vs), ..acc },
            None => acc,
        }
    } else if tag == TAG_ADDITIONAL {
        let mut bytes: Vec<u8> = Vec::new();
        let mut i: usize = pos;
        while i < dend
            invariant
                pos <= i <= dend,
                dend <= b@.len(),
                bytes@ == b@.subrange(pos as int, i as int),
            decreases dend - i,
        {
            bytes.push(b[i]);
            i = i + 1;
            proof {
                assert(bytes@ =~= b@.subrange(pos as int, i as int));
            }
        }
        match string_from_bytes(bytes) {
            Some(st) => PropsAcc { additional: Some(st), ..acc },
            None => acc,
        }
    } else {
        acc
    }
}

fn parse_props(b: &Vec<u8>, pos: usize, end: usize, count: u8, acc: PropsAcc) -> (r: (
    Option<PropsAcc>,
    Option<(PropsAcc, usize)>,
))
    requires
        pos <= end,
        end <= b@.len(),
    ensures
        match spec_props(b@, pos as int, end as int, count as int, acc.view_props()) {
            PropsOut::Fatal => r.0 is None && r.1 is None,
            PropsOut::Stop(pr) => r.0 matches Some(a) && a.view_props() == pr && r.1 is None,
            PropsOut::Done(pr, c) => r.0 is None && (r.1 matches Some((a, p)) && a.view_props()
                == pr && p == pos + c && pos <= p <= end),
        },
    decreases count,
{
    if count == 0 {
        (None, Some((acc, pos)))
    } else if end - pos < 5 {
        (Some(acc), None)
    } else {
        let tag = b[pos];
        match read_u32(b, pos + 1, end) {
            None => (Some(acc), None),
            Some((plen, p)) => {
                if (plen as usize) <= end - p {
                    if tag >= TAG_REQUIRED_FLOOR {
                        (None, None)
                    } else {
                        let dend: usize = p + plen as usize;
                        let acc2 = apply_prop(b, p, dend, tag, acc);
                        parse_props(b, dend, end, count - 1, acc2)
                    }
                } else {
                    (Some(acc), None)
                }
            },
        }
    }
}

fn parse_payload(b: &Vec<u8>, pos: usize, end: usize) -> (r: NodeOutE)
    requires
        pos <= end,
        end <= b@.len(),
    ensures
        node_out_view(r) == spec_payload(b@, pos as int, end as int),
    decreases end - pos, 1int,
{
    match read_str(b, pos, end) {
        None => NodeOutE::Dropped,
        Some((id, p1)) => match read_str(b, p1, end) {
            None => NodeOutE::Dropped,
            Some((fl, p2)) => {
                if p2 >= end {
                    NodeOutE::Parsed(Block {
                        block_id: id,
                        flavour: fl,
                        content: None,
                        blob: None,
                        ref_doc_id: None,
                        ref_info: None,
                        additional: None,
                        children: Vec::new(),
                    })
                } else {
                    let pc = b[p2];
                    let (stopped, done) = parse_props(b, p2 + 1, end, pc, PropsAcc::empty());
                    match stopped {
                        Some(pr) => NodeOutE::Parsed(Block {
                            block_id: id,
                            flavour: fl,
                            content: pr.content,
                            blob: pr.blob,
                            ref_doc_id: pr.ref_doc_id,
                            ref_info: pr.ref_info,
                            additional: pr.additional,
                            children: Vec::new(),
                        }),
                        None => match done {
                            None => NodeOutE::Fatal,
                            Some((pr, p3)) => match read_u32(b, p3, end) {
                                None => NodeOutE::Parsed(Block {
                                    block_id: id,
                                    flavour: fl,
                                    content: pr.content,
                                    blob: pr.blob,
                                    ref_doc_id: pr.ref_doc_id,
                                    ref_info: pr.ref_info,
                                    additional: pr.additional,
                                    children: Vec::new(),
                                }),
                                Some((cc, p4)) => match parse_children(b, p4, end, cc) {
                                    KidsOutE::Fatal => NodeOutE::Fatal,
                                    KidsOutE::Kids(ks) => NodeOutE::Parsed(Block {
                                        block_id: id,
                                        flavour: fl,
                                        content: pr.content,
                                        blob: pr.blob,
                                        ref_doc_id: pr.ref_doc_id,
                                        ref_info: pr.ref_info,
                                        additional: pr.additional,
                                        children: ks,
                                    }),
                                },
                            },
                        },
                    }
                }
            },
        },
    }
}

fn parse_children(b: &Vec<u8>, pos: usize, end: usize, count: u32) -> (r: KidsOutE)
    requires
        pos <= end,
        end <= b@.len(),
    ensures
        kids_out_view(r) == spec_children(b@, pos as int, end as int, count as int),
    decreases end - pos, 0int,
{
    if count == 0 {
        KidsOutE::Kids(Vec::new())
    } else {
        match read_u32(b, pos, end) {
            None => KidsOutE::Kids(Vec::new()),
            Some((len, p)) => {
                if (len as usize) <= end - p {
                    let cend: usize = p + len as usize;
                    match parse_payload(b, p, cend) {
                        NodeOutE::Fatal => KidsOutE::Fatal,
                        NodeOutE::Dropped => parse_children(b, cend, end, count - 1),
                        NodeOutE::Parsed(blk) => match parse_children(b, cend, end, count - 1) {
                            KidsOutE::Fatal => KidsOutE::Fatal,
                            KidsOutE::Kids(mut ks) => {
                                let ghost old_ks = ks@;
                                ks.insert(0, blk);
                                proof {
                                    assert(ks@.drop_first() =~= old_ks);
                                    assert(block_views(ks@) == seq![block_view(ks@[0])]
                                        + block_views(ks@.drop_first()));
                                    assert(block_views(ks@) == seq![block_view(blk)]
                                        + block_views(old_ks));
                                }
                                KidsOutE::Kids(ks)
                            },
                        },
                    }
                } else {
                    KidsOutE::Kids(Vec::new())
                }
            },
        }
    }
}

/// Decodes a whole buffer into a document tree, or reports that the
/// buffer does not conform to the schema.
pub fn decode(bytes: &Vec<u8>) -> (r: Option<Document>)
    ensures
        r is Some <==> spec_decode(bytes@) is Some,
        r matches Some(d) ==> spec_decode(bytes@) matches Some(bv) && d@ == bv,
{
    let n = bytes.len();
    if n < 5 {
        None
    } else if bytes[0] != SCHEMA_VERSION {
        None
    } else {
        match read_u32(bytes, 1, n) {
            None => None,
            Some((len, _)) => {
                if (len as usize) != n - 5 {
                    None
                } else {
                    match parse_payload(bytes, 5, n) {
                        NodeOutE::Parsed(root) => Some(Document { root }),
                        _ => None,
                    }
                }
            },
        }
    }
}

} // verus!
