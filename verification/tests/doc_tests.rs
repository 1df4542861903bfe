use doc_parser::parse_doc_from_binary;
use doc_parser::parse_doc_to_markdown;
use doc_parser::read_all_doc_ids_from_root_doc;

const TAG_CONTENT: u8 = 1;
const TAG_BLOB: u8 = 2;
const TAG_REF_DOC_ID: u8 = 3;
const TAG_REF_INFO: u8 = 4;
const TAG_ADDITIONAL: u8 = 5;

fn push_u32(v: &mut Vec<u8>, n: u32) {
    v.extend_from_slice(&n.to_le_bytes());
}

fn push_str(v: &mut Vec<u8>, s: &str) {
    push_u32(v, s.len() as u32);
    v.extend_from_slice(s.as_bytes());
}

fn str_list_data(items: &[&str]) -> Vec<u8> {
    let mut d = Vec::new();
    push_u32(&mut d, items.len() as u32);
    for it in items {
        push_str(&mut d, it);
    }
    d
}

fn prop(tag: u8, data: Vec<u8>) -> Vec<u8> {
    let mut p = vec![tag];
    push_u32(&mut p, data.len() as u32);
    p.extend(data);
    p
}

fn content(items: &[&str]) -> Vec<u8> {
    prop(TAG_CONTENT, str_list_data(items))
}

fn blob(items: &[&str]) -> Vec<u8> {
    prop(TAG_BLOB, str_list_data(items))
}

fn ref_doc_ids(items: &[&str]) -> Vec<u8> {
    prop(TAG_REF_DOC_ID, str_list_data(items))
}

fn ref_infos(items: &[&str]) -> Vec<u8> {
    prop(TAG_REF_INFO, str_list_data(items))
}

fn additional(s: &str) -> Vec<u8> {
    prop(TAG_ADDITIONAL, s.as_bytes().to_vec())
}

/// A whole frame: payload length, then the payload.
fn node(id: &str, flavour: &str, props: Vec<Vec<u8>>, children: Vec<Vec<u8>>) -> Vec<u8> {
    let mut payload = Vec::new();
    push_str(&mut payload, id);
    push_str(&mut payload, flavour);
    payload.push(props.len() as u8);
    for p in props {
        payload.extend(p);
    }
    push_u32(&mut payload, children.len() as u32);
    for c in children {
        payload.extend(c);
    }
    let mut frame = Vec::new();
    push_u32(&mut frame, payload.len() as u32);
    frame.extend(payload);
    frame
}

fn doc(root_frame: Vec<u8>) -> Vec<u8> {
    let mut b = vec![1u8];
    b.extend(root_frame);
    b
}

#[test]
fn empty_buffer_is_rejected_with_context() {
    let r = parse_doc_from_binary(Vec::new(), "d1".to_string());
    let e = r.expect_err("empty buffer must fail");
    assert_eq!(e.message, "failed to decode document: d1");
}

#[test]
fn wrong_version_is_rejected() {
    let mut b = doc(node("r", "page", vec![], vec![]));
    b[0] = 2;
    assert!(parse_doc_from_binary(b, "d".to_string()).is_err());
}

#[test]
fn wrong_root_length_is_rejected() {
    let mut b = doc(node("r", "page", vec![], vec![]));
    b.push(0);
    assert!(parse_doc_from_binary(b, "d".to_string()).is_err());
}

#[test]
fn unknown_required_marker_is_rejected() {
    let b = doc(node("r", "page", vec![prop(0x80, vec![])], vec![]));
    assert!(parse_doc_from_binary(b, "d".to_string()).is_err());
}

#[test]
fn unknown_optional_property_is_skipped() {
    let b = doc(node("r", "page", vec![prop(9, vec![7, 7, 7]), content(&["hi"])], vec![]));
    let c = parse_doc_from_binary(b, "d".to_string()).unwrap();
    assert_eq!(c.blocks.len(), 1);
    assert_eq!(c.blocks[0].content, Some(vec!["hi".to_string()]));
}

#[test]
fn single_block_crawl_fields() {
    let b = doc(node(
        "r",
        "page",
        vec![content(&["Root title"]), blob(&["b1"]), additional("extra")],
        vec![],
    ));
    let c = parse_doc_from_binary(b, "d".to_string()).unwrap();
    assert_eq!(c.blocks.len(), 1);
    let info = &c.blocks[0];
    assert_eq!(info.block_id, "r");
    assert_eq!(info.flavour, "page");
    assert_eq!(info.content, Some(vec!["Root title".to_string()]));
    assert_eq!(info.blob, Some(vec!["b1".to_string()]));
    assert_eq!(info.ref_doc_id, None);
    assert_eq!(info.ref_info, None);
    assert_eq!(info.parent_flavour, None);
    assert_eq!(info.parent_block_id, None);
    assert_eq!(info.additional, Some("extra".to_string()));
    assert_eq!(c.title, "Root title");
    assert_eq!(c.summary, "Root title");
}

#[test]
fn crawl_round_trip_is_deterministic() {
    let b = doc(node(
        "r",
        "page",
        vec![content(&["t"])],
        vec![
            node("a", "paragraph", vec![content(&["alpha"])], vec![]),
            node("b", "list", vec![content(&["beta"])], vec![]),
        ],
    ));
    let c1 = parse_doc_from_binary(b.clone(), "d".to_string()).unwrap();
    let c2 = parse_doc_from_binary(b, "d".to_string()).unwrap();
    assert_eq!(c1, c2);
}

#[test]
fn crawl_is_preorder_with_parents() {
    let b = doc(node(
        "r",
        "page",
        vec![],
        vec![
            node(
                "a",
                "paragraph",
                vec![content(&["A"])],
                vec![node("a1", "paragraph", vec![content(&["A1"])], vec![])],
            ),
            node("b", "paragraph", vec![content(&["B"])], vec![]),
            node("c", "paragraph", vec![content(&["C"])], vec![]),
        ],
    ));
    let c = parse_doc_from_binary(b, "d".to_string()).unwrap();
    let ids: Vec<&str> = c.blocks.iter().map(|i| i.block_id.as_str()).collect();
    assert_eq!(ids, vec!["r", "a", "a1", "b", "c"]);
    assert_eq!(c.blocks[0].parent_block_id, None);
    assert_eq!(c.blocks[1].parent_block_id, Some("r".to_string()));
    assert_eq!(c.blocks[1].parent_flavour, Some("page".to_string()));
    assert_eq!(c.blocks[2].parent_block_id, Some("a".to_string()));
    assert_eq!(c.blocks[2].parent_flavour, Some("paragraph".to_string()));
    assert_eq!(c.blocks[3].parent_block_id, Some("r".to_string()));
    assert_eq!(c.blocks[4].parent_block_id, Some("r".to_string()));
}

#[test]
fn mismatched_reference_pair_is_truncated() {
    let b = doc(node(
        "r",
        "page",
        vec![ref_doc_ids(&["d1", "d2"]), ref_infos(&["meta1"])],
        vec![],
    ));
    let c = parse_doc_from_binary(b, "d".to_string()).unwrap();
    let info = &c.blocks[0];
    assert_eq!(info.ref_doc_id, Some(vec!["d1".to_string()]));
    assert_eq!(info.ref_info, Some(vec!["meta1".to_string()]));
}

#[test]
fn reference_targets_without_metadata_slot_truncate_to_empty() {
    let b = doc(node("r", "page", vec![ref_doc_ids(&["d1"])], vec![]));
    let c = parse_doc_from_binary(b, "d".to_string()).unwrap();
    let info = &c.blocks[0];
    assert_eq!(info.ref_doc_id, Some(Vec::new()));
    assert_eq!(info.ref_info, None);
}

#[test]
fn trash_filter_excludes_marked_references() {
    let b = doc(node(
        "r",
        "page",
        vec![],
        vec![
            node(
                "a",
                "link",
                vec![ref_doc_ids(&["keep", "gone"]), ref_infos(&["meta", "trash:soon"])],
                vec![],
            ),
            node("b", "link", vec![ref_doc_ids(&["keep", "other"]), ref_infos(&["x", "y"])], vec![]),
        ],
    ));
    let with = read_all_doc_ids_from_root_doc(b.clone(), true).unwrap();
    let without = read_all_doc_ids_from_root_doc(b, false).unwrap();
    assert_eq!(with, vec!["keep".to_string(), "gone".to_string(), "other".to_string()]);
    assert_eq!(without, vec!["keep".to_string(), "other".to_string()]);
    for id in &without {
        assert!(with.contains(id), "filter must only remove ids");
    }
}

#[test]
fn doc_ids_error_message_has_no_context() {
    let e = read_all_doc_ids_from_root_doc(vec![9, 9], false).expect_err("must fail");
    assert_eq!(e.message, "failed to decode document");
}

#[test]
fn title_falls_back_to_empty() {
    let b = doc(node(
        "r",
        "page",
        vec![],
        vec![node("a", "paragraph", vec![content(&["body"])], vec![])],
    ));
    let c = parse_doc_from_binary(b.clone(), "d".to_string()).unwrap();
    assert_eq!(c.title, "");
    let m = parse_doc_to_markdown(b, "d".to_string(), false).unwrap();
    assert_eq!(m.title, "");
}

#[test]
fn title_prefers_first_heading() {
    let b = doc(node(
        "r",
        "page",
        vec![content(&["Root"])],
        vec![
            node("a", "paragraph", vec![content(&["p"])], vec![]),
            node("h", "h2", vec![content(&["Head", "ing"])], vec![]),
        ],
    ));
    let c = parse_doc_from_binary(b.clone(), "d".to_string()).unwrap();
    assert_eq!(c.title, "Heading");
    let m = parse_doc_to_markdown(b, "d".to_string(), false).unwrap();
    assert_eq!(m.title, "Heading");
}

#[test]
fn markdown_renders_each_flavour() {
    let b = doc(node(
        "r",
        "page",
        vec![],
        vec![
            node("h", "h1", vec![content(&["Top"])], vec![]),
            node("p", "paragraph", vec![content(&["Body text"])], vec![]),
            node(
                "l",
                "list",
                vec![content(&["item"])],
                vec![node("l2", "list", vec![content(&["sub"])], vec![])],
            ),
            node("c", "code", vec![content(&["let x = 1;"])], vec![]),
            node("q", "quote", vec![content(&["quoted"])], vec![]),
            node("d", "divider", vec![], vec![]),
            node("e", "embed", vec![ref_doc_ids(&["doc9"])], vec![]),
        ],
    ));
    let m = parse_doc_to_markdown(b, "d".to_string(), false).unwrap();
    assert_eq!(m.title, "Top");
    let expected = "# Top\n\nBody text\n\n- item\n  - sub\n```\nlet x = 1;\n```\n\n> quoted\n\n---\n\n[[doc9]]\n";
    assert_eq!(m.markdown, expected);
}

#[test]
fn ai_flag_changes_only_editable_flavours() {
    let fixed = doc(node(
        "r",
        "page",
        vec![],
        vec![
            node("c", "code", vec![content(&["x"])], vec![]),
            node("d", "divider", vec![], vec![]),
            node("e", "embed", vec![ref_doc_ids(&["z"])], vec![]),
        ],
    ));
    let m0 = parse_doc_to_markdown(fixed.clone(), "d".to_string(), false).unwrap();
    let m1 = parse_doc_to_markdown(fixed, "d".to_string(), true).unwrap();
    assert_eq!(m0.markdown, m1.markdown);

    let editable = doc(node(
        "r",
        "page",
        vec![],
        vec![node("p", "paragraph", vec![content(&["hi"])], vec![])],
    ));
    let e0 = parse_doc_to_markdown(editable.clone(), "d".to_string(), false).unwrap();
    let e1 = parse_doc_to_markdown(editable, "d".to_string(), true).unwrap();
    assert_eq!(e0.markdown, "hi\n\n");
    assert_eq!(e1.markdown, "<!--edit:p-->\nhi\n\n");
}

#[test]
fn corrupted_block_is_tolerated_others_survive() {
    // A frame whose length is consistent but whose payload starts with a
    // string length running past the frame: the id is unreadable, so the
    // block is dropped and its siblings still decode.
    let mut bad_payload = Vec::new();
    push_u32(&mut bad_payload, 1000);
    bad_payload.extend_from_slice(&[1, 2, 3]);
    let mut bad_frame = Vec::new();
    push_u32(&mut bad_frame, bad_payload.len() as u32);
    bad_frame.extend(bad_payload);

    let b = doc(node(
        "r",
        "page",
        vec![],
        vec![
            node("a", "paragraph", vec![content(&["A"])], vec![]),
            bad_frame,
            node("c", "paragraph", vec![content(&["C"])], vec![]),
        ],
    ));
    let c = parse_doc_from_binary(b, "d".to_string()).unwrap();
    let ids: Vec<&str> = c.blocks.iter().map(|i| i.block_id.as_str()).collect();
    assert_eq!(ids, vec!["r", "a", "c"]);
}

#[test]
fn corrupted_header_is_fatal() {
    let good = doc(node("r", "page", vec![], vec![]));
    let mut bad = good.clone();
    bad[1] = bad[1].wrapping_add(1);
    assert!(parse_doc_from_binary(good, "d".to_string()).is_ok());
    assert!(parse_doc_from_binary(bad, "d".to_string()).is_err());
}

#[test]
fn malformed_property_keeps_partial_block() {
    // Two properties announced; the second's frame overruns the payload,
    // so the block keeps the first property and loses its children.
    let mut payload = Vec::new();
    push_str(&mut payload, "x");
    push_str(&mut payload, "paragraph");
    payload.push(2);
    payload.extend(content(&["kept"]));
    payload.push(3);
    push_u32(&mut payload, 1000);
    let mut frame = Vec::new();
    push_u32(&mut frame, payload.len() as u32);
    frame.extend(payload);
    let b = doc(node("r", "page", vec![], vec![frame]));
    let c = parse_doc_from_binary(b, "d".to_string()).unwrap();
    assert_eq!(c.blocks.len(), 2);
    assert_eq!(c.blocks[1].block_id, "x");
    assert_eq!(c.blocks[1].content, Some(vec!["kept".to_string()]));
}

#[test]
fn unknown_flavour_passes_through() {
    let b = doc(node(
        "r",
        "page",
        vec![],
        vec![node("w", "wobble", vec![content(&["odd text"])], vec![])],
    ));
    let c = parse_doc_from_binary(b.clone(), "d".to_string()).unwrap();
    assert_eq!(c.blocks[1].flavour, "wobble");
    assert_eq!(c.blocks[1].content, Some(vec!["odd text".to_string()]));
    let m0 = parse_doc_to_markdown(b.clone(), "d".to_string(), false).unwrap();
    let m1 = parse_doc_to_markdown(b, "d".to_string(), true).unwrap();
    assert_eq!(m0.markdown, "odd text\n");
    assert_eq!(m1.markdown, m0.markdown);
}

#[test]
fn summary_truncates_to_150_characters() {
    let long = "x".repeat(200);
    let b = doc(node("r", "page", vec![content(&[long.as_str()])], vec![]));
    let c = parse_doc_from_binary(b, "d".to_string()).unwrap();
    assert_eq!(c.summary, "x".repeat(150));
}

#[test]
fn summary_concatenates_in_preorder() {
    let b = doc(node(
        "r",
        "page",
        vec![],
        vec![
            node("a", "paragraph", vec![content(&["one ", "two "])], vec![]),
            node("b", "paragraph", vec![content(&["three"])], vec![]),
        ],
    ));
    let c = parse_doc_from_binary(b, "d".to_string()).unwrap();
    assert_eq!(c.summary, "one two three");
}

#[test]
fn non_ascii_text_round_trips() {
    let b = doc(node("r", "page", vec![content(&["héllo ✓"])], vec![]));
    let c = parse_doc_from_binary(b, "d".to_string()).unwrap();
    assert_eq!(c.blocks[0].content, Some(vec!["héllo ✓".to_string()]));
    assert_eq!(c.title, "héllo ✓");
}

#[test]
fn invalid_utf8_in_root_id_is_fatal() {
    let mut payload = Vec::new();
    push_u32(&mut payload, 2);
    payload.extend_from_slice(&[0xff, 0xfe]);
    push_str(&mut payload, "page");
    payload.push(0);
    push_u32(&mut payload, 0);
    let mut frame = Vec::new();
    push_u32(&mut frame, payload.len() as u32);
    frame.extend(payload);
    let b = doc(frame);
    assert!(parse_doc_from_binary(b, "d".to_string()).is_err());
}

#[test]
fn navigation_lookup_children_parent() {
    let b = doc(node(
        "r",
        "page",
        vec![],
        vec![
            node(
                "a",
                "paragraph",
                vec![content(&["A"])],
                vec![node("a1", "paragraph", vec![content(&["A1"])], vec![])],
            ),
            node("b", "paragraph", vec![content(&["B"])], vec![]),
        ],
    ));
    let d = doc_parser::decode::decode(&b).expect("decodes");
    assert_eq!(d.root().block_id, "r");
    let a = d.lookup(&"a".to_string()).expect("a exists");
    assert_eq!(a.flavour, "paragraph");
    assert!(d.lookup(&"zz".to_string()).is_none());
    let kids = d.children_of(&"r".to_string()).expect("root has children");
    assert_eq!(kids.len(), 2);
    assert_eq!(kids[0].block_id, "a");
    assert_eq!(kids[1].block_id, "b");
    let p = d.parent_of(&"a1".to_string()).expect("a1 has a parent");
    assert_eq!(p.block_id, "a");
    assert!(d.parent_of(&"r".to_string()).is_none());
    assert!(d.parent_of(&"zz".to_string()).is_none());
}

#[test]
fn overstated_child_count_keeps_parsed_children() {
    // The payload announces three children but holds two frames: the
    // readable ones survive, the missing tail is tolerated.
    let mut payload = Vec::new();
    push_str(&mut payload, "r");
    push_str(&mut payload, "page");
    payload.push(0);
    push_u32(&mut payload, 3);
    payload.extend(node("a", "paragraph", vec![content(&["A"])], vec![]));
    payload.extend(node("b", "paragraph", vec![content(&["B"])], vec![]));
    let mut frame = Vec::new();
    push_u32(&mut frame, payload.len() as u32);
    frame.extend(payload);
    let c = parse_doc_from_binary(doc(frame), "d".to_string()).unwrap();
    let ids: Vec<&str> = c.blocks.iter().map(|i| i.block_id.as_str()).collect();
    assert_eq!(ids, vec!["r", "a", "b"]);
}

#[test]
fn understated_child_count_ignores_trailing_frames() {
    let mut payload = Vec::new();
    push_str(&mut payload, "r");
    push_str(&mut payload, "page");
    payload.push(0);
    push_u32(&mut payload, 1);
    payload.extend(node("a", "paragraph", vec![content(&["A"])], vec![]));
    payload.extend(node("b", "paragraph", vec![content(&["B"])], vec![]));
    let mut frame = Vec::new();
    push_u32(&mut frame, payload.len() as u32);
    frame.extend(payload);
    let c = parse_doc_from_binary(doc(frame), "d".to_string()).unwrap();
    let ids: Vec<&str> = c.blocks.iter().map(|i| i.block_id.as_str()).collect();
    assert_eq!(ids, vec!["r", "a"]);
}

#[test]
fn repeated_property_keeps_the_last_value() {
    let b = doc(node("r", "page", vec![content(&["first"]), content(&["second"])], vec![]));
    let c = parse_doc_from_binary(b, "d".to_string()).unwrap();
    assert_eq!(c.blocks[0].content, Some(vec!["second".to_string()]));
}

#[test]
fn empty_content_list_is_present_and_empty() {
    let b = doc(node("r", "page", vec![content(&[])], vec![]));
    let c = parse_doc_from_binary(b, "d".to_string()).unwrap();
    assert_eq!(c.blocks[0].content, Some(Vec::new()));
    assert_eq!(c.title, "");
    assert_eq!(c.summary, "");
}
