//! Tree decoding tests: headers, magic validation, property lookup with the
//! first-occurrence-wins duplicate policy, parent references, hash
//! resolution, and the fatal error taxonomy.

use cast_viewer::decode::{decode_file, decode_node};
use cast_viewer::format::{FormatError, TAG_MESH, TAG_MODEL, TAG_ROOT, TAG_SKELETON};
use cast_viewer::value::PropertyValue;

fn push_u16(b: &mut Vec<u8>, v: u16) {
    b.extend_from_slice(&v.to_le_bytes());
}

fn push_u32(b: &mut Vec<u8>, v: u32) {
    b.extend_from_slice(&v.to_le_bytes());
}

fn push_u64(b: &mut Vec<u8>, v: u64) {
    b.extend_from_slice(&v.to_le_bytes());
}

fn node_header(b: &mut Vec<u8>, tag: &[u8; 4], hash: u64, nprops: u32, nchildren: u32) {
    b.extend_from_slice(tag);
    push_u32(b, 0); // advisory size, deliberately junk
    push_u64(b, hash);
    push_u32(b, nprops);
    push_u32(b, nchildren);
}

fn prop(b: &mut Vec<u8>, tag: &[u8; 2], name: &[u8], count: u32, payload: &[u8]) {
    b.extend_from_slice(tag);
    push_u16(b, name.len() as u16);
    push_u32(b, count);
    b.extend_from_slice(name);
    b.extend_from_slice(payload);
}

fn file_header(b: &mut Vec<u8>, roots: u32) {
    b.extend_from_slice(b"cast");
    push_u32(b, 1);
    push_u32(b, roots);
    push_u32(b, 0);
}

#[test]
fn node_tags_are_four_character_codes() {
    assert_eq!(TAG_ROOT, u32::from_le_bytes(*b"root"));
    assert_eq!(TAG_MODEL, u32::from_le_bytes(*b"modl"));
    assert_eq!(TAG_SKELETON, u32::from_le_bytes(*b"skel"));
    assert_eq!(TAG_MESH, u32::from_le_bytes(*b"mesh"));
}

#[test]
fn bad_magic_fails_with_bad_magic() {
    let mut b = Vec::new();
    b.extend_from_slice(b"salt");
    push_u32(&mut b, 1);
    push_u32(&mut b, 0);
    push_u32(&mut b, 0);
    assert_eq!(decode_file(&b), Err(FormatError::BadMagic));
}

#[test]
fn short_header_is_truncated() {
    assert_eq!(decode_file(b"ca"), Err(FormatError::Truncated));
    assert_eq!(decode_file(b"cast\x01\x00"), Err(FormatError::Truncated));
    assert_eq!(decode_file(&[]), Err(FormatError::Truncated));
}

#[test]
fn empty_file_decodes_with_no_roots() {
    let mut b = Vec::new();
    file_header(&mut b, 0);
    let f = decode_file(&b).unwrap();
    assert_eq!(f.version, 1);
    assert_eq!(f.flags, 0);
    assert!(f.roots.is_empty());
    assert!(!f.has_model());
    assert!(f.first_model_node().is_none());
}

#[test]
fn trailing_bytes_are_ignored() {
    let mut b = Vec::new();
    file_header(&mut b, 1);
    node_header(&mut b, b"root", 1, 0, 0);
    b.extend_from_slice(&[9, 9, 9, 9]);
    let f = decode_file(&b).unwrap();
    assert_eq!(f.roots.len(), 1);
    assert_eq!(f.roots[0].tag, TAG_ROOT);
}

#[test]
fn children_carry_parent_hash() {
    let mut b = Vec::new();
    file_header(&mut b, 1);
    node_header(&mut b, b"root", 77, 0, 1);
    node_header(&mut b, b"modl", 78, 0, 1);
    node_header(&mut b, b"mesh", 79, 0, 0);
    let f = decode_file(&b).unwrap();
    let root = &f.roots[0];
    assert_eq!(root.parent, None);
    assert_eq!(root.hash, 77);
    let model = &root.children[0];
    assert_eq!(model.parent, Some(77));
    assert_eq!(model.children[0].parent, Some(78));
    assert!(f.has_model());
    assert_eq!(f.first_model_node().unwrap().hash, 78);
}

#[test]
fn duplicate_property_names_keep_first_values() {
    let mut b = Vec::new();
    node_header(&mut b, b"bone", 5, 3, 0);
    prop(&mut b, b"i\0", b"x", 1, &10u32.to_le_bytes());
    prop(&mut b, b"i\0", b"x", 1, &20u32.to_le_bytes());
    prop(&mut b, b"i\0", b"y", 1, &30u32.to_le_bytes());
    let (node, read) = decode_node(&b, 0, None).unwrap();
    assert_eq!(read, b.len());
    // the duplicate was dropped without error; only two names survive
    assert_eq!(node.props.len(), 2);
    let x = node.property(b"x").unwrap();
    assert_eq!(x.values, vec![PropertyValue::U32(10)]);
    let y = node.property(b"y").unwrap();
    assert_eq!(y.values, vec![PropertyValue::U32(30)]);
    assert!(node.property(b"z").is_none());
}

#[test]
fn unknown_property_type_is_fatal() {
    let mut b = Vec::new();
    node_header(&mut b, b"bone", 5, 1, 0);
    prop(&mut b, b"q\0", b"x", 0, &[]);
    assert_eq!(decode_node(&b, 0, None), Err(FormatError::UnknownPropertyType));
}

#[test]
fn nonzero_pad_byte_in_one_character_tag_is_unknown() {
    let mut b = Vec::new();
    node_header(&mut b, b"bone", 5, 1, 0);
    prop(&mut b, b"ix", b"x", 0, &[]);
    assert_eq!(decode_node(&b, 0, None), Err(FormatError::UnknownPropertyType));
}

#[test]
fn zero_value_count_is_valid() {
    let mut b = Vec::new();
    node_header(&mut b, b"bone", 5, 1, 0);
    prop(&mut b, b"i\0", b"x", 0, &[]);
    let (node, _) = decode_node(&b, 0, None).unwrap();
    let x = node.property(b"x").unwrap();
    assert!(x.values.is_empty());
}

#[test]
fn truncated_property_values_are_fatal() {
    let mut b = Vec::new();
    node_header(&mut b, b"bone", 5, 1, 0);
    prop(&mut b, b"i\0", b"x", 2, &7u32.to_le_bytes()); // promises 2, delivers 1
    assert_eq!(decode_node(&b, 0, None), Err(FormatError::Truncated));
}

#[test]
fn truncated_child_is_fatal_for_the_file() {
    let mut b = Vec::new();
    file_header(&mut b, 1);
    node_header(&mut b, b"root", 1, 0, 2);
    node_header(&mut b, b"modl", 2, 0, 0);
    // second promised child never appears
    assert_eq!(decode_file(&b), Err(FormatError::Truncated));
}

#[test]
fn corrupt_advisory_size_does_not_matter() {
    let mut b = Vec::new();
    file_header(&mut b, 1);
    // size field is 0xFFFFFFFF; decoding must still follow the real bytes
    b.extend_from_slice(b"root");
    push_u32(&mut b, 0xFFFF_FFFF);
    push_u64(&mut b, 1);
    push_u32(&mut b, 0);
    push_u32(&mut b, 0);
    let f = decode_file(&b).unwrap();
    assert_eq!(f.roots[0].size, 0xFFFF_FFFF);
}

#[test]
fn child_by_hash_finds_first_in_document_order() {
    let mut b = Vec::new();
    node_header(&mut b, b"root", 1, 0, 2);
    node_header(&mut b, b"modl", 2, 0, 1);
    node_header(&mut b, b"mesh", 4, 0, 0);
    node_header(&mut b, b"skel", 4, 0, 0);
    let (root, _) = decode_node(&b, 0, None).unwrap();
    // depth-first: the mesh inside the model comes before the sibling skel
    let found = root.child_by_hash(4).unwrap();
    assert_eq!(found.tag, TAG_MESH);
    // the search excludes the root itself
    assert!(root.child_by_hash(1).is_none());
    assert!(root.child_by_hash(99).is_none());
}

#[test]
fn property_name_is_a_sized_string() {
    let mut b = Vec::new();
    node_header(&mut b, b"file", 9, 1, 0);
    // a name containing a zero byte is legal: names are length-prefixed
    prop(&mut b, b"i\0", b"a\0b", 1, &1u32.to_le_bytes());
    let (node, _) = decode_node(&b, 0, None).unwrap();
    assert!(node.property(b"a\0b").is_some());
    assert!(node.property(b"a").is_none());
}

#[test]
fn model_under_a_later_root_is_found_by_the_pre_check_only() {
    // has_model scans every root; the projection entry point looks only at
    // the first root's children
    let mut b = Vec::new();
    file_header(&mut b, 2);
    node_header(&mut b, b"root", 1, 0, 0);
    node_header(&mut b, b"root", 2, 0, 1);
    node_header(&mut b, b"modl", 3, 0, 0);
    let f = decode_file(&b).unwrap();
    assert!(f.has_model());
    assert!(f.first_model_node().is_none());
}

#[test]
fn file_tag_is_a_four_character_code() {
    assert_eq!(
        cast_viewer::format::TAG_FILE,
        u32::from_le_bytes(*b"file")
    );
    assert_eq!(
        cast_viewer::format::TAG_MATERIAL,
        u32::from_le_bytes(*b"matl")
    );
    assert_eq!(
        cast_viewer::format::TAG_BONE,
        u32::from_le_bytes(*b"bone")
    );
    assert_eq!(
        cast_viewer::format::CAST_MAGIC,
        u32::from_le_bytes(*b"cast")
    );
}
