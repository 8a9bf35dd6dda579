//! End-to-end: a minimal synthesized byte buffer decodes and projects into
//! the expected model in one pass.

use cast_viewer::decode::decode_file;
use cast_viewer::project::process_model_node;

fn push_u16(b: &mut Vec<u8>, v: u16) {
    b.extend_from_slice(&v.to_le_bytes());
}

fn push_u32(b: &mut Vec<u8>, v: u32) {
    b.extend_from_slice(&v.to_le_bytes());
}

fn push_u64(b: &mut Vec<u8>, v: u64) {
    b.extend_from_slice(&v.to_le_bytes());
}

fn node_header(b: &mut Vec<u8>, tag: &[u8; 4], hash: u64, nprops: u32, nchildren: u32) {
    b.extend_from_slice(tag);
    push_u32(b, 0);
    push_u64(b, hash);
    push_u32(b, nprops);
    push_u32(b, nchildren);
}

fn prop(b: &mut Vec<u8>, tag: &[u8; 2], name: &[u8], count: u32, payload: &[u8]) {
    b.extend_from_slice(tag);
    push_u16(b, name.len() as u16);
    push_u32(b, count);
    b.extend_from_slice(name);
    b.extend_from_slice(payload);
}

fn vec3_payload(vs: &[(f32, f32, f32)]) -> Vec<u8> {
    let mut out = Vec::new();
    for (x, y, z) in vs {
        out.extend_from_slice(&x.to_le_bytes());
        out.extend_from_slice(&y.to_le_bytes());
        out.extend_from_slice(&z.to_le_bytes());
    }
    out
}

#[test]
fn minimal_model_round_trip() {
    // header(magic, version=1, roots=1, flags=0); one model root with one
    // skeleton (one bone named "root", no parent) and one mesh
    // (vp = three positions, f = [0, 1, 2])
    let mut b = Vec::new();
    b.extend_from_slice(b"cast");
    push_u32(&mut b, 1);
    push_u32(&mut b, 1);
    push_u32(&mut b, 0);

    node_header(&mut b, b"root", 1, 0, 1);
    node_header(&mut b, b"modl", 2, 0, 2);
    node_header(&mut b, b"skel", 3, 0, 1);
    node_header(&mut b, b"bone", 4, 1, 0);
    prop(&mut b, b"s\0", b"n", 1, b"root\0");
    node_header(&mut b, b"mesh", 5, 2, 0);
    prop(
        &mut b,
        b"3v",
        b"vp",
        3,
        &vec3_payload(&[(0.0, 0.0, 0.0), (1.0, 0.0, 0.0), (0.0, 1.0, 0.0)]),
    );
    prop(&mut b, b"b\0", b"f", 3, &[0, 1, 2]);

    let file = decode_file(&b).unwrap();
    assert!(file.has_model());
    let model_node = file.first_model_node().unwrap();
    let model = process_model_node(model_node).unwrap();

    assert_eq!(model.skeleton.bones.len(), 1);
    assert_eq!(model.skeleton.bones[0].name, Some(b"root".to_vec()));
    assert_eq!(model.skeleton.bones[0].parent, -1);
    assert_eq!(model.meshes.len(), 1);
    assert_eq!(model.meshes[0].faces, vec![(2, 1, 0)]);
    assert_eq!(model.meshes[0].material, None);
    assert_eq!(model.meshes[0].positions.len(), 3);
    assert_eq!(
        model.meshes[0].positions[1],
        (1.0f32.to_bits(), 0.0f32.to_bits(), 0.0f32.to_bits())
    );
    assert!(model.materials.is_empty());
}

#[test]
fn full_pipeline_with_material_linkage() {
    let mut b = Vec::new();
    b.extend_from_slice(b"cast");
    push_u32(&mut b, 1);
    push_u32(&mut b, 1);
    push_u32(&mut b, 0);

    node_header(&mut b, b"root", 1, 0, 1);
    node_header(&mut b, b"modl", 2, 0, 2);
    node_header(&mut b, b"matl", 3, 2, 1);
    prop(&mut b, b"s\0", b"n", 1, b"skin\0");
    prop(&mut b, b"l\0", b"albedo", 1, &9u64.to_le_bytes());
    node_header(&mut b, b"file", 9, 1, 0);
    prop(&mut b, b"s\0", b"p", 1, b"skin.png\0");
    node_header(&mut b, b"mesh", 4, 2, 0);
    prop(
        &mut b,
        b"3v",
        b"vp",
        3,
        &vec3_payload(&[(0.0, 0.0, 0.0), (1.0, 0.0, 0.0), (0.0, 1.0, 0.0)]),
    );
    prop(&mut b, b"l\0", b"m", 1, &3u64.to_le_bytes());

    let file = decode_file(&b).unwrap();
    let model = process_model_node(file.first_model_node().unwrap()).unwrap();
    assert_eq!(model.materials.len(), 1);
    assert_eq!(model.materials[0].name, b"skin".to_vec());
    assert_eq!(model.materials[0].textures.len(), 1);
    assert_eq!(model.materials[0].textures[0].file_name, b"skin.png".to_vec());
    assert_eq!(model.meshes[0].material, Some(0));
}
