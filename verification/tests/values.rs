//! Value codec tests: every supported type tag decodes N consecutive values
//! into N values of the matching variant, in input order, bit-exact, and
//! strings match the encoded bytes up to the terminating zero.

use cast_viewer::format::{FormatError, ValueTag};
use cast_viewer::value::{decode_values, PropertyValue};

fn push_u16(b: &mut Vec<u8>, v: u16) {
    b.extend_from_slice(&v.to_le_bytes());
}

fn push_u32(b: &mut Vec<u8>, v: u32) {
    b.extend_from_slice(&v.to_le_bytes());
}

fn push_u64(b: &mut Vec<u8>, v: u64) {
    b.extend_from_slice(&v.to_le_bytes());
}

fn push_f32(b: &mut Vec<u8>, v: f32) {
    b.extend_from_slice(&v.to_le_bytes());
}

fn push_f64(b: &mut Vec<u8>, v: f64) {
    b.extend_from_slice(&v.to_le_bytes());
}

#[test]
fn u8_run_decodes_in_order() {
    let b: Vec<u8> = vec![5, 0, 255, 7];
    let (vs, p) = decode_values(ValueTag::U8, &b, 0, 4).unwrap();
    assert_eq!(p, 4);
    assert_eq!(
        vs,
        vec![
            PropertyValue::U8(5),
            PropertyValue::U8(0),
            PropertyValue::U8(255),
            PropertyValue::U8(7)
        ]
    );
}

#[test]
fn u16_run_decodes_little_endian() {
    let mut b = Vec::new();
    push_u16(&mut b, 0x0102);
    push_u16(&mut b, 0xFFFF);
    push_u16(&mut b, 0);
    let (vs, p) = decode_values(ValueTag::U16, &b, 0, 3).unwrap();
    assert_eq!(p, 6);
    assert_eq!(
        vs,
        vec![
            PropertyValue::U16(0x0102),
            PropertyValue::U16(0xFFFF),
            PropertyValue::U16(0)
        ]
    );
}

#[test]
fn u32_run_decodes_little_endian() {
    let mut b = Vec::new();
    push_u32(&mut b, 0xDEADBEEF);
    push_u32(&mut b, 1);
    let (vs, p) = decode_values(ValueTag::U32, &b, 0, 2).unwrap();
    assert_eq!(p, 8);
    assert_eq!(vs, vec![PropertyValue::U32(0xDEADBEEF), PropertyValue::U32(1)]);
}

#[test]
fn u64_run_decodes_little_endian() {
    let mut b = Vec::new();
    push_u64(&mut b, 0x0123_4567_89AB_CDEF);
    let (vs, p) = decode_values(ValueTag::U64, &b, 0, 1).unwrap();
    assert_eq!(p, 8);
    assert_eq!(vs, vec![PropertyValue::U64(0x0123_4567_89AB_CDEF)]);
}

#[test]
fn f32_values_are_bit_exact() {
    let mut b = Vec::new();
    push_f32(&mut b, 1.5);
    push_f32(&mut b, -0.0);
    push_f32(&mut b, f32::NAN);
    let (vs, p) = decode_values(ValueTag::F32, &b, 0, 3).unwrap();
    assert_eq!(p, 12);
    assert_eq!(vs[0], PropertyValue::F32Bits(1.5f32.to_bits()));
    assert_eq!(vs[1], PropertyValue::F32Bits((-0.0f32).to_bits()));
    assert_eq!(vs[2], PropertyValue::F32Bits(f32::NAN.to_bits()));
}

#[test]
fn f64_values_are_bit_exact() {
    let mut b = Vec::new();
    push_f64(&mut b, -2.25);
    let (vs, p) = decode_values(ValueTag::F64, &b, 0, 1).unwrap();
    assert_eq!(p, 8);
    assert_eq!(vs, vec![PropertyValue::F64Bits((-2.25f64).to_bits())]);
}

#[test]
fn strings_scan_to_the_zero_byte() {
    let mut b = Vec::new();
    b.extend_from_slice(b"hello\0");
    b.extend_from_slice(b"\0");
    b.extend_from_slice(b"ab\0");
    let (vs, p) = decode_values(ValueTag::Str, &b, 0, 3).unwrap();
    assert_eq!(p, b.len());
    assert_eq!(
        vs,
        vec![
            PropertyValue::Str(b"hello".to_vec()),
            PropertyValue::Str(Vec::new()),
            PropertyValue::Str(b"ab".to_vec())
        ]
    );
}

#[test]
fn string_without_terminator_is_truncated() {
    let b = b"hello".to_vec();
    assert_eq!(
        decode_values(ValueTag::Str, &b, 0, 1),
        Err(FormatError::Truncated)
    );
}

#[test]
fn vec2_decodes_both_components() {
    let mut b = Vec::new();
    push_f32(&mut b, 0.25);
    push_f32(&mut b, 0.75);
    let (vs, p) = decode_values(ValueTag::Vec2, &b, 0, 1).unwrap();
    assert_eq!(p, 8);
    assert_eq!(
        vs,
        vec![PropertyValue::Vec2((0.25f32.to_bits(), 0.75f32.to_bits()))]
    );
}

#[test]
fn vec3_decodes_three_components() {
    let mut b = Vec::new();
    for v in [1.0f32, 2.0, 3.0, 4.0, 5.0, 6.0] {
        push_f32(&mut b, v);
    }
    let (vs, p) = decode_values(ValueTag::Vec3, &b, 0, 2).unwrap();
    assert_eq!(p, 24);
    assert_eq!(
        vs,
        vec![
            PropertyValue::Vec3((1.0f32.to_bits(), 2.0f32.to_bits(), 3.0f32.to_bits())),
            PropertyValue::Vec3((4.0f32.to_bits(), 5.0f32.to_bits(), 6.0f32.to_bits()))
        ]
    );
}

#[test]
fn vec4_decodes_four_components() {
    let mut b = Vec::new();
    for v in [0.0f32, 0.5, 1.0, -1.0] {
        push_f32(&mut b, v);
    }
    let (vs, p) = decode_values(ValueTag::Vec4, &b, 0, 1).unwrap();
    assert_eq!(p, 16);
    assert_eq!(
        vs,
        vec![PropertyValue::Vec4((
            0.0f32.to_bits(),
            0.5f32.to_bits(),
            1.0f32.to_bits(),
            (-1.0f32).to_bits()
        ))]
    );
}

#[test]
fn empty_run_is_valid() {
    let b: Vec<u8> = Vec::new();
    let (vs, p) = decode_values(ValueTag::U32, &b, 0, 0).unwrap();
    assert_eq!(p, 0);
    assert!(vs.is_empty());
}

#[test]
fn short_fixed_width_run_is_truncated() {
    let b: Vec<u8> = vec![1, 2, 3];
    assert_eq!(
        decode_values(ValueTag::U32, &b, 0, 1),
        Err(FormatError::Truncated)
    );
}
