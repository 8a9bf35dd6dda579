//! The tagged value union and its codec: one typed value is decoded from a
//! byte cursor according to a [`ValueTag`], consuming exactly the encoded
//! width for that tag.

use vstd::prelude::*;

use crate::bytes::{find_nul, le16, le32, le64, read_bytes, read_u16, read_u32, read_u64, scan_nul};
use crate::format::{FormatError, ValueTag};

verus! {

/// Two 32-bit float components, as IEEE bit patterns.
pub type Vec2Bits = (u32, u32);

/// Three 32-bit float components, as IEEE bit patterns.
pub type Vec3Bits = (u32, u32, u32);

/// Four 32-bit float components, as IEEE bit patterns; consumed as a
/// quaternion (x, y, z, w) only where a rotation field is read.
pub type Vec4Bits = (u32, u32, u32, u32);

/// Mathematical model of one decoded value.
pub ghost enum ValueV {
    U8(u8),
    U16(u16),
    U32(u32),
    U64(u64),
    F32Bits(u32),
    F64Bits(u64),
    Str(Seq<u8>),
    Vec2(Vec2Bits),
    Vec3(Vec3Bits),
    Vec4(Vec4Bits),
}

/// One decoded value. Float-typed values carry their IEEE bit patterns;
/// string values carry the encoded bytes up to (excluding) the zero
/// terminator.
#[derive(Debug, PartialEq)]
pub enum PropertyValue {
    U8(u8),
    U16(u16),
    U32(u32),
    U64(u64),
    F32Bits(u32),
    F64Bits(u64),
    Str(Vec<u8>),
    Vec2(Vec2Bits),
    Vec3(Vec3Bits),
    Vec4(Vec4Bits),
}

impl View for PropertyValue {
    type V = ValueV;

    open spec fn view(&self) -> ValueV {
        match self {
            PropertyValue::U8(x) => ValueV::U8(*x),
            PropertyValue::U16(x) => ValueV::U16(*x),
            PropertyValue::U32(x) => ValueV::U32(*x),
            PropertyValue::U64(x) => ValueV::U64(*x),
            PropertyValue::F32Bits(x) => ValueV::F32Bits(*x),
            PropertyValue::F64Bits(x) => ValueV::F64Bits(*x),
            PropertyValue::Str(s) => ValueV::Str(s@),
            PropertyValue::Vec2(v) => ValueV::Vec2(*v),
            PropertyValue::Vec3(v) => ValueV::Vec3(*v),
            PropertyValue::Vec4(v) => ValueV::Vec4(*v),
        }
    }
}

/// The views of a run of decoded values.
pub open spec fn views_of(vs: Seq<PropertyValue>) -> Seq<ValueV> {
    vs.map_values(|v: PropertyValue| v@)
}

/// Whether a value carries the variant that `t` selects.
pub open spec fn value_has_tag(v: ValueV, t: ValueTag) -> bool {
    match v {
        ValueV::U8(_) => t is U8,
        ValueV::U16(_) => t is U16,
        ValueV::U32(_) => t is U32,
        ValueV::U64(_) => t is U64,
        ValueV::F32Bits(_) => t is F32,
        ValueV::F64Bits(_) => t is F64,
        ValueV::Str(_) => t is Str,
        ValueV::Vec2(_) => t is Vec2,
        ValueV::Vec3(_) => t is Vec3,
        ValueV::Vec4(_) => t is Vec4,
    }
}

/// One value of tag `t` read at `p`: the decoded value and the position one
/// past it, or the decode failure.
pub open spec fn parse_value(t: ValueTag, b: Seq<u8>, p: int) -> Result<
    (ValueV, int),
    FormatError,
>
    recommends
        0 <= p <= b.len(),
{
    match t {
        ValueTag::U8 => if p + 1 <= b.len() {
            Ok((ValueV::U8(b[p]), p + 1))
        } else {
            Err(FormatError::Truncated)
        },
        ValueTag::U16 => if p + 2 <= b.len() {
            Ok((ValueV::U16(le16(b, p)), p + 2))
        } else {
            Err(FormatError::Truncated)
        },
        ValueTag::U32 => if p + 4 <= b.len() {
            Ok((ValueV::U32(le32(b, p)), p + 4))
        } else {
            Err(FormatError::Truncated)
        },
        ValueTag::U64 => if p + 8 <= b.len() {
            Ok((ValueV::U64(le64(b, p)), p + 8))
        } else {
            Err(FormatError::Truncated)
        },
        ValueTag::F32 => if p + 4 <= b.len() {
            Ok((ValueV::F32Bits(le32(b, p)), p + 4))
        } else {
            Err(FormatError::Truncated)
        },
        ValueTag::F64 => if p + 8 <= b.len() {
            Ok((ValueV::F64Bits(le64(b, p)), p + 8))
        } else {
            Err(FormatError::Truncated)
        },
        ValueTag::Str => match scan_nul(b, p) {
            Some(q) => Ok((ValueV::Str(b.subrange(p, q)), q + 1)),
            None => Err(FormatError::Truncated),
        },
        ValueTag::Vec2 => if p + 8 <= b.len() {
            Ok((ValueV::Vec2((le32(b, p), le32(b, p + 4))), p + 8))
        } else {
            Err(FormatError::Truncated)
        },
        ValueTag::Vec3 => if p + 12 <= b.len() {
            Ok((ValueV::Vec3((le32(b, p), le32(b, p + 4), le32(b, p + 8))), p + 12))
        } else {
            Err(FormatError::Truncated)
        },
        ValueTag::Vec4 => if p + 16 <= b.len() {
            Ok(
                (
                    ValueV::Vec4((le32(b, p), le32(b, p + 4), le32(b, p + 8), le32(b, p + 12))),
                    p + 16,
                ),
            )
        } else {
            Err(FormatError::Truncated)
        },
    }
}

/// A homogeneous run of `n` values of tag `t` read at `p`: the values in
/// input order and the position one past the run, or the first failure.
pub open spec fn parse_values(t: ValueTag, b: Seq<u8>, p: int, n: nat) -> Result<
    (Seq<ValueV>, int),
    FormatError,
>
    decreases n,
{
    if n == 0 {
        Ok((Seq::empty(), p))
    } else {
        match parse_values(t, b, p, (n - 1) as nat) {
            Ok((vs, p2)) => match parse_value(t, b, p2) {
                Ok((v, p3)) => Ok((vs.push(v), p3)),
                Err(e) => Err(e),
            },
            Err(e) => Err(e),
        }
    }
}

/// Once a run fails, every longer run fails the same way.
pub proof fn lemma_parse_values_err_persists(t: ValueTag, b: Seq<u8>, p: int, m: nat, n: nat)
    requires
        m <= n,
        parse_values(t, b, p, m) is Err,
    ensures
        parse_values(t, b, p, n) == parse_values(t, b, p, m),
    decreases n,
{
    if n > m {
        lemma_parse_values_err_persists(t, b, p, m, (n - 1) as nat);
    }
}

/// The value codec can only fail by running out of bytes: never with a
/// magic or type-tag failure.
pub proof fn lemma_parse_values_err_is_truncated(t: ValueTag, b: Seq<u8>, p: int, n: nat)
    ensures
        parse_values(t, b, p, n) matches Err(e) ==> e == FormatError::Truncated,
    decreases n,
{
    if n > 0 {
        lemma_parse_values_err_is_truncated(t, b, p, (n - 1) as nat);
    }
}

/// Decoding a run of `n` values yields exactly `n` values, each carrying the
/// variant that the type tag selects.
pub proof fn lemma_values_count_and_variant(t: ValueTag, b: Seq<u8>, p: int, n: nat)
    requires
        parse_values(t, b, p, n) is Ok,
    ensures
        parse_values(t, b, p, n)->Ok_0.0.len() == n,
        forall|i: int|
            0 <= i < n ==> value_has_tag(#[trigger] parse_values(t, b, p, n)->Ok_0.0[i], t),
    decreases n,
{
    if n > 0 {
        lemma_values_count_and_variant(t, b, p, (n - 1) as nat);
    }
}

/// Decodes one value of tag `t` at `p`.
pub fn decode_value(t: ValueTag, b: &[u8], p: usize) -> (r: Result<(PropertyValue, usize), FormatError>)
    requires
        p <= b@.len(),
    ensures
        match r {
            Ok((v, p2)) => parse_value(t, b@, p as int) == Ok::<(ValueV, int), FormatError>(
                (v@, p2 as int),
            ) && p <= p2 <= b@.len(),
            Err(e) => parse_value(t, b@, p as int) == Err::<(ValueV, int), FormatError>(e),
        },
{
    let blen: usize = b.len();
    match t {
        ValueTag::U8 => if p < blen {
            Ok((PropertyValue::U8(b[p]), p + 1))
        } else {
            Err(FormatError::Truncated)
        },
        ValueTag::U16 => if blen - p >= 2 {
            Ok((PropertyValue::U16(read_u16(b, p)), p + 2))
        } else {
            Err(FormatError::Truncated)
        },
        ValueTag::U32 => if blen - p >= 4 {
            Ok((PropertyValue::U32(read_u32(b, p)), p + 4))
        } else {
            Err(FormatError::Truncated)
        },
        ValueTag::U64 => if blen - p >= 8 {
            Ok((PropertyValue::U64(read_u64(b, p)), p + 8))
        } else {
            Err(FormatError::Truncated)
        },
        ValueTag::F32 => if blen - p >= 4 {
            Ok((PropertyValue::F32Bits(read_u32(b, p)), p + 4))
        } else {
            Err(FormatError::Truncated)
        },
        ValueTag::F64 => if blen - p >= 8 {
            Ok((PropertyValue::F64Bits(read_u64(b, p)), p + 8))
        } else {
            Err(FormatError::Truncated)
        },
        ValueTag::Str => match find_nul(b, p) {
            Some(q) => {
                let s = read_bytes(b, p, q - p);
                Ok((PropertyValue::Str(s), q + 1))
            },
            None => Err(FormatError::Truncated),
        },
        ValueTag::Vec2 => if blen - p >= 8 {
            Ok((PropertyValue::Vec2((read_u32(b, p), read_u32(b, p + 4))), p + 8))
        } else {
            Err(FormatError::Truncated)
        },
        ValueTag::Vec3 => if blen - p >= 12 {
            Ok(
                (
                    PropertyValue::Vec3((read_u32(b, p), read_u32(b, p + 4), read_u32(b, p + 8))),
                    p + 12,
                ),
            )
        } else {
            Err(FormatError::Truncated)
        },
        ValueTag::Vec4 => if blen - p >= 16 {
            Ok(
                (
                    PropertyValue::Vec4(
                        (
                            read_u32(b, p),
                            read_u32(b, p + 4),
                            read_u32(b, p + 8),
                            read_u32(b, p + 12),
                        ),
                    ),
                    p + 16,
                ),
            )
        } else {
            Err(FormatError::Truncated)
        },
    }
}

/// Decodes `n` consecutive values of tag `t` starting at `p`.
pub fn decode_values(t: ValueTag, b: &[u8], p: usize, n: u32) -> (r: Result<
    (Vec<PropertyValue>, usize),
    FormatError,
>)
    requires
        p <= b@.len(),
    ensures
        match r {
            Ok((vs, p2)) => parse_values(t, b@, p as int, n as nat) == Ok::<
                (Seq<ValueV>, int),
                FormatError,
            >((views_of(vs@), p2 as int)) && p <= p2 <= b@.len(),
            Err(e) => parse_values(t, b@, p as int, n as nat) == Err::<(Seq<ValueV>, int), FormatError>(e),
        },
{
    let mut acc: Vec<PropertyValue> = Vec::new();
    let mut pos: usize = p;
    let mut i: u32 = 0;
    proof {
        assert(views_of(acc@) =~= Seq::<ValueV>::empty());
    }
    while i < n
        invariant
            i <= n,
            p <= pos <= b@.len(),
            parse_values(t, b@, p as int, i as nat) == Ok::<(Seq<ValueV>, int), FormatError>(
                (views_of(acc@), pos as int),
            ),
        decreases n - i,
    {
        match decode_value(t, b, pos) {
            Ok((v, p2)) => {
                let ghost prev: Seq<ValueV> = views_of(acc@);
                acc.push(v);
                proof {
                    assert(views_of(acc@) =~= prev.push(v@));
                }
                pos = p2;
            },
            Err(e) => {
                proof {
                    assert(parse_values(t, b@, p as int, (i + 1) as nat) == Err::<
                        (Seq<ValueV>, int),
                        FormatError,
                    >(e));
                    lemma_parse_values_err_persists(t, b@, p as int, (i + 1) as nat, n as nat);
                }
                return Err(e);
            },
        }
        i = i + 1;
    }
    Ok((acc, pos))
}

/// The value read as an unsigned 32-bit integer: 8-, 16- and 32-bit values
/// upcast; 64-bit values are excluded from this accessor by design.
pub open spec fn value_as_u32(v: ValueV) -> Option<u32> {
    match v {
        ValueV::U8(x) => Some(x as u32),
        ValueV::U16(x) => Some(x as u32),
        ValueV::U32(x) => Some(x),
        _ => None,
    }
}

/// The value read as an unsigned 64-bit integer: any unsigned integer width
/// upcast.
pub open spec fn value_as_u64(v: ValueV) -> Option<u64> {
    match v {
        ValueV::U8(x) => Some(x as u64),
        ValueV::U16(x) => Some(x as u64),
        ValueV::U32(x) => Some(x as u64),
        ValueV::U64(x) => Some(x),
        _ => None,
    }
}

/// The value read as a byte string.
pub open spec fn value_as_bytes(v: ValueV) -> Option<Seq<u8>> {
    match v {
        ValueV::Str(s) => Some(s),
        _ => None,
    }
}

/// The value read as a two-component vector.
pub open spec fn value_as_vec2(v: ValueV) -> Option<Vec2Bits> {
    match v {
        ValueV::Vec2(x) => Some(x),
        _ => None,
    }
}

/// The value read as a three-component vector.
pub open spec fn value_as_vec3(v: ValueV) -> Option<Vec3Bits> {
    match v {
        ValueV::Vec3(x) => Some(x),
        _ => None,
    }
}

/// The value read as a four-component vector.
pub open spec fn value_as_vec4(v: ValueV) -> Option<Vec4Bits> {
    match v {
        ValueV::Vec4(x) => Some(x),
        _ => None,
    }
}

/// Executable counterpart of [`value_as_u32`].
pub fn pv_as_u32(v: &PropertyValue) -> (r: Option<u32>)
    ensures
        r == value_as_u32(v@),
{
    match v {
        PropertyValue::U8(x) => Some(*x as u32),
        PropertyValue::U16(x) => Some(*x as u32),
        PropertyValue::U32(x) => Some(*x),
        _ => None,
    }
}

/// Executable counterpart of [`value_as_u64`].
pub fn pv_as_u64(v: &PropertyValue) -> (r: Option<u64>)
    ensures
        r == value_as_u64(v@),
{
    match v {
        PropertyValue::U8(x) => Some(*x as u64),
        PropertyValue::U16(x) => Some(*x as u64),
        PropertyValue::U32(x) => Some(*x as u64),
        PropertyValue::U64(x) => Some(*x),
        _ => None,
    }
}

/// Executable counterpart of [`value_as_bytes`].
pub fn pv_as_bytes<'a>(v: &'a PropertyValue) -> (r: Option<&'a Vec<u8>>)
    ensures
        match r {
            Some(s) => value_as_bytes(v@) == Some(s@),
            None => value_as_bytes(v@) is None,
        },
{
    match v {
        PropertyValue::Str(s) => Some(s),
        _ => None,
    }
}

/// Executable counterpart of [`value_as_vec2`].
pub fn pv_as_vec2(v: &PropertyValue) -> (r: Option<Vec2Bits>)
    ensures
        r == value_as_vec2(v@),
{
    match v {
        PropertyValue::Vec2(x) => Some(*x),
        _ => None,
    }
}

/// Executable counterpart of [`value_as_vec3`].
pub fn pv_as_vec3(v: &PropertyValue) -> (r: Option<Vec3Bits>)
    ensures
        r == value_as_vec3(v@),
{
    match v {
        PropertyValue::Vec3(x) => Some(*x),
        _ => None,
    }
}

/// Executable counterpart of [`value_as_vec4`].
pub fn pv_as_vec4(v: &PropertyValue) -> (r: Option<Vec4Bits>)
    ensures
        r == value_as_vec4(v@),
{
    match v {
        PropertyValue::Vec4(x) => Some(*x),
        _ => None,
    }
}

} // verus!
