//! Fixed constants of the binary format: the file magic, the node type tags,
//! and the property value type tags with their encoded widths.

use vstd::prelude::*;

verus! {

/// File magic: the four ASCII bytes `cast` read as a little-endian 32-bit word.
pub const CAST_MAGIC: u32 = 0x74736163;

/// Node type tag `root` (a file-level container node).
pub const TAG_ROOT: u32 = 0x746F6F72;

/// Node type tag `modl` (a model root).
pub const TAG_MODEL: u32 = 0x6C646F6D;

/// Node type tag `skel` (a skeleton).
pub const TAG_SKELETON: u32 = 0x6C656B73;

/// Node type tag `bone`.
pub const TAG_BONE: u32 = 0x656E6F62;

/// Node type tag `matl` (a material).
pub const TAG_MATERIAL: u32 = 0x6C74616D;

/// Node type tag `file` (a texture file reference).
pub const TAG_FILE: u32 = 0x656C6966;

/// Node type tag `mesh`.
pub const TAG_MESH: u32 = 0x6873656D;

/// Fatal decode failures. Structurally optional pieces (a missing skeleton, an
/// unresolved hash reference, an absent property) are not errors and never
/// produce one of these.
#[derive(Clone, Copy, Debug, PartialEq, Eq, Structural)]
pub enum FormatError {
    /// The file header's magic word is not `CAST_MAGIC`.
    BadMagic,
    /// The input ended in the middle of a header, a name, or a value.
    Truncated,
    /// A property carries a type tag outside the fixed tag table.
    UnknownPropertyType,
}

/// The closed set of property value type tags.
#[derive(Clone, Copy, Debug, PartialEq, Eq, Structural)]
pub enum ValueTag {
    /// `b`: unsigned 8-bit integer.
    U8,
    /// `h`: unsigned 16-bit little-endian integer.
    U16,
    /// `i`: unsigned 32-bit little-endian integer.
    U32,
    /// `l`: unsigned 64-bit little-endian integer.
    U64,
    /// `f`: 32-bit float, carried as its IEEE bit pattern.
    F32,
    /// `d`: 64-bit float, carried as its IEEE bit pattern.
    F64,
    /// `s`: null-terminated byte string.
    Str,
    /// `2v`: two 32-bit floats, carried as bit patterns.
    Vec2,
    /// `3v`: three 32-bit floats, carried as bit patterns.
    Vec3,
    /// `4v`: four 32-bit floats, carried as bit patterns; read as a
    /// quaternion only where a rotation is consumed.
    Vec4,
}

/// The tag denoted by the property header's two tag bytes. The second byte is
/// zero padding for one-character tags; any other pair is unknown.
pub open spec fn spec_tag_of(t0: u8, t1: u8) -> Option<ValueTag> {
    if t1 == 0 {
        if t0 == 98 {
            Some(ValueTag::U8)
        } else if t0 == 104 {
            Some(ValueTag::U16)
        } else if t0 == 105 {
            Some(ValueTag::U32)
        } else if t0 == 108 {
            Some(ValueTag::U64)
        } else if t0 == 102 {
            Some(ValueTag::F32)
        } else if t0 == 100 {
            Some(ValueTag::F64)
        } else if t0 == 115 {
            Some(ValueTag::Str)
        } else {
            None
        }
    } else if t1 == 118 {
        if t0 == 50 {
            Some(ValueTag::Vec2)
        } else if t0 == 51 {
            Some(ValueTag::Vec3)
        } else if t0 == 52 {
            Some(ValueTag::Vec4)
        } else {
            None
        }
    } else {
        None
    }
}

/// Decodes the two tag bytes of a property header.
pub fn tag_of(t0: u8, t1: u8) -> (r: Option<ValueTag>)
    ensures
        r == spec_tag_of(t0, t1),
{
    if t1 == 0 {
        if t0 == 98 {
            Some(ValueTag::U8)
        } else if t0 == 104 {
            Some(ValueTag::U16)
        } else if t0 == 105 {
            Some(ValueTag::U32)
        } else if t0 == 108 {
            Some(ValueTag::U64)
        } else if t0 == 102 {
            Some(ValueTag::F32)
        } else if t0 == 100 {
            Some(ValueTag::F64)
        } else if t0 == 115 {
            Some(ValueTag::Str)
        } else {
            None
        }
    } else if t1 == 118 {
        if t0 == 50 {
            Some(ValueTag::Vec2)
        } else if t0 == 51 {
            Some(ValueTag::Vec3)
        } else if t0 == 52 {
            Some(ValueTag::Vec4)
        } else {
            None
        }
    } else {
        None
    }
}

} // verus!
