//! The typed projection target: a skeleton of bones, materials with texture
//! references, and meshes with positional vertex data and a triangle list.
//! All float-valued data is carried as IEEE-754 bit patterns.

use vstd::prelude::*;

use crate::value::{Vec2Bits, Vec3Bits, Vec4Bits};

verus! {

/// A triangle's three vertex indices.
pub type Face = (u32, u32, u32);

/// Mathematical model of a bone.
pub ghost struct BoneV {
    pub name: Option<Seq<u8>>,
    pub parent: i32,
    pub local_position: Option<Vec3Bits>,
    pub local_rotation: Option<Vec4Bits>,
    pub local_scale: Option<Vec3Bits>,
    pub world_position: Option<Vec3Bits>,
    pub world_rotation: Option<Vec4Bits>,
    pub world_scale: Option<Vec3Bits>,
}

/// One bone. Every field but the parent index is independently optional;
/// absence is an expected state, not an error. A parent of -1 marks a root.
#[derive(Debug, PartialEq)]
pub struct Bone {
    pub name: Option<Vec<u8>>,
    pub parent: i32,
    pub local_position: Option<Vec3Bits>,
    pub local_rotation: Option<Vec4Bits>,
    pub local_scale: Option<Vec3Bits>,
    pub world_position: Option<Vec3Bits>,
    pub world_rotation: Option<Vec4Bits>,
    pub world_scale: Option<Vec3Bits>,
}

impl View for Bone {
    type V = BoneV;

    open spec fn view(&self) -> BoneV {
        BoneV {
            name: match self.name {
                Some(ref n) => Some(n@),
                None => None,
            },
            parent: self.parent,
            local_position: self.local_position,
            local_rotation: self.local_rotation,
            local_scale: self.local_scale,
            world_position: self.world_position,
            world_rotation: self.world_rotation,
            world_scale: self.world_scale,
        }
    }
}

/// Mathematical model of a skeleton.
pub ghost struct SkeletonV {
    pub bones: Seq<BoneV>,
}

/// An ordered sequence of bones.
#[derive(Debug, PartialEq)]
pub struct Skeleton {
    pub bones: Vec<Bone>,
}

/// The models of a list of bones.
pub open spec fn bone_views(bs: Seq<Bone>) -> Seq<BoneV> {
    bs.map_values(|b: Bone| b@)
}

impl View for Skeleton {
    type V = SkeletonV;

    open spec fn view(&self) -> SkeletonV {
        SkeletonV { bones: bone_views(self.bones@) }
    }
}

/// The usage a texture reference was recorded under. The projection records
/// albedo references only.
#[derive(Clone, Copy, Debug, PartialEq, Eq, Structural)]
pub enum TextureUsage {
    Albedo,
}

/// Mathematical model of a texture reference.
pub ghost struct TextureRefV {
    pub file_name: Seq<u8>,
    pub usage: TextureUsage,
    pub alias: Seq<u8>,
    pub hash: u64,
}

/// One texture reference: usage tag, file path, and the hash the reference
/// was resolved from.
#[derive(Debug, PartialEq)]
pub struct TextureRef {
    pub file_name: Vec<u8>,
    pub usage: TextureUsage,
    pub alias: Vec<u8>,
    pub hash: u64,
}

impl View for TextureRef {
    type V = TextureRefV;

    open spec fn view(&self) -> TextureRefV {
        TextureRefV {
            file_name: self.file_name@,
            usage: self.usage,
            alias: self.alias@,
            hash: self.hash,
        }
    }
}

/// Mathematical model of a material.
pub ghost struct MaterialV {
    pub name: Seq<u8>,
    pub textures: Seq<TextureRefV>,
}

/// One material: a name and its texture references (at most one, the
/// albedo/diffuse reference, under the current projection).
#[derive(Debug, PartialEq)]
pub struct Material {
    pub name: Vec<u8>,
    pub textures: Vec<TextureRef>,
}

impl View for Material {
    type V = MaterialV;

    open spec fn view(&self) -> MaterialV {
        MaterialV {
            name: self.name@,
            textures: self.textures@.map_values(|t: TextureRef| t@),
        }
    }
}

/// The models of a list of materials.
pub open spec fn material_views(ms: Seq<Material>) -> Seq<MaterialV> {
    ms.map_values(|m: Material| m@)
}

/// Mathematical model of a mesh. The material is an index into the model's
/// material list.
pub ghost struct MeshV {
    pub uv_layers: u32,
    pub max_influence: u32,
    pub positions: Seq<Vec3Bits>,
    pub normals: Seq<Option<Vec3Bits>>,
    pub uv0: Seq<Option<Vec2Bits>>,
    pub uv1: Seq<Option<Vec2Bits>>,
    pub faces: Seq<Face>,
    pub material: Option<int>,
}

/// One mesh. The vertex layout (UV layer count, maximum skinning influences)
/// is fixed up front; one vertex exists per position value, and the
/// per-vertex attribute lists are sized to the vertex count, unset entries
/// absent. Attribute values beyond the vertex count, and UV writes to layers
/// beyond the declared count, are ignored.
#[derive(Debug, PartialEq)]
pub struct Mesh {
    pub uv_layers: u32,
    pub max_influence: u32,
    pub positions: Vec<Vec3Bits>,
    pub normals: Vec<Option<Vec3Bits>>,
    pub uv0: Vec<Option<Vec2Bits>>,
    pub uv1: Vec<Option<Vec2Bits>>,
    pub faces: Vec<Face>,
    pub material: Option<usize>,
}

impl View for Mesh {
    type V = MeshV;

    open spec fn view(&self) -> MeshV {
        MeshV {
            uv_layers: self.uv_layers,
            max_influence: self.max_influence,
            positions: self.positions@,
            normals: self.normals@,
            uv0: self.uv0@,
            uv1: self.uv1@,
            faces: self.faces@,
            material: match self.material {
                Some(i) => Some(i as int),
                None => None,
            },
        }
    }
}

/// The models of a list of meshes.
pub open spec fn mesh_views(ms: Seq<Mesh>) -> Seq<MeshV> {
    ms.map_values(|m: Mesh| m@)
}

/// Mathematical model of a whole projected model.
pub ghost struct ModelV {
    pub skeleton: SkeletonV,
    pub materials: Seq<MaterialV>,
    pub meshes: Seq<MeshV>,
}

/// The projection target: skeleton, materials and meshes, each list in
/// document order. A material's position in `materials` is its identity for
/// mesh material indices.
#[derive(Debug, PartialEq)]
pub struct Model {
    pub skeleton: Skeleton,
    pub materials: Vec<Material>,
    pub meshes: Vec<Mesh>,
}

impl View for Model {
    type V = ModelV;

    open spec fn view(&self) -> ModelV {
        ModelV {
            skeleton: self.skeleton@,
            materials: material_views(self.materials@),
            meshes: mesh_views(self.meshes@),
        }
    }
}

impl Model {
    /// A fresh model: empty skeleton, no materials, no meshes.
    pub fn new() -> (r: Model)
        ensures
            r@.skeleton.bones.len() == 0,
            r@.materials.len() == 0,
            r@.meshes.len() == 0,
    {
        let m = Model { skeleton: Skeleton { bones: Vec::new() }, materials: Vec::new(), meshes: Vec::new() };
        proof {
            assert(m@.skeleton.bones =~= Seq::<BoneV>::empty());
            assert(m@.materials =~= Seq::<MaterialV>::empty());
            assert(m@.meshes =~= Seq::<MeshV>::empty());
        }
        m
    }
}

} // verus!
