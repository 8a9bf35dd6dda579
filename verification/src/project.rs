//! Projection of a decoded `modl` node into the typed model: skeleton first,
//! then materials, then meshes, in that strict order — mesh assembly looks
//! materials up by name, so the material list must be complete first.

use vstd::prelude::*;

use crate::format::{TAG_BONE, TAG_MATERIAL, TAG_MESH, TAG_SKELETON};
use crate::model::{
    bone_views, material_views, mesh_views, Bone, BoneV, Face, Material, MaterialV, Mesh, MeshV,
    Model, ModelV, Skeleton, SkeletonV, TextureRef, TextureRefV, TextureUsage,
};
use crate::node::{
    children_of_type, first_prop, first_tagged, node_ref_views, Node, NodeV,
};
use crate::resolve::spec_resolve;
use crate::value::{
    pv_as_bytes, pv_as_u32, pv_as_u64, pv_as_vec2, pv_as_vec3, pv_as_vec4, value_as_bytes,
    value_as_u32, value_as_u64, value_as_vec2, value_as_vec3, value_as_vec4, PropertyValue,
    ValueV, Vec2Bits, Vec3Bits, Vec4Bits,
};

verus! {

/// Property name `n`: a node's name.
pub open spec fn pn_name() -> Seq<u8> {
    seq![110u8]
}

/// Property name `p`: a bone's parent index, or a texture file's path.
pub open spec fn pn_parent() -> Seq<u8> {
    seq![112u8]
}

/// Property name `lp`: local position.
pub open spec fn pn_local_position() -> Seq<u8> {
    seq![108u8, 112u8]
}

/// Property name `lr`: local rotation.
pub open spec fn pn_local_rotation() -> Seq<u8> {
    seq![108u8, 114u8]
}

/// Property name `s`: scale, read for both local and world scale — the
/// format has no distinct world-scale property.
pub open spec fn pn_scale() -> Seq<u8> {
    seq![115u8]
}

/// Property name `wp`: world position.
pub open spec fn pn_world_position() -> Seq<u8> {
    seq![119u8, 112u8]
}

/// Property name `wr`: world rotation.
pub open spec fn pn_world_rotation() -> Seq<u8> {
    seq![119u8, 114u8]
}

/// Property name `albedo`: a material's albedo texture hash.
pub open spec fn pn_albedo() -> Seq<u8> {
    seq![97u8, 108u8, 98u8, 101u8, 100u8, 111u8]
}

/// Property name `diffuse`: a material's diffuse texture hash, the fallback
/// for `albedo`.
pub open spec fn pn_diffuse() -> Seq<u8> {
    seq![100u8, 105u8, 102u8, 102u8, 117u8, 115u8, 101u8]
}

/// Property name `m`: a mesh's material hash.
pub open spec fn pn_material() -> Seq<u8> {
    seq![109u8]
}

/// Property name `ul`: a mesh's UV layer count.
pub open spec fn pn_uv_layers() -> Seq<u8> {
    seq![117u8, 108u8]
}

/// Property name `mi`: a mesh's maximum skinning influences.
pub open spec fn pn_max_influence() -> Seq<u8> {
    seq![109u8, 105u8]
}

/// Property name `vp`: vertex positions.
pub open spec fn pn_positions() -> Seq<u8> {
    seq![118u8, 112u8]
}

/// Property name `vn`: vertex normals.
pub open spec fn pn_normals() -> Seq<u8> {
    seq![118u8, 110u8]
}

/// Property name `u0`: the first UV layer.
pub open spec fn pn_uv0() -> Seq<u8> {
    seq![117u8, 48u8]
}

/// Property name `u1`: the second UV layer.
pub open spec fn pn_uv1() -> Seq<u8> {
    seq![117u8, 49u8]
}

/// Property name `f`: the face index list.
pub open spec fn pn_faces() -> Seq<u8> {
    seq![102u8]
}

/// The first value of the first property named `name`, if that property
/// exists and is non-empty.
pub open spec fn first_value(n: NodeV, name: Seq<u8>) -> Option<ValueV> {
    match first_prop(n.props, name) {
        Some(p) => if p.values.len() > 0 {
            Some(p.values[0])
        } else {
            None
        },
        None => None,
    }
}

/// The first value of property `name` read as a 32-bit unsigned integer.
pub open spec fn first_u32(n: NodeV, name: Seq<u8>) -> Option<u32> {
    match first_value(n, name) {
        Some(v) => value_as_u32(v),
        None => None,
    }
}

/// The first value of property `name` read as a 64-bit unsigned integer.
pub open spec fn first_u64(n: NodeV, name: Seq<u8>) -> Option<u64> {
    match first_value(n, name) {
        Some(v) => value_as_u64(v),
        None => None,
    }
}

/// The first value of property `name` read as a byte string.
pub open spec fn first_bytes(n: NodeV, name: Seq<u8>) -> Option<Seq<u8>> {
    match first_value(n, name) {
        Some(v) => value_as_bytes(v),
        None => None,
    }
}

/// The first value of property `name` read as a three-component vector.
pub open spec fn first_vec3(n: NodeV, name: Seq<u8>) -> Option<Vec3Bits> {
    match first_value(n, name) {
        Some(v) => value_as_vec3(v),
        None => None,
    }
}

/// The first value of property `name` read as a four-component vector.
pub open spec fn first_vec4(n: NodeV, name: Seq<u8>) -> Option<Vec4Bits> {
    match first_value(n, name) {
        Some(v) => value_as_vec4(v),
        None => None,
    }
}

/// The parent index a bone projects from an optional unsigned value: absent
/// means -1 (a root); a present value is reinterpreted as a signed 32-bit
/// integer.
pub open spec fn parent_of(v: Option<u32>) -> i32 {
    match v {
        Some(x) => if x <= 0x7FFF_FFFF {
            x as i32
        } else {
            (x - 0x1_0000_0000) as i32
        },
        None => -1i32,
    }
}

/// The bone a bone-tagged node projects to: every field independently
/// optional, scale read for both local and world scale.
pub open spec fn spec_bone(n: NodeV) -> BoneV {
    BoneV {
        name: first_bytes(n, pn_name()),
        parent: parent_of(first_u32(n, pn_parent())),
        local_position: first_vec3(n, pn_local_position()),
        local_rotation: first_vec4(n, pn_local_rotation()),
        local_scale: first_vec3(n, pn_scale()),
        world_position: first_vec3(n, pn_world_position()),
        world_rotation: first_vec4(n, pn_world_rotation()),
        world_scale: first_vec3(n, pn_scale()),
    }
}

/// The skeleton a skeleton-tagged node projects to: one bone per direct
/// bone-tagged child, in document order.
pub open spec fn spec_skeleton_of(sk: NodeV) -> SkeletonV {
    SkeletonV { bones: children_of_type(sk, TAG_BONE).map_values(|b: NodeV| spec_bone(b)) }
}

/// The skeleton of a model node: the first direct skeleton-tagged child's
/// projection, or an empty skeleton when there is none (a missing skeleton
/// does not fail the model).
pub open spec fn spec_skeleton(model: NodeV) -> SkeletonV {
    match first_tagged(model.children, TAG_SKELETON) {
        Some(sk) => spec_skeleton_of(sk),
        None => SkeletonV { bones: Seq::empty() },
    }
}

/// The texture hash a material node carries: the first `albedo` value, else
/// the first `diffuse` value, else 0 (the conventional "no reference"
/// sentinel).
pub open spec fn albedo_hash(n: NodeV) -> u64 {
    match first_u64(n, pn_albedo()) {
        Some(h) => h,
        None => match first_u64(n, pn_diffuse()) {
            Some(h) => h,
            None => 0,
        },
    }
}

/// The material a material-tagged node projects to: its name (empty when
/// absent) and at most one albedo texture reference. A hash of 0 means no
/// reference; a nonzero hash is resolved within the material node's own
/// subtree, and an unresolved hash yields no reference — neither is an
/// error.
pub open spec fn spec_material(n: NodeV) -> MaterialV {
    MaterialV {
        name: match first_bytes(n, pn_name()) {
            Some(s) => s,
            None => Seq::empty(),
        },
        textures: {
            let h = albedo_hash(n);
            if h != 0 {
                match spec_resolve(n, h) {
                    Some(t) => seq![
                        TextureRefV {
                            file_name: match first_bytes(t, pn_parent()) {
                                Some(s) => s,
                                None => Seq::empty(),
                            },
                            usage: TextureUsage::Albedo,
                            alias: Seq::empty(),
                            hash: h,
                        },
                    ],
                    None => Seq::empty(),
                }
            } else {
                Seq::empty()
            }
        },
    }
}

/// The first value of the property named `name`, if present and non-empty.
fn node_first_value<'a>(n: &'a Node, name: &[u8]) -> (r: Option<&'a PropertyValue>)
    ensures
        match r {
            Some(v) => first_value(n@, name@) == Some(v@),
            None => first_value(n@, name@) is None,
        },
{
    match n.property(name) {
        Some(p) => if p.values.len() > 0 {
            Some(&p.values[0])
        } else {
            None
        },
        None => None,
    }
}

/// Executable counterpart of [`first_u32`].
fn node_first_u32(n: &Node, name: &[u8]) -> (r: Option<u32>)
    ensures
        r == first_u32(n@, name@),
{
    match node_first_value(n, name) {
        Some(v) => pv_as_u32(v),
        None => None,
    }
}

/// Executable counterpart of [`first_u64`].
fn node_first_u64(n: &Node, name: &[u8]) -> (r: Option<u64>)
    ensures
        r == first_u64(n@, name@),
{
    match node_first_value(n, name) {
        Some(v) => pv_as_u64(v),
        None => None,
    }
}

/// Executable counterpart of [`first_bytes`]; the bytes are copied out.
fn node_first_bytes(n: &Node, name: &[u8]) -> (r: Option<Vec<u8>>)
    ensures
        match r {
            Some(s) => first_bytes(n@, name@) == Some(s@),
            None => first_bytes(n@, name@) is None,
        },
{
    match node_first_value(n, name) {
        Some(v) => match pv_as_bytes(v) {
            Some(s) => Some(copy_bytes(s)),
            None => None,
        },
        None => None,
    }
}

/// Executable counterpart of [`first_vec3`].
fn node_first_vec3(n: &Node, name: &[u8]) -> (r: Option<Vec3Bits>)
    ensures
        r == first_vec3(n@, name@),
{
    match node_first_value(n, name) {
        Some(v) => pv_as_vec3(v),
        None => None,
    }
}

/// Executable counterpart of [`first_vec4`].
fn node_first_vec4(n: &Node, name: &[u8]) -> (r: Option<Vec4Bits>)
    ensures
        r == first_vec4(n@, name@),
{
    match node_first_value(n, name) {
        Some(v) => pv_as_vec4(v),
        None => None,
    }
}

/// Copies a byte buffer.
fn copy_bytes(s: &Vec<u8>) -> (r: Vec<u8>)
    ensures
        r@ == s@,
{
    let n = s.len();
    let mut out: Vec<u8> = Vec::new();
    let mut i: usize = 0;
    while i < n
        invariant
            i <= n,
            n == s@.len(),
            out@ =~= s@.subrange(0, i as int),
        decreases n - i,
    {
        out.push(s[i]);
        i = i + 1;
    }
    proof {
        assert(s@.subrange(0, n as int) =~= s@);
    }
    out
}

/// Projects one bone-tagged node.
pub fn process_bone_node(bone_node: &Node) -> (r: Bone)
    ensures
        r@ == spec_bone(bone_node@),
{
    let key_n: [u8; 1] = [110];
    let key_p: [u8; 1] = [112];
    let key_lp: [u8; 2] = [108, 112];
    let key_lr: [u8; 2] = [108, 114];
    let key_s: [u8; 1] = [115];
    let key_wp: [u8; 2] = [119, 112];
    let key_wr: [u8; 2] = [119, 114];
    proof {
        assert(key_n@ =~= pn_name());
        assert(key_p@ =~= pn_parent());
        assert(key_lp@ =~= pn_local_position());
        assert(key_lr@ =~= pn_local_rotation());
        assert(key_s@ =~= pn_scale());
        assert(key_wp@ =~= pn_world_position());
        assert(key_wr@ =~= pn_world_rotation());
    }
    let parent: i32 = match node_first_u32(bone_node, &key_p) {
        Some(x) => if x <= 0x7FFF_FFFF {
            x as i32
        } else {
            ((x as i64) - 0x1_0000_0000i64) as i32
        },
        None => -1,
    };
    Bone {
        name: node_first_bytes(bone_node, &key_n),
        parent,
        local_position: node_first_vec3(bone_node, &key_lp),
        local_rotation: node_first_vec4(bone_node, &key_lr),
        local_scale: node_first_vec3(bone_node, &key_s),
        world_position: node_first_vec3(bone_node, &key_wp),
        world_rotation: node_first_vec4(bone_node, &key_wr),
        world_scale: node_first_vec3(bone_node, &key_s),
    }
}

/// Projects one skeleton-tagged node: its direct bone children, in document
/// order.
pub fn process_skeleton_node(skeleton_node: &Node) -> (r: Skeleton)
    ensures
        r@ == spec_skeleton_of(skeleton_node@),
{
    let bone_nodes = skeleton_node.children_of_type(TAG_BONE);
    let n = bone_nodes.len();
    let mut bones: Vec<Bone> = Vec::new();
    let mut i: usize = 0;
    while i < n
        invariant
            i <= n,
            n == bone_nodes@.len(),
            node_ref_views(bone_nodes@) == children_of_type(skeleton_node@, TAG_BONE),
            bones@.len() == i,
            forall|j: int|
                0 <= j < i ==> bone_views(bones@)[j] == spec_bone(
                    node_ref_views(bone_nodes@)[j],
                ),
        decreases n - i,
    {
        let b = process_bone_node(bone_nodes[i]);
        let ghost prev: Seq<Bone> = bones@;
        bones.push(b);
        proof {
            assert(bone_views(bones@) =~= bone_views(prev).push(b@));
            assert(node_ref_views(bone_nodes@)[i as int] == bone_nodes@[i as int]@);
        }
        i = i + 1;
    }
    let sk = Skeleton { bones };
    proof {
        assert(sk@.bones =~= spec_skeleton_of(skeleton_node@).bones);
    }
    sk
}

/// Projects one material-tagged node.
pub fn process_material_node(child_node: &Node) -> (r: Material)
    ensures
        r@ == spec_material(child_node@),
{
    let key_n: [u8; 1] = [110];
    let key_p: [u8; 1] = [112];
    let key_albedo: [u8; 6] = [97, 108, 98, 101, 100, 111];
    let key_diffuse: [u8; 7] = [100, 105, 102, 102, 117, 115, 101];
    proof {
        assert(key_n@ =~= pn_name());
        assert(key_p@ =~= pn_parent());
        assert(key_albedo@ =~= pn_albedo());
        assert(key_diffuse@ =~= pn_diffuse());
    }
    let name: Vec<u8> = match node_first_bytes(child_node, &key_n) {
        Some(s) => s,
        None => Vec::new(),
    };
    let h: u64 = match node_first_u64(child_node, &key_albedo) {
        Some(h) => h,
        None => match node_first_u64(child_node, &key_diffuse) {
            Some(h) => h,
            None => 0,
        },
    };
    let mut textures: Vec<TextureRef> = Vec::new();
    if h != 0 {
        match child_node.child_by_hash(h) {
            Some(t) => {
                let file_name: Vec<u8> = match node_first_bytes(t, &key_p) {
                    Some(s) => s,
                    None => Vec::new(),
                };
                textures.push(
                    TextureRef { file_name, usage: TextureUsage::Albedo, alias: Vec::new(), hash: h },
                );
            },
            None => {},
        }
    }
    let m = Material { name, textures };
    proof {
        assert(m@.textures =~= spec_material(child_node@).textures);
        assert(m@.name =~= spec_material(child_node@).name);
    }
    m
}

/// Projects every direct material-tagged child of the model node, appending
/// to the model's material list in document order: a material's final
/// position is its permanent index.
pub fn process_material_nodes(model_node: &Node, model: &mut Model)
    ensures
        final(model).skeleton == old(model).skeleton,
        final(model).meshes == old(model).meshes,
        material_views(final(model).materials@) == material_views(old(model).materials@)
            + children_of_type(model_node@, TAG_MATERIAL).map_values(
            |m: NodeV| spec_material(m),
        ),
{
    let material_nodes = model_node.children_of_type(TAG_MATERIAL);
    let n = material_nodes.len();
    let mut i: usize = 0;
    while i < n
        invariant
            i <= n,
            n == material_nodes@.len(),
            node_ref_views(material_nodes@) == children_of_type(model_node@, TAG_MATERIAL),
            model.skeleton == old(model).skeleton,
            model.meshes == old(model).meshes,
            model.materials@.len() == old(model).materials@.len() + i,
            material_views(model.materials@).subrange(
                0,
                old(model).materials@.len() as int,
            ) =~= material_views(old(model).materials@),
            forall|j: int|
                0 <= j < i ==> material_views(model.materials@)[old(model).materials@.len() + j]
                    == spec_material(node_ref_views(material_nodes@)[j]),
        decreases n - i,
    {
        let m = process_material_node(material_nodes[i]);
        let ghost prev: Seq<Material> = model.materials@;
        model.materials.push(m);
        proof {
            assert(material_views(model.materials@) =~= material_views(prev).push(m@));
            assert(node_ref_views(material_nodes@)[i as int] == material_nodes@[i as int]@);
        }
        i = i + 1;
    }
    proof {
        assert(material_views(model.materials@) =~= material_views(old(model).materials@)
            + children_of_type(model_node@, TAG_MATERIAL).map_values(|m: NodeV| spec_material(m)));
    }
}

/// The whole value run of the first property named `name`, or empty.
pub open spec fn prop_values(n: NodeV, name: Seq<u8>) -> Seq<ValueV> {
    match first_prop(n.props, name) {
        Some(p) => p.values,
        None => Seq::empty(),
    }
}

/// The 32-bit readings of the first `k` values, in order, skipping values
/// outside the 32-bit accessor family.
pub open spec fn u32s_prefix(vals: Seq<ValueV>, k: int) -> Seq<u32>
    decreases k,
{
    if k <= 0 {
        Seq::empty()
    } else {
        u32s_prefix(vals, k - 1) + match value_as_u32(vals[k - 1]) {
            Some(x) => seq![x],
            None => Seq::empty(),
        }
    }
}

/// The 32-bit readings of all values, in order.
pub open spec fn u32s_of(vals: Seq<ValueV>) -> Seq<u32> {
    u32s_prefix(vals, vals.len() as int)
}

/// The three-component vectors among the first `k` values, in order.
pub open spec fn vec3s_prefix(vals: Seq<ValueV>, k: int) -> Seq<Vec3Bits>
    decreases k,
{
    if k <= 0 {
        Seq::empty()
    } else {
        vec3s_prefix(vals, k - 1) + match value_as_vec3(vals[k - 1]) {
            Some(x) => seq![x],
            None => Seq::empty(),
        }
    }
}

/// The three-component vectors among all values, in order.
pub open spec fn vec3s_of(vals: Seq<ValueV>) -> Seq<Vec3Bits> {
    vec3s_prefix(vals, vals.len() as int)
}

/// The two-component vectors among the first `k` values, in order.
pub open spec fn vec2s_prefix(vals: Seq<ValueV>, k: int) -> Seq<Vec2Bits>
    decreases k,
{
    if k <= 0 {
        Seq::empty()
    } else {
        vec2s_prefix(vals, k - 1) + match value_as_vec2(vals[k - 1]) {
            Some(x) => seq![x],
            None => Seq::empty(),
        }
    }
}

/// The two-component vectors among all values, in order.
pub open spec fn vec2s_of(vals: Seq<ValueV>) -> Seq<Vec2Bits> {
    vec2s_prefix(vals, vals.len() as int)
}

/// The triangle list an index run yields: indices consumed in groups of
/// three, each group's file-order indices (i0, i1, i2) emitted reversed as
/// the face (i2, i1, i0) — the required winding flip. A trailing partial
/// group is dropped.
pub open spec fn spec_faces(fs: Seq<u32>) -> Seq<Face> {
    Seq::new(fs.len() / 3, |j: int| (fs[3 * j + 2], fs[3 * j + 1], fs[3 * j]))
}

/// The position of the first material with this name, if any.
pub open spec fn material_index(ms: Seq<MaterialV>, name: Seq<u8>) -> Option<int>
    decreases ms.len(),
{
    if ms.len() == 0 {
        None
    } else if ms[0].name == name {
        Some(0)
    } else {
        match material_index(ms.subrange(1, ms.len() as int), name) {
            Some(i) => Some(i + 1),
            None => None,
        }
    }
}

/// A name match at `i` with no earlier match is the material index.
pub proof fn lemma_material_index_at(ms: Seq<MaterialV>, name: Seq<u8>, i: int)
    requires
        0 <= i < ms.len(),
        ms[i].name == name,
        forall|j: int| 0 <= j < i ==> ms[j].name != name,
    ensures
        material_index(ms, name) == Some(i),
    decreases ms.len(),
{
    if i > 0 {
        lemma_material_index_at(ms.subrange(1, ms.len() as int), name, i - 1);
    }
}

/// With no name match anywhere, there is no material index.
pub proof fn lemma_material_index_none(ms: Seq<MaterialV>, name: Seq<u8>)
    requires
        forall|j: int| 0 <= j < ms.len() ==> ms[j].name != name,
    ensures
        material_index(ms, name) is None,
    decreases ms.len(),
{
    if ms.len() > 0 {
        lemma_material_index_none(ms.subrange(1, ms.len() as int), name);
    }
}

/// The material index a mesh node links to: its `m` hash (0 or absent means
/// none) resolved within the whole model node's subtree — material nodes are
/// siblings of mesh nodes, not descendants — then the resolved node's name
/// looked up in the material list. Any failed step yields no material.
pub open spec fn spec_mesh_material(
    mesh: NodeV,
    model: NodeV,
    materials: Seq<MaterialV>,
) -> Option<int> {
    match first_u64(mesh, pn_material()) {
        Some(h) => if h != 0 {
            match spec_resolve(model, h) {
                Some(mn) => match first_bytes(mn, pn_name()) {
                    Some(nm) => material_index(materials, nm),
                    None => None,
                },
                None => None,
            }
        } else {
            None
        },
        None => None,
    }
}

/// The mesh a mesh-tagged node projects to. The vertex layout is fixed up
/// front from `ul` and `mi` (both default 0); one vertex exists per `vp`
/// value; `vn`, `u0` and `u1` assign by index into the already-sized vertex
/// list, indices beyond the vertex count ignored, UV writes to layers beyond
/// the declared count ignored.
pub open spec fn spec_mesh(mesh: NodeV, model: NodeV, materials: Seq<MaterialV>) -> MeshV {
    let uv_layers = match first_u32(mesh, pn_uv_layers()) {
        Some(x) => x,
        None => 0u32,
    };
    let positions = vec3s_of(prop_values(mesh, pn_positions()));
    let normals_raw = vec3s_of(prop_values(mesh, pn_normals()));
    let uv0_raw = vec2s_of(prop_values(mesh, pn_uv0()));
    let uv1_raw = vec2s_of(prop_values(mesh, pn_uv1()));
    MeshV {
        uv_layers,
        max_influence: match first_u32(mesh, pn_max_influence()) {
            Some(x) => x,
            None => 0u32,
        },
        positions,
        normals: Seq::new(
            positions.len(),
            |i: int|
                if i < normals_raw.len() {
                    Some(normals_raw[i])
                } else {
                    None
                },
        ),
        uv0: Seq::new(
            positions.len(),
            |i: int|
                if uv_layers >= 1 && i < uv0_raw.len() {
                    Some(uv0_raw[i])
                } else {
                    None
                },
        ),
        uv1: Seq::new(
            positions.len(),
            |i: int|
                if uv_layers >= 2 && i < uv1_raw.len() {
                    Some(uv1_raw[i])
                } else {
                    None
                },
        ),
        faces: spec_faces(u32s_of(prop_values(mesh, pn_faces()))),
        material: spec_mesh_material(mesh, model, materials),
    }
}

/// The whole model a model-tagged node projects to: skeleton, then materials,
/// then meshes, each list in document order; each mesh's material link is
/// resolved against the completed material list.
pub open spec fn spec_model(model: NodeV) -> ModelV {
    let materials = children_of_type(model, TAG_MATERIAL).map_values(|m: NodeV| spec_material(m));
    ModelV {
        skeleton: spec_skeleton(model),
        materials,
        meshes: children_of_type(model, TAG_MESH).map_values(
            |mn: NodeV| spec_mesh(mn, model, materials),
        ),
    }
}

/// Collects the three-component vectors of property `name`'s value run.
fn collect_vec3s(n: &Node, name: &[u8]) -> (r: Vec<Vec3Bits>)
    ensures
        r@ == vec3s_of(prop_values(n@, name@)),
{
    let mut out: Vec<Vec3Bits> = Vec::new();
    match n.property(name) {
        Some(p) => {
            let len = p.values.len();
            let mut i: usize = 0;
            while i < len
                invariant
                    i <= len,
                    len == p.values@.len(),
                    p@.values.len() == len,
                    forall|j: int| 0 <= j < len ==> p@.values[j] == #[trigger] p.values@[j]@,
                    out@ =~= vec3s_prefix(p@.values, i as int),
                decreases len - i,
            {
                match pv_as_vec3(&p.values[i]) {
                    Some(v) => {
                        out.push(v);
                    },
                    None => {},
                }
                i = i + 1;
            }
        },
        None => {
            proof {
                assert(vec3s_prefix(Seq::<ValueV>::empty(), 0) =~= Seq::<Vec3Bits>::empty());
            }
        },
    }
    out
}

/// Collects the two-component vectors of property `name`'s value run.
fn collect_vec2s(n: &Node, name: &[u8]) -> (r: Vec<Vec2Bits>)
    ensures
        r@ == vec2s_of(prop_values(n@, name@)),
{
    let mut out: Vec<Vec2Bits> = Vec::new();
    match n.property(name) {
        Some(p) => {
            let len = p.values.len();
            let mut i: usize = 0;
            while i < len
                invariant
                    i <= len,
                    len == p.values@.len(),
                    p@.values.len() == len,
                    forall|j: int| 0 <= j < len ==> p@.values[j] == #[trigger] p.values@[j]@,
                    out@ =~= vec2s_prefix(p@.values, i as int),
                decreases len - i,
            {
                match pv_as_vec2(&p.values[i]) {
                    Some(v) => {
                        out.push(v);
                    },
                    None => {},
                }
                i = i + 1;
            }
        },
        None => {
            proof {
                assert(vec2s_prefix(Seq::<ValueV>::empty(), 0) =~= Seq::<Vec2Bits>::empty());
            }
        },
    }
    out
}

/// Collects the 32-bit readings of property `name`'s value run.
fn collect_u32s(n: &Node, name: &[u8]) -> (r: Vec<u32>)
    ensures
        r@ == u32s_of(prop_values(n@, name@)),
{
    let mut out: Vec<u32> = Vec::new();
    match n.property(name) {
        Some(p) => {
            let len = p.values.len();
            let mut i: usize = 0;
            while i < len
                invariant
                    i <= len,
                    len == p.values@.len(),
                    p@.values.len() == len,
                    forall|j: int| 0 <= j < len ==> p@.values[j] == #[trigger] p.values@[j]@,
                    out@ =~= u32s_prefix(p@.values, i as int),
                decreases len - i,
            {
                match pv_as_u32(&p.values[i]) {
                    Some(v) => {
                        out.push(v);
                    },
                    None => {},
                }
                i = i + 1;
            }
        },
        None => {
            proof {
                assert(u32s_prefix(Seq::<ValueV>::empty(), 0) =~= Seq::<u32>::empty());
            }
        },
    }
    out
}

/// The position of the first material named `name` in the list, if any.
fn find_material_index(materials: &Vec<Material>, name: &Vec<u8>) -> (r: Option<usize>)
    ensures
        match r {
            Some(i) => material_index(material_views(materials@), name@) == Some(i as int),
            None => material_index(material_views(materials@), name@) is None,
        },
{
    let n = materials.len();
    let mut i: usize = 0;
    while i < n
        invariant
            i <= n,
            n == materials@.len(),
            forall|j: int| 0 <= j < i ==> material_views(materials@)[j].name != name@,
        decreases n - i,
    {
        if crate::bytes::bytes_eq(materials[i].name.as_slice(), name.as_slice()) {
            proof {
                assert(material_views(materials@)[i as int].name == name@);
                lemma_material_index_at(material_views(materials@), name@, i as int);
            }
            return Some(i);
        }
        i = i + 1;
    }
    proof {
        lemma_material_index_none(material_views(materials@), name@);
    }
    None
}

/// Projects one mesh-tagged node against the model node (for hash
/// resolution) and the completed material list (for the material index).
pub fn process_mesh_node(mesh_node: &Node, model_node: &Node, materials: &Vec<Material>) -> (r:
    Mesh)
    ensures
        r@ == spec_mesh(mesh_node@, model_node@, material_views(materials@)),
{
    let key_ul: [u8; 2] = [117, 108];
    let key_mi: [u8; 2] = [109, 105];
    let key_m: [u8; 1] = [109];
    let key_n: [u8; 1] = [110];
    let key_vp: [u8; 2] = [118, 112];
    let key_vn: [u8; 2] = [118, 110];
    let key_u0: [u8; 2] = [117, 48];
    let key_u1: [u8; 2] = [117, 49];
    let key_f: [u8; 1] = [102];
    proof {
        assert(key_ul@ =~= pn_uv_layers());
        assert(key_mi@ =~= pn_max_influence());
        assert(key_m@ =~= pn_material());
        assert(key_n@ =~= pn_name());
        assert(key_vp@ =~= pn_positions());
        assert(key_vn@ =~= pn_normals());
        assert(key_u0@ =~= pn_uv0());
        assert(key_u1@ =~= pn_uv1());
        assert(key_f@ =~= pn_faces());
    }
    let uv_layers: u32 = match node_first_u32(mesh_node, &key_ul) {
        Some(x) => x,
        None => 0,
    };
    let max_influence: u32 = match node_first_u32(mesh_node, &key_mi) {
        Some(x) => x,
        None => 0,
    };
    let material: Option<usize> = match node_first_u64(mesh_node, &key_m) {
        Some(h) => if h != 0 {
            match model_node.child_by_hash(h) {
                Some(mn) => match node_first_bytes(mn, &key_n) {
                    Some(nm) => find_material_index(materials, &nm),
                    None => None,
                },
                None => None,
            }
        } else {
            None
        },
        None => None,
    };
    let positions = collect_vec3s(mesh_node, &key_vp);
    let normals_raw = collect_vec3s(mesh_node, &key_vn);
    let uv0_raw = collect_vec2s(mesh_node, &key_u0);
    let uv1_raw = collect_vec2s(mesh_node, &key_u1);
    let npos = positions.len();

    let mut normals: Vec<Option<Vec3Bits>> = Vec::new();
    let mut i: usize = 0;
    while i < npos
        invariant
            i <= npos,
            normals@.len() == i,
            forall|k: int|
                0 <= k < i ==> normals@[k] == (if k < normals_raw@.len() {
                    Some(normals_raw@[k])
                } else {
                    None
                }),
        decreases npos - i,
    {
        if i < normals_raw.len() {
            normals.push(Some(normals_raw[i]));
        } else {
            normals.push(None);
        }
        i = i + 1;
    }

    let mut uv0: Vec<Option<Vec2Bits>> = Vec::new();
    let mut i0: usize = 0;
    while i0 < npos
        invariant
            i0 <= npos,
            uv0@.len() == i0,
            forall|k: int|
                0 <= k < i0 ==> uv0@[k] == (if uv_layers >= 1 && k < uv0_raw@.len() {
                    Some(uv0_raw@[k])
                } else {
                    None
                }),
        decreases npos - i0,
    {
        if uv_layers >= 1 && i0 < uv0_raw.len() {
            uv0.push(Some(uv0_raw[i0]));
        } else {
            uv0.push(None);
        }
        i0 = i0 + 1;
    }

    let mut uv1: Vec<Option<Vec2Bits>> = Vec::new();
    let mut i1: usize = 0;
    while i1 < npos
        invariant
            i1 <= npos,
            uv1@.len() == i1,
            forall|k: int|
                0 <= k < i1 ==> uv1@[k] == (if uv_layers >= 2 && k < uv1_raw@.len() {
                    Some(uv1_raw@[k])
                } else {
                    None
                }),
        decreases npos - i1,
    {
        if uv_layers >= 2 && i1 < uv1_raw.len() {
            uv1.push(Some(uv1_raw[i1]));
        } else {
            uv1.push(None);
        }
        i1 = i1 + 1;
    }

    let face_indices = collect_u32s(mesh_node, &key_f);
    let nfaces = face_indices.len() / 3;
    let mut faces: Vec<Face> = Vec::new();
    let mut j: usize = 0;
    while j < nfaces
        invariant
            j <= nfaces,
            nfaces == face_indices@.len() / 3,
            3 * nfaces <= face_indices@.len(),
            face_indices@.len() <= usize::MAX,
            faces@.len() == j,
            forall|k: int|
                0 <= k < j ==> faces@[k] == (
                    face_indices@[3 * k + 2],
                    face_indices@[3 * k + 1],
                    face_indices@[3 * k],
                ),
        decreases nfaces - j,
    {
        faces.push((face_indices[3 * j + 2], face_indices[3 * j + 1], face_indices[3 * j]));
        j = j + 1;
    }

    let m = Mesh {
        uv_layers,
        max_influence,
        positions,
        normals,
        uv0,
        uv1,
        faces,
        material,
    };
    proof {
        let sm = spec_mesh(mesh_node@, model_node@, material_views(materials@));
        assert(m@.normals =~= sm.normals);
        assert(m@.uv0 =~= sm.uv0);
        assert(m@.uv1 =~= sm.uv1);
        assert(m@.faces =~= sm.faces);
    }
    m
}

/// Projects every direct mesh-tagged child of the model node, appending to
/// the model's mesh list in the source document order of the mesh nodes.
/// Each mesh is assembled independently against the immutable tree and the
/// already-final material list.
pub fn process_mesh_nodes(model_node: &Node, model: &mut Model)
    ensures
        final(model).skeleton == old(model).skeleton,
        final(model).materials == old(model).materials,
        mesh_views(final(model).meshes@) == mesh_views(old(model).meshes@) + children_of_type(
            model_node@,
            TAG_MESH,
        ).map_values(
            |mn: NodeV|
                spec_mesh(mn, model_node@, material_views(old(model).materials@)),
        ),
{
    let mesh_nodes = model_node.children_of_type(TAG_MESH);
    let n = mesh_nodes.len();
    let mut i: usize = 0;
    while i < n
        invariant
            i <= n,
            n == mesh_nodes@.len(),
            node_ref_views(mesh_nodes@) == children_of_type(model_node@, TAG_MESH),
            model.skeleton == old(model).skeleton,
            model.materials == old(model).materials,
            model.meshes@.len() == old(model).meshes@.len() + i,
            mesh_views(model.meshes@).subrange(0, old(model).meshes@.len() as int)
                =~= mesh_views(old(model).meshes@),
            forall|j: int|
                0 <= j < i ==> mesh_views(model.meshes@)[old(model).meshes@.len() + j]
                    == spec_mesh(
                    node_ref_views(mesh_nodes@)[j],
                    model_node@,
                    material_views(old(model).materials@),
                ),
        decreases n - i,
    {
        let m = process_mesh_node(mesh_nodes[i], model_node, &model.materials);
        let ghost prev: Seq<Mesh> = model.meshes@;
        model.meshes.push(m);
        proof {
            assert(mesh_views(model.meshes@) =~= mesh_views(prev).push(m@));
            assert(node_ref_views(mesh_nodes@)[i as int] == mesh_nodes@[i as int]@);
        }
        i = i + 1;
    }
    proof {
        assert(mesh_views(model.meshes@) =~= mesh_views(old(model).meshes@) + children_of_type(
            model_node@,
            TAG_MESH,
        ).map_values(
            |mn: NodeV| spec_mesh(mn, model_node@, material_views(old(model).materials@)),
        ));
    }
}

/// Projects a model-tagged node into a complete model: skeleton, then
/// materials, then meshes, in that strict order. A missing skeleton projects
/// as empty; the projection itself always succeeds.
pub fn process_model_node(model_node: &Node) -> (r: Option<Model>)
    ensures
        r matches Some(m) && m@ == spec_model(model_node@),
{
    let mut model = Model::new();
    match model_node.first_child_of_type(TAG_SKELETON) {
        Some(sk) => {
            model.skeleton = process_skeleton_node(sk);
        },
        None => {
            proof {
                assert(model@.skeleton.bones =~= spec_skeleton(model_node@).bones);
            }
        },
    }
    process_material_nodes(model_node, &mut model);
    process_mesh_nodes(model_node, &mut model);
    proof {
        let sm = spec_model(model_node@);
        assert(model@.materials =~= sm.materials);
        assert(model@.meshes =~= sm.meshes);
    }
    Some(model)
}

/// A bone node lacking the parent property projects parent -1; one lacking
/// the name property projects no name.
pub proof fn lemma_bone_defaults(n: NodeV)
    ensures
        first_prop(n.props, pn_parent()) is None ==> spec_bone(n).parent == -1,
        first_prop(n.props, pn_name()) is None ==> spec_bone(n).name is None,
{
}

/// A material whose albedo/diffuse hash is 0, or whose hash resolves to
/// nothing within its own subtree, projects zero texture references.
pub proof fn lemma_material_no_reference(n: NodeV)
    ensures
        albedo_hash(n) == 0 ==> spec_material(n).textures.len() == 0,
        spec_resolve(n, albedo_hash(n)) is None ==> spec_material(n).textures.len() == 0,
{
}

/// An index run yields one face per full group of three, each face the
/// group's indices in reverse order; a trailing partial group is dropped.
pub proof fn lemma_faces_winding(fs: Seq<u32>)
    ensures
        spec_faces(fs).len() == fs.len() / 3,
        forall|j: int|
            0 <= j < fs.len() / 3 ==> spec_faces(fs)[j] == (
                fs[3 * j + 2],
                fs[3 * j + 1],
                fs[3 * j],
            ),
{
}

/// A projected model holds one mesh per mesh-tagged direct child of the
/// model node, in the source document order of those children, whatever
/// schedule assembled them.
pub proof fn lemma_mesh_document_order(model: NodeV)
    ensures
        spec_model(model).meshes.len() == children_of_type(model, TAG_MESH).len(),
        forall|i: int|
            0 <= i < children_of_type(model, TAG_MESH).len() ==> spec_model(model).meshes[i]
                == spec_mesh(
                children_of_type(model, TAG_MESH)[i],
                model,
                spec_model(model).materials,
            ),
{
}

/// Materials keep the document order of material-tagged children, and a
/// material's position in the projected list is its index.
pub proof fn lemma_material_document_order(model: NodeV)
    ensures
        spec_model(model).materials.len() == children_of_type(model, TAG_MATERIAL).len(),
        forall|i: int|
            0 <= i < children_of_type(model, TAG_MATERIAL).len() ==> spec_model(model).materials[i]
                == spec_material(children_of_type(model, TAG_MATERIAL)[i]),
{
}

} // verus!

