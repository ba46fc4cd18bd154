//! The scene graph as an asset reader hands it over: a tree of nodes, each
//! with a local transform and references into a table of meshes, which in
//! turn refer to a table of materials.

use vstd::prelude::*;
use crate::scalar::{Mat4, Scalar, Vec2, Vec3};

verus! {

/// Flag bit that an asset reader sets on a scene it could not read fully.
pub const SCENE_FLAGS_INCOMPLETE: u32 = 1;

/// The value of one entry of a material's property bag.
#[derive(Debug)]
pub enum PropertyValue {
    Bytes(Vec<u8>),
    Integers(Vec<i32>),
    Scalars(Vec<Scalar>),
    Text(String),
}

/// One entry of a material's property bag.
#[derive(Debug)]
pub struct MaterialProperty {
    pub key: String,
    pub data: PropertyValue,
}

/// The role that a material assigns to a texture file.
#[derive(Clone, Copy, Debug, PartialEq, Eq, Structural)]
pub enum SlotKind {
    Diffuse,
    Specular,
    /// Any other role: normal maps, height maps and the like.
    Other,
}

/// A texture file that a material refers to.
#[derive(Debug)]
pub struct TextureSlot {
    pub kind: SlotKind,
    /// The file's name as the asset gives it; empty for a slot that the
    /// asset declares and leaves unused.
    pub filename: String,
}

/// A material of the scene: a property bag and texture slots.
#[derive(Debug)]
pub struct SceneMaterial {
    pub properties: Vec<MaterialProperty>,
    pub textures: Vec<TextureSlot>,
}

/// A mesh of the scene, attribute by attribute.
#[derive(Debug)]
pub struct SceneMesh {
    pub name: String,
    pub positions: Vec<Vec3>,
    /// One normal per position, or none at all.
    pub normals: Vec<Vec3>,
    /// One texture coordinate per position, where the mesh has any.
    pub tex_coords: Option<Vec<Vec2>>,
    /// The corners of each face, as indices into `positions`.
    pub faces: Vec<Vec<u32>>,
    /// Index into the scene's materials.
    pub material_index: u32,
}

/// A node of the scene graph.
#[derive(Debug)]
pub struct SceneNode {
    pub name: String,
    /// The node's transform relative to its parent.
    pub transform: Mat4,
    /// Indices into the scene's meshes.
    pub meshes: Vec<u32>,
    pub children: Vec<SceneNode>,
}

/// A whole scene.
#[derive(Debug)]
pub struct SceneGraph {
    pub root: Option<SceneNode>,
    pub flags: u32,
    pub meshes: Vec<SceneMesh>,
    pub materials: Vec<SceneMaterial>,
}

impl SceneMesh {
    /// The per-vertex attributes that are present cover every position.
    pub open spec fn consistent(&self) -> bool {
        &&& self.normals@.len() == 0 || self.normals@.len() >= self.positions@.len()
        &&& self.tex_coords matches Some(uv) ==> uv@.len() >= self.positions@.len()
    }

    /// Decides `consistent`.
    pub fn is_consistent(&self) -> (ok: bool)
        ensures
            ok == self.consistent(),
    {
        let normals_ok = self.normals.len() == 0 || self.normals.len() >= self.positions.len();
        let uv_ok = match &self.tex_coords {
            Some(uv) => uv.len() >= self.positions.len(),
            None => true,
        };
        normals_ok && uv_ok
    }
}

impl SceneNode {
    /// Every mesh index in this subtree is below `mesh_count`.
    pub open spec fn resolves(self, mesh_count: nat) -> bool
        decreases self,
    {
        &&& forall|i: int| 0 <= i < self.meshes@.len() ==> (#[trigger] self.meshes@[i]) < mesh_count
        &&& forall|i: int|
            0 <= i < self.children@.len() ==> (#[trigger] self.children@[i]).resolves(mesh_count)
    }

    /// Decides `resolves`.
    pub fn is_resolved(&self, mesh_count: usize) -> (ok: bool)
        ensures
            ok == self.resolves(mesh_count as nat),
        decreases self,
    {
        let mut i: usize = 0;
        while i < self.meshes.len()
            invariant
                i <= self.meshes@.len(),
                forall|k: int| 0 <= k < i ==> (#[trigger] self.meshes@[k]) < mesh_count,
            decreases self.meshes@.len() - i,
        {
            if self.meshes[i] as usize >= mesh_count {
                return false;
            }
            i = i + 1;
        }
        let mut j: usize = 0;
        while j < self.children.len()
            invariant
                j <= self.children@.len(),
                forall|k: int| 0 <= k < self.meshes@.len() ==> (#[trigger] self.meshes@[k]) < mesh_count,
                forall|k: int|
                    0 <= k < j ==> (#[trigger] self.children@[k]).resolves(mesh_count as nat),
            decreases self.children@.len() - j,
        {
            if !self.children[j].is_resolved(mesh_count) {
                return false;
            }
            j = j + 1;
        }
        true
    }
}

impl SceneGraph {
    /// The reader marked the scene as incomplete.
    pub open spec fn incomplete(&self) -> bool {
        self.flags & SCENE_FLAGS_INCOMPLETE == 1
    }

    /// Whether the reader marked the scene as incomplete.
    pub fn is_incomplete(&self) -> (flagged: bool)
        ensures
            flagged == self.incomplete(),
    {
        self.flags & SCENE_FLAGS_INCOMPLETE == 1
    }

    /// Every reference inside the scene leads somewhere: nodes name meshes
    /// of the scene, meshes name materials of the scene, and the attributes
    /// of each mesh cover its positions.
    pub open spec fn well_formed(&self) -> bool {
        &&& self.root matches Some(root) ==> root.resolves(self.meshes@.len())
        &&& forall|m: int|
            0 <= m < self.meshes@.len() ==> {
                &&& (#[trigger] self.meshes@[m]).consistent()
                &&& self.meshes@[m].material_index < self.materials@.len()
            }
    }

    /// Decides `well_formed`.
    pub fn is_well_formed(&self) -> (ok: bool)
        ensures
            ok == self.well_formed(),
    {
        let root_ok = match &self.root {
            Some(root) => root.is_resolved(self.meshes.len()),
            None => true,
        };
        if !root_ok {
            return false;
        }
        let mut m: usize = 0;
        while m < self.meshes.len()
            invariant
                m <= self.meshes@.len(),
                forall|k: int|
                    0 <= k < m ==> {
                        &&& (#[trigger] self.meshes@[k]).consistent()
                        &&& self.meshes@[k].material_index < self.materials@.len()
                    },
            decreases self.meshes@.len() - m,
        {
            if !self.meshes[m].is_consistent() {
                return false;
            }
            if self.meshes[m].material_index as usize >= self.materials.len() {
                return false;
            }
            m = m + 1;
        }
        true
    }
}

} // verus!
