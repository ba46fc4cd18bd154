//! The drawable entities that an import produces.

use vstd::prelude::*;
use vstd::string::*;
use crate::scalar::{Vec2, Vec3, Scalar};

verus! {

/// What a texture contributes to shading.
#[derive(Clone, Copy, Debug, PartialEq, Eq, Structural)]
pub enum TextureKind {
    Diffuse,
    Specular,
}

/// A texture that the host has loaded onto the device.
#[derive(Debug)]
pub struct Texture {
    /// The device's handle.
    pub id: u32,
    pub kind: TextureKind,
    /// The path the texture was loaded from, as the cache knows it.
    pub path: String,
}

/// A texture as contracts see it.
pub struct TextureView {
    pub id: u32,
    pub kind: TextureKind,
    pub path: Seq<char>,
}

impl View for Texture {
    type V = TextureView;

    open spec fn view(&self) -> TextureView {
        TextureView { id: self.id, kind: self.kind, path: self.path@ }
    }
}

/// The views of a sequence of textures, in order.
pub open spec fn texture_views(textures: Seq<Texture>) -> Seq<TextureView> {
    textures.map_values(|t: Texture| t@)
}

impl Texture {
    /// A texture record for the handle `id`.
    pub fn new(id: u32, kind: TextureKind, path: String) -> (t: Self)
        ensures
            t@ == (TextureView { id, kind, path: path@ }),
    {
        Texture { id, kind, path }
    }
}

impl Clone for Texture {
    fn clone(&self) -> (t: Self)
        ensures
            t@ == self@,
    {
        Texture { id: self.id, kind: self.kind, path: self.path.clone() }
    }
}

/// Surface colours of a mesh.
#[derive(Debug)]
pub struct Material {
    pub name: String,
    pub ambient: Vec3,
    pub diffuse: Vec3,
    pub specular: Vec3,
    pub shininess: Scalar,
}

/// A material as contracts see it.
pub struct MaterialView {
    pub name: Seq<char>,
    pub ambient: Vec3,
    pub diffuse: Vec3,
    pub specular: Vec3,
    pub shininess: Scalar,
}

impl View for Material {
    type V = MaterialView;

    open spec fn view(&self) -> MaterialView {
        MaterialView {
            name: self.name@,
            ambient: self.ambient,
            diffuse: self.diffuse,
            specular: self.specular,
            shininess: self.shininess,
        }
    }
}

impl Material {
    /// A material with the given name and colours.
    pub fn new(name: String, ambient: Vec3, diffuse: Vec3, specular: Vec3, shininess: Scalar) -> (m: Self)
        ensures
            m@ == (MaterialView { name: name@, ambient, diffuse, specular, shininess }),
    {
        Material { name, ambient, diffuse, specular, shininess }
    }
}

/// One corner of a triangle.
#[derive(Clone, Copy, Debug, PartialEq, Eq, Structural)]
pub struct Vertex {
    pub position: Vec3,
    pub normal: Vec3,
    pub tex_coords: Vec2,
}

impl Vertex {
    /// A vertex from its three attributes.
    pub fn new(position: Vec3, normal: Vec3, tex_coords: Vec2) -> (v: Self)
        ensures
            v == (Vertex { position, normal, tex_coords }),
    {
        Vertex { position, normal, tex_coords }
    }
}

/// Where a mesh stands in the world: translation, Euler angles in degrees
/// (pitch, yaw, roll) and scale per axis.
#[derive(Clone, Copy, Debug, PartialEq, Eq, Structural)]
pub struct Pose {
    pub position: Vec3,
    pub rotation: Vec3,
    pub scale: Vec3,
}

/// A drawable mesh: geometry, surface and pose.
#[derive(Debug)]
pub struct Mesh {
    /// The token by which picking names this mesh.
    pub id: u64,
    pub name: String,
    pub position: Vec3,
    pub rotation: Vec3,
    pub scale: Vec3,
    pub vertices: Vec<Vertex>,
    /// Corners of the triangles, three consecutive entries each, as indices
    /// into `vertices`.
    pub indices: Vec<u32>,
    pub textures: Vec<Texture>,
    pub material: Material,
}

/// A mesh as contracts see it.
pub struct MeshView {
    pub id: u64,
    pub name: Seq<char>,
    pub pose: Pose,
    pub vertices: Seq<Vertex>,
    pub indices: Seq<u32>,
    pub textures: Seq<TextureView>,
    pub material: MaterialView,
}

impl View for Mesh {
    type V = MeshView;

    open spec fn view(&self) -> MeshView {
        MeshView {
            id: self.id,
            name: self.name@,
            pose: Pose { position: self.position, rotation: self.rotation, scale: self.scale },
            vertices: self.vertices@,
            indices: self.indices@,
            textures: texture_views(self.textures@),
            material: self.material@,
        }
    }
}

/// The views of a sequence of meshes, in order.
pub open spec fn mesh_views(meshes: Seq<Mesh>) -> Seq<MeshView> {
    meshes.map_values(|m: Mesh| m@)
}

impl Mesh {
    /// A mesh from its parts.
    pub fn new(
        id: u64,
        name: &str,
        vertices: Vec<Vertex>,
        indices: Vec<u32>,
        textures: Vec<Texture>,
        material: Material,
        pose: Pose,
    ) -> (m: Self)
        ensures
            m@ == (MeshView {
                id,
                name: name@,
                pose,
                vertices: vertices@,
                indices: indices@,
                textures: texture_views(textures@),
                material: material@,
            }),
    {
        Mesh {
            id,
            name: String::from_str(name),
            position: pose.position,
            rotation: pose.rotation,
            scale: pose.scale,
            vertices,
            indices,
            textures,
            material,
        }
    }
}

/// An imported asset: the meshes of one file, in the order the scene graph
/// was walked.
#[derive(Debug)]
pub struct Model {
    pub name: String,
    pub meshes: Vec<Mesh>,
}

/// A model as contracts see it.
pub struct ModelView {
    pub name: Seq<char>,
    pub meshes: Seq<MeshView>,
}

impl View for Model {
    type V = ModelView;

    open spec fn view(&self) -> ModelView {
        ModelView { name: self.name@, meshes: mesh_views(self.meshes@) }
    }
}

/// The number of textures of the kind `kind` in a sequence.
pub open spec fn count_kind(textures: Seq<TextureView>, kind: TextureKind) -> nat
    decreases textures.len(),
{
    if textures.len() == 0 {
        0
    } else {
        count_kind(textures.drop_last(), kind) + if textures.last().kind == kind {
            1nat
        } else {
            0nat
        }
    }
}

/// The number under which a shader knows the texture at place `i`: textures
/// of one kind are numbered in their order, and the first of a kind has the
/// number two.
pub open spec fn sampler_number(textures: Seq<TextureView>, i: int) -> nat {
    1 + count_kind(textures.take(i + 1), textures[i].kind)
}

/// A sequence holds no more textures of a kind than it is long.
pub proof fn lemma_count_kind_bound(textures: Seq<TextureView>, kind: TextureKind)
    ensures
        count_kind(textures, kind) <= textures.len(),
    decreases textures.len(),
{
    if textures.len() > 0 {
        lemma_count_kind_bound(textures.drop_last(), kind);
    }
}

impl Mesh {
    /// For each texture of the mesh, in order, the number under which a
    /// shader knows it.
    pub fn sampler_numbers(&self) -> (numbers: Vec<u32>)
        requires
            self.textures@.len() < u32::MAX,
        ensures
            numbers@.len() == self.textures@.len(),
            forall|i: int|
                0 <= i < numbers@.len() ==> #[trigger] numbers@[i] == sampler_number(
                    texture_views(self.textures@),
                    i,
                ),
    {
        let ghost views = texture_views(self.textures@);
        let mut numbers: Vec<u32> = Vec::new();
        let mut diffuse: u32 = 1;
        let mut specular: u32 = 1;
        let mut i: usize = 0;
        while i < self.textures.len()
            invariant
                i <= self.textures@.len(),
                self.textures@.len() < u32::MAX,
                views == texture_views(self.textures@),
                diffuse == 1 + count_kind(views.take(i as int), TextureKind::Diffuse),
                specular == 1 + count_kind(views.take(i as int), TextureKind::Specular),
                numbers@.len() == i,
                forall|k: int| 0 <= k < i ==> #[trigger] numbers@[k] == sampler_number(views, k),
            decreases self.textures@.len() - i,
        {
            proof {
                let now = views.take(i + 1);
                assert(now.drop_last() =~= views.take(i as int));
                assert(now.last() == views[i as int]);
                assert(views[i as int] == self.textures@[i as int]@);
                lemma_count_kind_bound(views.take(i as int), TextureKind::Diffuse);
                lemma_count_kind_bound(views.take(i as int), TextureKind::Specular);
            }
            match self.textures[i].kind {
                TextureKind::Diffuse => {
                    diffuse = diffuse + 1;
                    numbers.push(diffuse);
                },
                TextureKind::Specular => {
                    specular = specular + 1;
                    numbers.push(specular);
                },
            }
            i = i + 1;
        }
        numbers
    }
}

} // verus!
