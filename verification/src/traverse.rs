//! Walking the scene graph.
//!
//! The walk is depth first and visits a node before its children. Each mesh
//! that a node refers to is listed once per reference, together with the
//! local transforms on the way from the root down to that node: their
//! product, taken in that order, is the transform of the mesh in the world.

use vstd::prelude::*;
use vstd::string::*;
use crate::material::{mismatch_warnings, process_material, resolved_material};
use crate::mesh::{texture_views, Mesh, MeshView, Pose, Texture, Vertex};
use crate::scalar::{Mat4, Vec2, Vec3};
use crate::scene::{SceneMaterial, SceneMesh, SceneNode};
use crate::warning::{warning_views, ImportWarning};

verus! {

/// A reference from a node to a mesh.
#[derive(Debug)]
pub struct MeshRef {
    /// The local transforms from the root down to the referring node,
    /// the root's first.
    pub chain: Vec<Mat4>,
    /// Index into the scene's meshes.
    pub mesh: u32,
}

/// A mesh reference as contracts see it.
pub struct MeshRefView {
    pub chain: Seq<Mat4>,
    pub mesh: u32,
}

impl View for MeshRef {
    type V = MeshRefView;

    open spec fn view(&self) -> MeshRefView {
        MeshRefView { chain: self.chain@, mesh: self.mesh }
    }
}

/// The views of a sequence of mesh references, in order.
pub open spec fn ref_views(refs: Seq<MeshRef>) -> Seq<MeshRefView> {
    refs.map_values(|r: MeshRef| r@)
}

/// The references that a node with the transform chain `chain` makes itself.
pub open spec fn own_refs(meshes: Seq<u32>, chain: Seq<Mat4>) -> Seq<MeshRefView> {
    meshes.map_values(|m: u32| MeshRefView { chain, mesh: m })
}

/// The references made in the subtree of `node`, in the order of the walk,
/// where `parents` are the transforms of the node's ancestors.
pub open spec fn node_refs(node: SceneNode, parents: Seq<Mat4>) -> Seq<MeshRefView>
    decreases node, node.children@.len() + 1,
{
    let chain = parents.push(node.transform);
    own_refs(node.meshes@, chain) + children_refs(node, chain, 0)
}

/// The references made in the subtrees of the children of `node` from place
/// `from` on, where `chain` ends with the node's own transform.
pub open spec fn children_refs(node: SceneNode, chain: Seq<Mat4>, from: nat) -> Seq<MeshRefView>
    decreases node, node.children@.len() - from,
{
    if from >= node.children@.len() {
        Seq::empty()
    } else {
        node_refs(node.children@[from as int], chain) + children_refs(node, chain, from + 1)
    }
}

/// Every reference names a mesh below `mesh_count`.
pub open spec fn refs_below(refs: Seq<MeshRefView>, mesh_count: nat) -> bool {
    forall|k: int| 0 <= k < refs.len() ==> (#[trigger] refs[k]).mesh < mesh_count
}

/// Two sequences of references below `mesh_count` join to one.
pub proof fn lemma_refs_below_joined(a: Seq<MeshRefView>, b: Seq<MeshRefView>, mesh_count: nat)
    requires
        refs_below(a, mesh_count),
        refs_below(b, mesh_count),
    ensures
        refs_below(a + b, mesh_count),
{
    assert forall|k: int| 0 <= k < (a + b).len() implies (#[trigger] (a + b)[k]).mesh
        < mesh_count by {
        if k < a.len() {
            assert((a + b)[k] == a[k]);
        } else {
            assert((a + b)[k] == b[k - a.len()]);
        }
    }
}

/// In a subtree whose mesh indices are all below `mesh_count`, so is the
/// mesh of every reference that the walk lists.
pub proof fn lemma_refs_resolve(node: SceneNode, parents: Seq<Mat4>, mesh_count: nat)
    requires
        node.resolves(mesh_count),
    ensures
        refs_below(node_refs(node, parents), mesh_count),
    decreases node, node.children@.len() + 1,
{
    let chain = parents.push(node.transform);
    let own = own_refs(node.meshes@, chain);
    lemma_children_resolve(node, chain, 0, mesh_count);
    assert forall|k: int| 0 <= k < own.len() implies (#[trigger] own[k]).mesh < mesh_count by {
        assert(own[k].mesh == node.meshes@[k]);
    }
    lemma_refs_below_joined(own, children_refs(node, chain, 0), mesh_count);
}

/// The same for the subtrees of the children of a node from place `from` on.
pub proof fn lemma_children_resolve(node: SceneNode, chain: Seq<Mat4>, from: nat, mesh_count: nat)
    requires
        node.resolves(mesh_count),
    ensures
        refs_below(children_refs(node, chain, from), mesh_count),
    decreases node, node.children@.len() - from,
{
    if from < node.children@.len() {
        let child = node.children@[from as int];
        assert(child.resolves(mesh_count));
        lemma_refs_resolve(child, chain, mesh_count);
        lemma_children_resolve(node, chain, from + 1, mesh_count);
        lemma_refs_below_joined(
            node_refs(child, chain),
            children_refs(node, chain, from + 1),
            mesh_count,
        );
    }
}

/// The number of nodes in the subtree of `node`.
pub open spec fn tree_size(node: SceneNode) -> nat
    decreases node, node.children@.len() + 1,
{
    1 + forest_size(node, 0)
}

/// The number of nodes in the subtrees of the children of `node` from place
/// `from` on.
pub open spec fn forest_size(node: SceneNode, from: nat) -> nat
    decreases node, node.children@.len() - from,
{
    if from >= node.children@.len() {
        0
    } else {
        tree_size(node.children@[from as int]) + forest_size(node, from + 1)
    }
}

/// A subtree that the walk has yet to enter.
pub struct Frame<'a> {
    /// The root of the subtree.
    pub node: &'a SceneNode,
    /// The local transforms of the ancestors of `node`, the root's first.
    pub parents: Vec<Mat4>,
}

/// A frame as contracts see it.
pub struct FrameView {
    pub node: SceneNode,
    pub parents: Seq<Mat4>,
}

impl<'a> View for Frame<'a> {
    type V = FrameView;

    open spec fn view(&self) -> FrameView {
        FrameView { node: *self.node, parents: self.parents@ }
    }
}

/// The views of a stack of frames, the bottom first.
pub open spec fn frame_views(stack: Seq<Frame>) -> Seq<FrameView> {
    stack.map_values(|f: Frame| f@)
}

/// The transforms from the root down to and including the root of a frame.
pub open spec fn chain_of(frame: FrameView) -> Seq<Mat4> {
    frame.parents.push(frame.node.transform)
}

/// The frames of the children of `node`, the last child first, so that on a
/// stack the first child lies on top.
pub open spec fn child_frames(node: SceneNode, chain: Seq<Mat4>) -> Seq<FrameView> {
    Seq::new(
        node.children@.len(),
        |k: int| FrameView { node: node.children@[node.children@.len() - 1 - k], parents: chain },
    )
}

/// The references that the walk has yet to list: those of the subtree on
/// top of the stack, then those of the one below it, and so on.
pub open spec fn pending_refs(stack: Seq<FrameView>) -> Seq<MeshRefView>
    decreases stack.len(),
{
    if stack.len() == 0 {
        Seq::empty()
    } else {
        node_refs(stack.last().node, stack.last().parents) + pending_refs(stack.drop_last())
    }
}

/// The number of nodes that the walk has yet to visit.
pub open spec fn pending_size(stack: Seq<FrameView>) -> nat
    decreases stack.len(),
{
    if stack.len() == 0 {
        0
    } else {
        tree_size(stack.last().node) + pending_size(stack.drop_last())
    }
}

/// With the last `count` children of a node stacked on `rest`, the first of
/// them on top, the walk has yet to list the references of those children
/// and then those of `rest`, and to visit the nodes of both.
pub proof fn lemma_children_stacked(
    rest: Seq<FrameView>,
    node: SceneNode,
    chain: Seq<Mat4>,
    count: nat,
)
    requires
        count <= node.children@.len(),
    ensures
        pending_refs(rest + child_frames(node, chain).take(count as int)) == children_refs(
            node,
            chain,
            (node.children@.len() - count) as nat,
        ) + pending_refs(rest),
        pending_size(rest + child_frames(node, chain).take(count as int)) == forest_size(
            node,
            (node.children@.len() - count) as nat,
        ) + pending_size(rest),
    decreases count,
{
    let frames = child_frames(node, chain);
    let stack = rest + frames.take(count as int);
    let from = (node.children@.len() - count) as nat;
    if count == 0 {
        assert(stack =~= rest);
        assert(children_refs(node, chain, from) + pending_refs(rest) =~= pending_refs(rest));
    } else {
        lemma_children_stacked(rest, node, chain, (count - 1) as nat);
        assert(stack.drop_last() =~= rest + frames.take(count - 1));
        assert(stack.last() == frames[count - 1]);
        assert(frames[count - 1].node == node.children@[from as int]);
        assert(pending_refs(stack) =~= children_refs(node, chain, from) + pending_refs(rest));
    }
}

/// Visiting the node on top of the stack lists the references that the node
/// makes itself and leaves the rest of what the walk had to list; one node
/// fewer is left to visit.
pub proof fn lemma_visit(stack: Seq<FrameView>)
    requires
        stack.len() > 0,
    ensures
        own_refs(stack.last().node.meshes@, chain_of(stack.last())) + pending_refs(
            stack.drop_last() + child_frames(stack.last().node, chain_of(stack.last())),
        ) == pending_refs(stack),
        pending_size(
            stack.drop_last() + child_frames(stack.last().node, chain_of(stack.last())),
        ) + 1 == pending_size(stack),
{
    let top = stack.last();
    let chain = chain_of(top);
    let frames = child_frames(top.node, chain);
    lemma_children_stacked(stack.drop_last(), top.node, chain, top.node.children@.len());
    assert(frames.take(top.node.children@.len() as int) =~= frames);
    assert(own_refs(top.node.meshes@, chain) + pending_refs(stack.drop_last() + frames)
        =~= pending_refs(stack));
}

/// A copy of `chain`.
pub fn copy_chain(chain: &Vec<Mat4>) -> (copy: Vec<Mat4>)
    ensures
        copy@ == chain@,
{
    let mut copy: Vec<Mat4> = Vec::new();
    let mut i: usize = 0;
    while i < chain.len()
        invariant
            i <= chain@.len(),
            copy@ == chain@.take(i as int),
        decreases chain@.len() - i,
    {
        copy.push(chain[i]);
        assert(copy@ =~= chain@.take(i + 1));
        i = i + 1;
    }
    assert(chain@.take(i as int) =~= chain@);
    copy
}

/// Visits one node: takes the subtree on top of the stack, appends to `out`
/// the references that its root makes, and puts the subtrees of the root's
/// children on the stack, the first child on top. On an empty stack there is
/// nothing to visit.
pub fn process_node<'a>(stack: &mut Vec<Frame<'a>>, out: &mut Vec<MeshRef>)
    ensures
        old(stack)@.len() > 0 ==> ref_views(final(out)@) == ref_views(old(out)@) + own_refs(
            old(stack)@.last().node.meshes@,
            chain_of(old(stack)@.last()@),
        ),
        old(stack)@.len() > 0 ==> frame_views(final(stack)@) == frame_views(
            old(stack)@,
        ).drop_last() + child_frames(*old(stack)@.last().node, chain_of(old(stack)@.last()@)),
        old(stack)@.len() == 0 ==> final(stack)@.len() == 0 && final(out)@ == old(out)@,
{
    let ghost start = ref_views(out@);
    let frame = match stack.pop() {
        Some(frame) => frame,
        None => {
            return ;
        },
    };
    let ghost rest = frame_views(stack@);
    assert(rest =~= frame_views(old(stack)@).drop_last());
    let node = frame.node;
    let mut chain = frame.parents;
    chain.push(node.transform);
    let mut i: usize = 0;
    assert(ref_views(out@) =~= start + own_refs(node.meshes@.take(0), chain@));
    while i < node.meshes.len()
        invariant
            i <= node.meshes@.len(),
            ref_views(out@) == start + own_refs(node.meshes@.take(i as int), chain@),
        decreases node.meshes@.len() - i,
    {
        let ghost before = ref_views(out@);
        let r = MeshRef { chain: copy_chain(&chain), mesh: node.meshes[i] };
        out.push(r);
        proof {
            assert(ref_views(out@) =~= before.push(r@));
            assert(own_refs(node.meshes@.take(i + 1), chain@) =~= own_refs(
                node.meshes@.take(i as int),
                chain@,
            ).push(r@));
        }
        i = i + 1;
    }
    assert(node.meshes@.take(i as int) =~= node.meshes@);
    let ghost frames = child_frames(*node, chain@);
    let mut j: usize = node.children.len();
    assert(frame_views(stack@) =~= rest + frames.take(0));
    while j > 0
        invariant
            j <= node.children@.len(),
            frames == child_frames(*node, chain@),
            frame_views(stack@) == rest + frames.take(node.children@.len() - j),
        decreases j,
    {
        j = j - 1;
        let ghost below = frame_views(stack@);
        let child = Frame { node: &node.children[j], parents: copy_chain(&chain) };
        stack.push(child);
        proof {
            assert(frame_views(stack@) =~= below.push(child@));
            assert(child@ == frames[node.children@.len() - 1 - j]);
            assert(frame_views(stack@) =~= rest + frames.take(node.children@.len() - j));
        }
    }
    assert(frames.take(node.children@.len() as int) =~= frames);
}

/// The references made in the whole graph below `root`, in the order of
/// the walk.
pub fn flatten(root: &SceneNode) -> (plan: Vec<MeshRef>)
    ensures
        ref_views(plan@) == node_refs(*root, Seq::empty()),
{
    let mut plan: Vec<MeshRef> = Vec::new();
    let mut stack: Vec<Frame> = Vec::new();
    stack.push(Frame { node: root, parents: Vec::new() });
    proof {
        let views = frame_views(stack@);
        assert(views.len() == 1);
        assert(views.last() == (FrameView { node: *root, parents: Seq::empty() }));
        assert(pending_refs(views.drop_last()) =~= Seq::<MeshRefView>::empty());
        assert(ref_views(plan@) + pending_refs(views) =~= node_refs(*root, Seq::empty()));
    }
    while stack.len() > 0
        invariant
            ref_views(plan@) + pending_refs(frame_views(stack@)) == node_refs(*root, Seq::empty()),
        decreases pending_size(frame_views(stack@)),
    {
        let ghost listed = ref_views(plan@);
        let ghost waiting = frame_views(stack@);
        process_node(&mut stack, &mut plan);
        proof {
            lemma_visit(waiting);
            assert(ref_views(plan@) + pending_refs(frame_views(stack@)) =~= listed + pending_refs(
                waiting,
            ));
        }
    }
    assert(ref_views(plan@) =~= ref_views(plan@) + pending_refs(frame_views(stack@)));
    plan
}

/// The vertex at place `i` of a mesh: its position, its normal where the
/// mesh has normals, its texture coordinate where the mesh has any; what is
/// absent is zero.
pub open spec fn vertex_at(mesh: SceneMesh, i: int) -> Vertex {
    Vertex {
        position: mesh.positions@[i],
        normal: if mesh.normals@.len() == 0 {
            Vec3::zero_spec()
        } else {
            mesh.normals@[i]
        },
        tex_coords: match mesh.tex_coords {
            Some(uv) => uv@[i],
            None => Vec2::zero_spec(),
        },
    }
}

/// The vertices of a mesh, one per position.
pub open spec fn assembled_vertices(mesh: SceneMesh) -> Seq<Vertex> {
    Seq::new(mesh.positions@.len(), |i: int| vertex_at(mesh, i))
}

/// The corners of all faces, face after face.
pub open spec fn flattened_faces(faces: Seq<Vec<u32>>) -> Seq<u32>
    decreases faces.len(),
{
    if faces.len() == 0 {
        Seq::empty()
    } else {
        flattened_faces(faces.drop_last()) + faces.last()@
    }
}

/// Where every face is a triangle, the index list holds three entries per
/// face, and the corners of face `f` stand at `3 * f`, `3 * f + 1` and
/// `3 * f + 2`.
pub proof fn lemma_triangle_list(faces: Seq<Vec<u32>>)
    requires
        forall|f: int| 0 <= f < faces.len() ==> (#[trigger] faces[f])@.len() == 3,
    ensures
        flattened_faces(faces).len() == 3 * faces.len(),
        forall|f: int, c: int|
            0 <= f < faces.len() && 0 <= c < 3 ==> flattened_faces(faces)[3 * f + c]
                == #[trigger] faces[f]@[c],
    decreases faces.len(),
{
    if faces.len() > 0 {
        let front = faces.drop_last();
        assert forall|f: int| 0 <= f < front.len() implies (#[trigger] front[f])@.len() == 3 by {
            assert(front[f] == faces[f]);
        }
        lemma_triangle_list(front);
        assert forall|f: int, c: int| 0 <= f < faces.len() && 0 <= c < 3 implies flattened_faces(
            faces,
        )[3 * f + c] == #[trigger] faces[f]@[c] by {
            if f < front.len() {
                assert(front[f] == faces[f]);
            }
        }
    }
}

/// Builds the vertices of a mesh.
pub fn assemble_vertices(mesh: &SceneMesh) -> (vertices: Vec<Vertex>)
    requires
        mesh.consistent(),
    ensures
        vertices@ == assembled_vertices(*mesh),
{
    let mut vertices: Vec<Vertex> = Vec::new();
    let mut i: usize = 0;
    while i < mesh.positions.len()
        invariant
            i <= mesh.positions@.len(),
            mesh.consistent(),
            vertices@.len() == i,
            forall|k: int| 0 <= k < i ==> vertices@[k] == vertex_at(*mesh, k),
        decreases mesh.positions@.len() - i,
    {
        let normal = if mesh.normals.len() == 0 {
            Vec3::zero()
        } else {
            mesh.normals[i]
        };
        let tex_coords = match &mesh.tex_coords {
            Some(uv) => uv[i],
            None => Vec2::zero(),
        };
        vertices.push(Vertex::new(mesh.positions[i], normal, tex_coords));
        i = i + 1;
    }
    assert(vertices@ =~= assembled_vertices(*mesh));
    vertices
}

/// Builds the index list of a mesh from its faces.
pub fn flatten_faces(faces: &Vec<Vec<u32>>) -> (indices: Vec<u32>)
    ensures
        indices@ == flattened_faces(faces@),
{
    let mut indices: Vec<u32> = Vec::new();
    let mut i: usize = 0;
    assert(faces@.take(0) =~= Seq::<Vec<u32>>::empty());
    while i < faces.len()
        invariant
            i <= faces@.len(),
            indices@ == flattened_faces(faces@.take(i as int)),
        decreases faces@.len() - i,
    {
        let face = &faces[i];
        let ghost done = indices@;
        let mut j: usize = 0;
        while j < face.len()
            invariant
                j <= face@.len(),
                indices@ == done + face@.take(j as int),
            decreases face@.len() - j,
        {
            indices.push(face[j]);
            assert(indices@ =~= done + face@.take(j + 1));
            j = j + 1;
        }
        proof {
            assert(face@.take(j as int) =~= face@);
            let now = faces@.take(i + 1);
            assert(now.drop_last() =~= faces@.take(i as int));
            assert(now.last() == faces@[i as int]);
        }
        i = i + 1;
    }
    assert(faces@.take(i as int) =~= faces@);
    indices
}

/// The mesh entity that a mesh of the scene becomes.
pub open spec fn built_mesh(
    mesh: SceneMesh,
    material: SceneMaterial,
    id: u64,
    textures: Seq<crate::mesh::TextureView>,
    pose: Pose,
) -> MeshView {
    MeshView {
        id,
        name: mesh.name@,
        pose,
        vertices: assembled_vertices(mesh),
        indices: flattened_faces(mesh.faces@),
        textures,
        material: resolved_material(material.properties@),
    }
}

/// Builds the entity for `mesh`: its geometry, the material resolved from
/// `material`, and the textures and pose it is given. Also returns what the
/// material's property bag gives to report.
pub fn process_mesh(
    mesh: &SceneMesh,
    material: &SceneMaterial,
    id: u64,
    textures: Vec<Texture>,
    pose: Pose,
) -> (out: (Mesh, Vec<ImportWarning>))
    requires
        mesh.consistent(),
    ensures
        out.0@ == built_mesh(*mesh, *material, id, texture_views(textures@), pose),
        warning_views(out.1@) == mismatch_warnings(material.properties@),
{
    let vertices = assemble_vertices(mesh);
    let indices = flatten_faces(&mesh.faces);
    let (resolved, warnings) = process_material(&material.properties);
    let entity = Mesh::new(id, mesh.name.as_str(), vertices, indices, textures, resolved, pose);
    (entity, warnings)
}

} // verus!
