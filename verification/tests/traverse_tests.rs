use rust_gl::log::LogLevel;
use rust_gl::mesh::{Pose, Texture, TextureKind};
use rust_gl::scalar::{Mat4, Scalar, Vec2, Vec3};
use rust_gl::scene::{MaterialProperty, PropertyValue, SceneMaterial, SceneMesh, SceneNode};
use rust_gl::traverse::{
    assemble_vertices, copy_chain, flatten, flatten_faces, process_mesh, process_node, Frame, MeshRef,
};

fn s(x: f32) -> Scalar {
    Scalar::from_bits(x.to_bits())
}

fn v3(x: f32, y: f32, z: f32) -> Vec3 {
    Vec3 { x: s(x), y: s(y), z: s(z) }
}

fn tagged(tag: f32) -> Mat4 {
    let o = s(0.0);
    Mat4 {
        a1: s(tag), a2: o, a3: o, a4: o,
        b1: o, b2: o, b3: o, b4: o,
        c1: o, c2: o, c3: o, c4: o,
        d1: o, d2: o, d3: o, d4: s(1.0),
    }
}

fn node(tag: f32, meshes: Vec<u32>, children: Vec<SceneNode>) -> SceneNode {
    SceneNode { name: format!("n{}", tag), transform: tagged(tag), meshes, children }
}

fn summary(plan: &[MeshRef]) -> Vec<(Vec<f32>, u32)> {
    plan.iter()
        .map(|r| (r.chain.iter().map(|m| f32::from_bits(m.a1.bits)).collect(), r.mesh))
        .collect()
}

#[test]
fn the_walk_visits_a_node_before_its_children_and_children_in_order() {
    let tree = node(
        1.0,
        vec![5],
        vec![
            node(2.0, vec![], vec![node(3.0, vec![6, 7], vec![])]),
            node(4.0, vec![8], vec![node(5.0, vec![], vec![]), node(6.0, vec![9], vec![])]),
        ],
    );
    assert_eq!(
        summary(&flatten(&tree)),
        vec![
            (vec![1.0], 5),
            (vec![1.0, 2.0, 3.0], 6),
            (vec![1.0, 2.0, 3.0], 7),
            (vec![1.0, 4.0], 8),
            (vec![1.0, 4.0, 6.0], 9),
        ]
    );
}

#[test]
fn visiting_a_node_lists_its_meshes_and_stacks_its_children() {
    let other = node(7.0, vec![4], vec![]);
    let subtree = node(3.0, vec![1, 2], vec![node(4.0, vec![3], vec![]), node(5.0, vec![], vec![])]);
    let mut out = vec![MeshRef { chain: vec![tagged(9.0)], mesh: 0 }];
    let mut stack = vec![
        Frame { node: &other, parents: vec![] },
        Frame { node: &subtree, parents: vec![tagged(1.0), tagged(2.0)] },
    ];
    process_node(&mut stack, &mut out);
    assert_eq!(
        summary(&out),
        vec![(vec![9.0], 0), (vec![1.0, 2.0, 3.0], 1), (vec![1.0, 2.0, 3.0], 2)]
    );
    let waiting: Vec<(&str, Vec<f32>)> = stack
        .iter()
        .map(|f| (f.node.name.as_str(), f.parents.iter().map(|m| f32::from_bits(m.a1.bits)).collect()))
        .collect();
    assert_eq!(
        waiting,
        vec![("n7", vec![]), ("n5", vec![1.0, 2.0, 3.0]), ("n4", vec![1.0, 2.0, 3.0])]
    );
    process_node(&mut stack, &mut out);
    assert_eq!(out.len(), 4);
    assert_eq!(summary(&out)[3], (vec![1.0, 2.0, 3.0, 4.0], 3));
    assert_eq!(stack.len(), 2);
}

#[test]
fn on_an_empty_stack_there_is_nothing_to_visit() {
    let mut out = vec![MeshRef { chain: vec![], mesh: 3 }];
    let mut stack: Vec<Frame> = vec![];
    process_node(&mut stack, &mut out);
    assert!(stack.is_empty());
    assert_eq!(summary(&out), vec![(vec![], 3)]);
}

#[test]
fn a_deep_chain_of_nodes_is_walked_without_recursion() {
    let mut tree = node(0.0, vec![0], vec![]);
    for depth in 1..2000 {
        tree = node(depth as f32, vec![depth], vec![tree]);
    }
    let plan = flatten(&tree);
    assert_eq!(plan.len(), 2000);
    assert_eq!(plan[0].mesh, 1999);
    assert_eq!(plan[0].chain.len(), 1);
    assert_eq!(plan[1999].mesh, 0);
    assert_eq!(plan[1999].chain.len(), 2000);
    let mut tree = tree;
    while let Some(child) = tree.children.pop() {
        tree = child;
    }
}

#[test]
fn a_tree_without_meshes_gives_an_empty_plan() {
    let tree = node(1.0, vec![], vec![node(2.0, vec![], vec![])]);
    assert!(flatten(&tree).is_empty());
}

#[test]
fn a_chain_is_copied_entry_by_entry() {
    let chain = vec![tagged(1.0), tagged(2.0), tagged(3.0)];
    assert_eq!(copy_chain(&chain), chain);
    assert_eq!(copy_chain(&vec![]), vec![]);
}

#[test]
fn faces_are_laid_end_to_end() {
    assert_eq!(flatten_faces(&vec![]), Vec::<u32>::new());
    assert_eq!(flatten_faces(&vec![vec![0, 1, 2], vec![2, 1, 3]]), vec![0, 1, 2, 2, 1, 3]);
    assert_eq!(flatten_faces(&vec![vec![4], vec![], vec![5, 6], vec![7, 8, 9, 10]]), vec![4, 5, 6, 7, 8, 9, 10]);
}

#[test]
fn absent_attributes_are_zero() {
    let mesh = SceneMesh {
        name: "m".to_string(),
        positions: vec![v3(1.0, 2.0, 3.0), v3(4.0, 5.0, 6.0)],
        normals: vec![],
        tex_coords: Some(vec![Vec2 { x: s(0.25), y: s(0.75) }, Vec2 { x: s(0.5), y: s(0.5) }, Vec2 { x: s(9.0), y: s(9.0) }]),
        faces: vec![],
        material_index: 0,
    };
    let vertices = assemble_vertices(&mesh);
    assert_eq!(vertices.len(), 2);
    assert_eq!(vertices[0].position, v3(1.0, 2.0, 3.0));
    assert_eq!(vertices[0].normal, v3(0.0, 0.0, 0.0));
    assert_eq!(vertices[0].tex_coords, Vec2 { x: s(0.25), y: s(0.75) });
    assert_eq!(vertices[1].tex_coords, Vec2 { x: s(0.5), y: s(0.5) });
    let with_normals = SceneMesh {
        name: "n".to_string(),
        positions: vec![v3(1.0, 2.0, 3.0)],
        normals: vec![v3(0.0, 1.0, 0.0)],
        tex_coords: None,
        faces: vec![],
        material_index: 0,
    };
    let vertices = assemble_vertices(&with_normals);
    assert_eq!(vertices[0].normal, v3(0.0, 1.0, 0.0));
    assert_eq!(vertices[0].tex_coords, Vec2 { x: s(0.0), y: s(0.0) });
}

#[test]
fn a_mesh_is_built_from_its_parts() {
    let mesh = SceneMesh {
        name: "blade".to_string(),
        positions: vec![v3(0.0, 0.0, 0.0), v3(1.0, 0.0, 0.0), v3(0.0, 1.0, 0.0)],
        normals: vec![],
        tex_coords: None,
        faces: vec![vec![0, 1, 2]],
        material_index: 0,
    };
    let material = SceneMaterial {
        properties: vec![
            MaterialProperty { key: "?mat.name".to_string(), data: PropertyValue::Text("steel".to_string()) },
            MaterialProperty { key: "$mat.shininess".to_string(), data: PropertyValue::Text("very".to_string()) },
        ],
        textures: vec![],
    };
    let pose = Pose { position: v3(1.0, 2.0, 3.0), rotation: v3(10.0, 20.0, 30.0), scale: v3(2.0, 2.0, 2.0) };
    let textures = vec![Texture::new(4, TextureKind::Diffuse, "t.png".to_string())];
    let (entity, warnings) = process_mesh(&mesh, &material, 77, textures, pose);
    assert_eq!(entity.id, 77);
    assert_eq!(entity.name, "blade");
    assert_eq!(entity.position, pose.position);
    assert_eq!(entity.rotation, pose.rotation);
    assert_eq!(entity.scale, pose.scale);
    assert_eq!(entity.vertices.len(), 3);
    assert_eq!(entity.indices, vec![0, 1, 2]);
    assert_eq!(entity.textures.len(), 1);
    assert_eq!(entity.textures[0].id, 4);
    assert_eq!(entity.material.name, "steel");
    assert_eq!(entity.material.shininess, s(32.0));
    assert_eq!(warnings.len(), 1);
    assert_eq!(warnings[0].severity, LogLevel::Warning);
    assert_eq!(warnings[0].message, "Property should not be this type: $mat.shininess");
}
