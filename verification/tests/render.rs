use quaso::fixed::{Fx, FX_SCALE};
use quaso::math::{identity_transform, mat_identity, Transform, Vec2, Vec3};
use quaso::render::{GltfRenderablesOptions, GltfSceneError};
use quaso::scene::{
    AssetHandle, GltfAssetDatabase, GltfBlending, GltfJointIndices, GltfJointWeights, GltfMesh,
    GltfNode, GltfNodeId, GltfPrimitive, GltfSceneTemplate, GltfSkeletonBone, GltfSkin,
    GltfTriangle, GltfVertex, Rgba,
};

fn fx(units: i64) -> Fx {
    Fx { raw: units * FX_SCALE }
}

fn v3(x: i64, y: i64, z: i64) -> Vec3 {
    Vec3 { x: fx(x), y: fx(y), z: fx(z) }
}

fn vertex(position: Vec3, skinned: bool) -> GltfVertex {
    GltfVertex {
        position,
        uv: Vec2 { x: fx(0), y: fx(0) },
        color: Rgba { r: fx(1), g: fx(1), b: fx(1), a: fx(1) },
        joints: if skinned {
            Some(GltfJointIndices { a: 0, b: 0, c: 0, d: 0 })
        } else {
            None
        },
        weights: if skinned {
            Some(GltfJointWeights { a: fx(1), b: fx(0), c: fx(0), d: fx(0) })
        } else {
            None
        },
    }
}

/// One node translated by (3, 0, 0) bearing a one-bone skin (the node
/// itself, identity inverse-bind) and a two-vertex mesh.
fn skinned_scene() -> (GltfSceneTemplate, GltfAssetDatabase) {
    let container = AssetHandle(50);
    let node_id = GltfNodeId { container_handle: container, node_index: 0 };
    let mesh_handle = AssetHandle(51);
    let skin_handle = AssetHandle(52);
    let template = GltfSceneTemplate {
        name: "scene".to_owned(),
        container_handle: container,
        root_nodes: vec![GltfNode {
            id: node_id,
            name: "root".to_owned(),
            transform: Transform { position: v3(3, 0, 0), ..identity_transform() },
            mesh_handle: Some(mesh_handle),
            skin_handle: Some(skin_handle),
            children: vec![],
        }],
    };
    let mut db = GltfAssetDatabase::new();
    db.skins.push((
        skin_handle,
        GltfSkin {
            inverse_bind_matrices: vec![mat_identity()],
            bones: vec![GltfSkeletonBone { id: node_id, ibm_index: 0 }],
        },
    ));
    db.meshes.push((
        mesh_handle,
        GltfMesh {
            primitives: vec![GltfPrimitive {
                main_texture: Some(9),
                blending: GltfBlending::Alpha,
                triangles: vec![
                    GltfTriangle { a: 0, b: 1, c: 1 },
                    GltfTriangle { a: 1, b: 0, c: 0 },
                ],
                vertices: vec![vertex(v3(1, 2, 5), true), vertex(v3(1, 2, 5), false)],
            }],
        },
    ));
    (template, db)
}

#[test]
fn test_skinned_vertex_uses_bone_matrices_only() {
    let (template, db) = skinned_scene();
    let mut instance = template.instantiate(identity_transform(), &db);
    let options = GltfRenderablesOptions::default();
    let out = instance.build_renderables(&db, &options).unwrap();
    assert_eq!(out.renderables.len(), 1);
    let rend = &out.renderables[0];
    assert_eq!(rend.main_texture, Some(9));
    assert_eq!(rend.blending, GltfBlending::Alpha);
    assert_eq!(rend.vertices.len(), 2);
    // The bone's final matrix is the node's global (translate by 3)
    // times the identity inverse-bind: the skinned vertex lands at
    // (4, 2) and is not pushed through the node's global again.
    assert_eq!(rend.vertices[0].position, Vec2 { x: fx(4), y: fx(2) });
    // The unskinned vertex goes through the node's global directly.
    assert_eq!(rend.vertices[1].position, Vec2 { x: fx(4), y: fx(2) });
    // Without a re-sort the triangle order is the authored one.
    assert_eq!(rend.triangles[0], GltfTriangle { a: 0, b: 1, c: 1 });
    assert_eq!(rend.triangles[1], GltfTriangle { a: 1, b: 0, c: 0 });
}

#[test]
fn test_missing_assets_are_reported() {
    let (template, full_db) = skinned_scene();
    let instance_db = full_db.clone();
    let options = GltfRenderablesOptions::default();

    let mut no_skins = full_db.clone();
    no_skins.skins.clear();
    let mut instance = template.instantiate(identity_transform(), &instance_db);
    match instance.build_renderables(&no_skins, &options) {
        Err(GltfSceneError::SkinAssetNotFound(h)) => assert_eq!(h, AssetHandle(52)),
        other => panic!("expected a missing skin, got {:?}", other.is_ok()),
    }

    let mut no_meshes = full_db.clone();
    no_meshes.meshes.clear();
    let mut instance = template.instantiate(identity_transform(), &instance_db);
    match instance.build_renderables(&no_meshes, &options) {
        Err(GltfSceneError::MeshAssetNotFound(h)) => assert_eq!(h, AssetHandle(51)),
        other => panic!("expected a missing mesh, got {:?}", other.is_ok()),
    }
}
