use quaso::blend::{
    GltfAnimationBlendSpace, GltfAnimationBlendSpacePoint, GltfAnimationBlender,
    GltfAnimationMixer, GltfAnimationMixerLayer, GltfAnimationMixerLayerWeight, GltfAnimationNode,
    GltfAnimationTarget, GltfAnimationTransition, GltfAnimationTransitionLayer,
};
use quaso::fixed::{Fx, FX_SCALE};
use quaso::math::{identity_transform, quat_identity, Quat, Transform, Vec3};
use quaso::playback::{GltfAnimationParameter, GltfSceneAnimation};
use quaso::scene::{
    AssetHandle, GltfAnimation, GltfAnimationChannel, GltfAnimationValues, GltfAssetDatabase,
    GltfInterpolation, GltfNode, GltfNodeId, GltfSceneTemplate,
};

fn fx(units: i64) -> Fx {
    Fx { raw: units * FX_SCALE }
}

fn fx_frac(raw: i64) -> Fx {
    Fx { raw }
}

fn v3(x: i64, y: i64, z: i64) -> Vec3 {
    Vec3 { x: fx(x), y: fx(y), z: fx(z) }
}

fn one_node_template(container: u64) -> GltfSceneTemplate {
    GltfSceneTemplate {
        name: "scene".to_owned(),
        container_handle: AssetHandle(container),
        root_nodes: vec![GltfNode {
            id: GltfNodeId { container_handle: AssetHandle(container), node_index: 0 },
            name: "root".to_owned(),
            transform: identity_transform(),
            mesh_handle: None,
            skin_handle: None,
            children: vec![],
        }],
    }
}

fn translation_clip(target: GltfNodeId, to: Vec3) -> GltfAnimation {
    GltfAnimation {
        channels: vec![GltfAnimationChannel {
            target_node: target,
            times: vec![fx(0), fx(1)],
            duration: fx(1),
            values: GltfAnimationValues::Translation(vec![to, to]),
            interpolation: GltfInterpolation::Linear,
        }],
        duration: fx(1),
    }
}

#[test]
fn test_mixer_weight_map() {
    let mixer = GltfAnimationNode::Mixer(GltfAnimationMixer {
        layers: vec![
            GltfAnimationMixerLayer::new(
                GltfAnimationMixerLayerWeight::fixed(fx_frac(300_000)),
                GltfAnimationNode::Target(GltfAnimationTarget::new("clipA".to_owned())),
            ),
            GltfAnimationMixerLayer::new(
                GltfAnimationMixerLayerWeight::fixed(fx_frac(700_000)),
                GltfAnimationNode::Target(GltfAnimationTarget::new("clipB".to_owned())),
            ),
        ],
    });
    let params: Vec<(String, GltfAnimationParameter)> = vec![];
    let mut blender = GltfAnimationBlender::new();
    mixer.produce_weights(&params, fx(1), &mut blender);
    assert_eq!(blender.animation_weights.len(), 2);
    assert_eq!(blender.animation_weights[0].0, "clipA");
    assert_eq!(blender.animation_weights[0].1, fx_frac(300_000));
    assert_eq!(blender.animation_weights[1].0, "clipB");
    assert_eq!(blender.animation_weights[1].1, fx_frac(700_000));
}

#[test]
fn test_blend_space_one_hot_and_sum() {
    let space = GltfAnimationBlendSpace {
        parameters: vec!["speed".to_owned()],
        points: vec![
            GltfAnimationBlendSpacePoint::new(
                vec![fx(0)],
                GltfAnimationNode::Target(GltfAnimationTarget::new("idle".to_owned())),
            ),
            GltfAnimationBlendSpacePoint::new(
                vec![fx(1)],
                GltfAnimationNode::Target(GltfAnimationTarget::new("run".to_owned())),
            ),
        ],
    };
    // Exact hit: the parameter sits on the first point.
    let params = vec![("speed".to_owned(), GltfAnimationParameter::new(fx(0)))];
    let ws = space.point_weights(&params);
    assert_eq!(ws, vec![fx(1), fx(0)]);
    // Between the points: non-negative weights that sum to (almost) one.
    let params = vec![("speed".to_owned(), GltfAnimationParameter::new(fx_frac(250_000)))];
    let ws = space.point_weights(&params);
    assert_eq!(ws.len(), 2);
    let sum: i64 = ws.iter().map(|w| w.raw).sum();
    assert!(ws.iter().all(|w| w.raw >= 0));
    assert!(sum > FX_SCALE - 4 && sum <= FX_SCALE);
    assert!(ws[0].raw > ws[1].raw);
}

#[test]
fn test_transition_reaches_one_in_ten_frames() {
    let mut node = GltfAnimationNode::Transition(GltfAnimationTransition {
        layers: vec![GltfAnimationTransitionLayer {
            name: "walk".to_owned(),
            node: GltfAnimationNode::Target(GltfAnimationTarget::new("walk".to_owned())),
            current_weight: fx(0),
        }],
        active_layers: vec!["walk".to_owned()],
        default_layer: "walk".to_owned(),
        change_speed: fx(1),
    });
    let dt = fx_frac(100_000);
    let mut previous = 0i64;
    for frame in 0..10 {
        node = node.update(dt);
        let w = match &node {
            GltfAnimationNode::Transition(t) => t.layers[0].current_weight.raw,
            _ => unreachable!(),
        };
        assert!(w >= previous, "weight must climb monotonically");
        assert!(w >= 0 && w <= FX_SCALE);
        if frame < 9 {
            assert!(w < FX_SCALE);
        }
        previous = w;
    }
    assert_eq!(previous, FX_SCALE);
}

#[test]
fn test_looped_time_wraps_and_nonlooped_stops() {
    let container = AssetHandle(7);
    let clip = AssetHandle(8);
    let template = one_node_template(7);
    let mut db = GltfAssetDatabase::new();
    let target = GltfNodeId { container_handle: container, node_index: 0 };
    db.animations.push((clip, translation_clip(target, v3(1, 0, 0))));
    let mut instance = template.instantiate(identity_transform(), &db);
    instance.add_animation(
        "looping",
        GltfSceneAnimation::new(clip).looped(true).playing(true).time(fx_frac(900_000)),
    );
    instance.add_animation(
        "stopping",
        GltfSceneAnimation::new(clip).playing(true).time(fx_frac(900_000)),
    );
    instance.update_animations(fx_frac(300_000), &db);
    let looping = instance.animation("looping").unwrap();
    assert_eq!(looping.time, fx_frac(200_000));
    assert!(looping.playing);
    let stopping = instance.animation("stopping").unwrap();
    assert_eq!(stopping.time, fx(1));
    assert!(!stopping.playing);
}

#[test]
fn test_two_instances_are_independent() {
    let template = one_node_template(3);
    let db = GltfAssetDatabase::new();
    let mut first = template.instantiate(identity_transform(), &db);
    let second = template.instantiate(identity_transform(), &db);
    let moved = Transform { position: v3(5, 0, 0), ..identity_transform() };
    first.nodes[0].state.transform = moved;
    first.recompute_matrices();
    assert_eq!(first.nodes[0].state.transform.position, v3(5, 0, 0));
    assert_eq!(second.nodes[0].state.transform.position, v3(0, 0, 0));
    // The moved instance's global matrix reflects the new position; the
    // untouched one keeps the identity translation.
    assert_eq!(first.nodes[0].state.global_matrix.m03, fx(5));
    assert_eq!(second.nodes[0].state.global_matrix.m03, fx(0));
}

#[test]
fn test_opposed_half_weight_translations_cancel() {
    let container = AssetHandle(11);
    let template = one_node_template(11);
    let target = GltfNodeId { container_handle: container, node_index: 0 };
    let mut db = GltfAssetDatabase::new();
    let clip_right = AssetHandle(21);
    let clip_left = AssetHandle(22);
    db.animations.push((clip_right, translation_clip(target, v3(1, 0, 0))));
    db.animations.push((clip_left, translation_clip(target, v3(-1, 0, 0))));
    let mut instance = template.instantiate(identity_transform(), &db);
    instance.add_animation(
        "right",
        GltfSceneAnimation::new(clip_right).playing(true).weight(fx_frac(500_000)),
    );
    instance.add_animation(
        "left",
        GltfSceneAnimation::new(clip_left).playing(true).weight(fx_frac(500_000)),
    );
    instance.apply_animations(&db);
    // Two opposite deltas at equal weight average to zero: the node
    // stays at its bind position.
    assert_eq!(instance.nodes[0].state.transform.position, v3(0, 0, 0));
}

#[test]
fn test_linear_sampling_between_keyframes() {
    let container = AssetHandle(31);
    let template = one_node_template(31);
    let target = GltfNodeId { container_handle: container, node_index: 0 };
    let mut db = GltfAssetDatabase::new();
    let clip = AssetHandle(41);
    db.animations.push((
        clip,
        GltfAnimation {
            channels: vec![GltfAnimationChannel {
                target_node: target,
                times: vec![fx(0), fx(1)],
                duration: fx(1),
                values: GltfAnimationValues::Translation(vec![v3(0, 0, 0), v3(2, 0, 0)]),
                interpolation: GltfInterpolation::Linear,
            }],
            duration: fx(1),
        },
    ));
    let mut instance = template.instantiate(identity_transform(), &db);
    instance.add_animation(
        "slide",
        GltfSceneAnimation::new(clip).playing(true).time(fx_frac(500_000)),
    );
    instance.apply_animations(&db);
    assert_eq!(instance.nodes[0].state.transform.position, v3(1, 0, 0));
}

#[test]
fn test_rotation_blend_sign_flip_and_self_blend() {
    let a = quat_identity();
    let b = Quat { x: fx_frac(600_000), y: fx(0), z: fx(0), w: fx_frac(800_000) };
    let flipped_b = Quat { x: fx_frac(-600_000), y: fx(0), z: fx(0), w: fx_frac(-800_000) };
    let t = fx_frac(250_000);
    let blended = quaso::math::shortest_slerp(a, b, t);
    let blended_flip = quaso::math::shortest_slerp(a, flipped_b, t);
    // Flipping the second operand's sign leaves the blend unchanged.
    assert_eq!(blended, blended_flip);
    // Blending a rotation with itself returns that rotation, normalized.
    let unit = Quat { x: fx(1), y: fx(0), z: fx(0), w: fx(0) };
    for factor in [fx(0), fx_frac(300_000), fx(1)] {
        let self_blend = quaso::math::shortest_slerp(unit, unit, factor);
        assert_eq!(self_blend, unit);
        assert_eq!(quaso::math::shortest_slerp(b, b, factor), b);
    }
}
