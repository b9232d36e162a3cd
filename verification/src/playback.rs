//! Playback state of live animations.
//!
//! A live animation wraps a clip handle with mutable time, weight and
//! playback flags, an optional filter restricting which nodes it may
//! drive, and per-node weight overrides.

use crate::fixed::{fx_add, fx_add_spec, fx_div, fx_div_spec, fx_mul, fx_mul_spec, fx_rem_trunc,
    fx_rem_trunc_spec, fx_sub, fx_sub_spec, Fx};
use crate::math::{quat_inverse, quat_inverse_spec, quat_mul, quat_mul_spec, shortest_slerp,
    shortest_slerp_spec, vec3_add, vec3_add_spec, vec3_div, vec3_div_spec, vec3_scale,
    vec3_scale_spec, vec3_sub, vec3_sub_spec, Quat, Transform, Vec3};
use crate::scene::{AssetHandle, GltfAnimationChannel, GltfAnimationValues, GltfInterpolation};
use vstd::prelude::*;

verus! {

/// One sampled pose change for a node, relative to its bind pose: a
/// position offset, a rotation delta, or a scale factor.
#[derive(Clone, Copy, Debug, PartialEq, Eq, Structural)]
pub enum GltfPoseDelta {
    Translation(Vec3),
    Rotation(Quat),
    Scale(Vec3),
}

/// The first keyframe index whose time lies strictly after `t`, or the
/// track length when none does.
pub open spec fn first_time_after(times: Seq<Fx>, t: Fx) -> int
    decreases times.len(),
{
    if times.len() == 0 {
        0
    } else if times[0].raw > t.raw {
        0
    } else {
        1 + first_time_after(times.drop_first(), t)
    }
}

/// A position with no later-than-`t` keyframe before it and one at it
/// (or the end) pins down `first_time_after`.
pub proof fn lemma_first_time_after_at(times: Seq<Fx>, t: Fx, i: int)
    requires
        0 <= i <= times.len(),
        forall|j: int| 0 <= j < i ==> (#[trigger] times[j]).raw <= t.raw,
        i < times.len() ==> times[i].raw > t.raw,
    ensures
        first_time_after(times, t) == i,
    decreases times.len(),
{
    if times.len() == 0 {
    } else if times[0].raw > t.raw {
    } else {
        assert(forall|j: int| 0 <= j < i - 1 ==> (#[trigger] times.drop_first()[j]).raw <= t.raw)
            by {
            assert(forall|j: int|
                0 <= j < i - 1 ==> times.drop_first()[j] == times[j + 1]);
        }
        lemma_first_time_after_at(times.drop_first(), t, i - 1);
    }
}

/// The pair of keyframe indices bracketing the sample position: for a
/// looped track the bracket wraps around the end; otherwise it clamps.
pub open spec fn bracket_indices(len: int, ri: int, looped: bool) -> (int, int) {
    if looped {
        let i1 = if len > 0 {
            ri % len
        } else {
            0
        };
        let i0 = if i1 == 0 {
            len - 1
        } else {
            i1 - 1
        };
        (i0, i1)
    } else {
        let i1 = if ri < len - 1 {
            ri
        } else {
            len - 1
        };
        let i0 = if i1 == 0 {
            0
        } else {
            i1 - 1
        };
        (i0, i1)
    }
}

/// The interpolation factor between the bracketing keyframe times:
/// zero when they coincide, else the sample position's fraction of the
/// bracket.
pub open spec fn bracket_factor(t0: Fx, t1: Fx, tts: Fx) -> Fx {
    if t0.raw == t1.raw {
        Fx { raw: 0 }
    } else {
        fx_div_spec(fx_sub_spec(tts, t0), fx_sub_spec(t1, t0))
    }
}

/// What sampling one channel at position `tts` yields: the bracketing
/// keyframes are found (wrapping when looped), their values are taken
/// relative to the bind pose (positions subtract it, rotations multiply
/// by its inverse, scales divide by it), and linear tracks interpolate
/// between the two (rotations along the shorter arc). A track with
/// fewer than two keyframes, a keyframe index outside the value array,
/// or the unimplemented cubic mode yields nothing.
pub open spec fn sample_channel_spec(ch: GltfAnimationChannel, bind: Transform, tts: Fx,
    looped: bool) -> Option<GltfPoseDelta> {
    if ch.times@.len() < 2 {
        None
    } else {
        let len = ch.times@.len() as int;
        let ri = first_time_after(ch.times@, tts);
        let pair = bracket_indices(len, ri, looped);
        let i0 = pair.0;
        let i1 = pair.1;
        match ch.values {
            GltfAnimationValues::Translation(vals) => if i0 >= vals@.len() || i1 >= vals@.len() {
                None
            } else {
                match ch.interpolation {
                    GltfInterpolation::Linear => {
                        let factor = bracket_factor(ch.times@[i0], ch.times@[i1], tts);
                        let v0 = vec3_sub_spec(vals@[i0], bind.position);
                        let v1 = vec3_sub_spec(vals@[i1], bind.position);
                        Some(
                            GltfPoseDelta::Translation(
                                vec3_add_spec(v0, vec3_scale_spec(vec3_sub_spec(v1, v0), factor)),
                            ),
                        )
                    },
                    GltfInterpolation::Step => {
                        let v = if i1 == 0 {
                            vals@[0]
                        } else {
                            vals@[i0]
                        };
                        Some(GltfPoseDelta::Translation(vec3_sub_spec(v, bind.position)))
                    },
                    GltfInterpolation::CubicSpline => None,
                }
            },
            GltfAnimationValues::Rotation(vals) => if i0 >= vals@.len() || i1 >= vals@.len() {
                None
            } else {
                match ch.interpolation {
                    GltfInterpolation::Linear => {
                        let factor = bracket_factor(ch.times@[i0], ch.times@[i1], tts);
                        let inv = quat_inverse_spec(bind.orientation);
                        let v0 = quat_mul_spec(vals@[i0], inv);
                        let v1 = quat_mul_spec(vals@[i1], inv);
                        Some(GltfPoseDelta::Rotation(shortest_slerp_spec(v0, v1, factor)))
                    },
                    GltfInterpolation::Step => {
                        let v = if i1 == 0 {
                            vals@[0]
                        } else {
                            vals@[i0]
                        };
                        Some(
                            GltfPoseDelta::Rotation(
                                quat_mul_spec(v, quat_inverse_spec(bind.orientation)),
                            ),
                        )
                    },
                    GltfInterpolation::CubicSpline => None,
                }
            },
            GltfAnimationValues::Scale(vals) => if i0 >= vals@.len() || i1 >= vals@.len() {
                None
            } else {
                match ch.interpolation {
                    GltfInterpolation::Linear => {
                        let factor = bracket_factor(ch.times@[i0], ch.times@[i1], tts);
                        let v0 = vec3_div_spec(vals@[i0], bind.scale);
                        let v1 = vec3_div_spec(vals@[i1], bind.scale);
                        Some(
                            GltfPoseDelta::Scale(
                                vec3_add_spec(v0, vec3_scale_spec(vec3_sub_spec(v1, v0), factor)),
                            ),
                        )
                    },
                    GltfInterpolation::Step => {
                        let v = if i1 == 0 {
                            vals@[0]
                        } else {
                            vals@[i0]
                        };
                        Some(GltfPoseDelta::Scale(vec3_div_spec(v, bind.scale)))
                    },
                    GltfInterpolation::CubicSpline => None,
                }
            },
        }
    }
}

/// Samples one channel at position `tts` against the bind pose.
pub fn sample_channel(ch: &GltfAnimationChannel, bind: &Transform, tts: Fx, looped: bool) -> (r:
    Option<GltfPoseDelta>)
    ensures
        r == sample_channel_spec(*ch, *bind, tts, looped),
{
    let len = ch.times.len();
    if len < 2 {
        return None;
    }
    let mut ri: usize = len;
    let mut s: usize = 0;
    let mut scanning = true;
    while s < len
        invariant
            0 <= s <= len,
            len == ch.times@.len(),
            scanning ==> forall|j: int| 0 <= j < s ==> (#[trigger] ch.times@[j]).raw <= tts.raw,
            scanning ==> ri == len,
            !scanning ==> 0 <= ri < len && first_time_after(ch.times@, tts) == ri as int,
        decreases len - s,
    {
        if scanning && ch.times[s].raw > tts.raw {
            proof {
                lemma_first_time_after_at(ch.times@, tts, s as int);
            }
            ri = s;
            scanning = false;
        }
        s += 1;
    }
    proof {
        if scanning {
            lemma_first_time_after_at(ch.times@, tts, len as int);
        }
    }
    let (i0, i1) = if looped {
        let i1 = ri % len;
        let i0 = if i1 == 0 {
            len - 1
        } else {
            i1 - 1
        };
        (i0, i1)
    } else {
        let i1 = if ri < len - 1 {
            ri
        } else {
            len - 1
        };
        let i0 = if i1 == 0 {
            0
        } else {
            i1 - 1
        };
        (i0, i1)
    };
    proof {
        assert((i0 as int, i1 as int) == bracket_indices(
            ch.times@.len() as int,
            first_time_after(ch.times@, tts),
            looped,
        ));
    }
    match &ch.values {
        GltfAnimationValues::Translation(vals) => {
            if i0 >= vals.len() || i1 >= vals.len() {
                return None;
            }
            match ch.interpolation {
                GltfInterpolation::Linear => {
                    let t0 = ch.times[i0];
                    let t1 = ch.times[i1];
                    let factor = if t0.raw == t1.raw {
                        Fx { raw: 0 }
                    } else {
                        fx_div(fx_sub(tts, t0), fx_sub(t1, t0))
                    };
                    let v0 = vec3_sub(vals[i0], bind.position);
                    let v1 = vec3_sub(vals[i1], bind.position);
                    Some(
                        GltfPoseDelta::Translation(
                            vec3_add(v0, vec3_scale(vec3_sub(v1, v0), factor)),
                        ),
                    )
                },
                GltfInterpolation::Step => {
                    let v = if i1 == 0 {
                        vals[0]
                    } else {
                        vals[i0]
                    };
                    Some(GltfPoseDelta::Translation(vec3_sub(v, bind.position)))
                },
                GltfInterpolation::CubicSpline => None,
            }
        },
        GltfAnimationValues::Rotation(vals) => {
            if i0 >= vals.len() || i1 >= vals.len() {
                return None;
            }
            match ch.interpolation {
                GltfInterpolation::Linear => {
                    let t0 = ch.times[i0];
                    let t1 = ch.times[i1];
                    let factor = if t0.raw == t1.raw {
                        Fx { raw: 0 }
                    } else {
                        fx_div(fx_sub(tts, t0), fx_sub(t1, t0))
                    };
                    let inv = quat_inverse(bind.orientation);
                    let v0 = quat_mul(vals[i0], inv);
                    let v1 = quat_mul(vals[i1], inv);
                    Some(GltfPoseDelta::Rotation(shortest_slerp(v0, v1, factor)))
                },
                GltfInterpolation::Step => {
                    let v = if i1 == 0 {
                        vals[0]
                    } else {
                        vals[i0]
                    };
                    Some(GltfPoseDelta::Rotation(quat_mul(v, quat_inverse(bind.orientation))))
                },
                GltfInterpolation::CubicSpline => None,
            }
        },
        GltfAnimationValues::Scale(vals) => {
            if i0 >= vals.len() || i1 >= vals.len() {
                return None;
            }
            match ch.interpolation {
                GltfInterpolation::Linear => {
                    let t0 = ch.times[i0];
                    let t1 = ch.times[i1];
                    let factor = if t0.raw == t1.raw {
                        Fx { raw: 0 }
                    } else {
                        fx_div(fx_sub(tts, t0), fx_sub(t1, t0))
                    };
                    let v0 = vec3_div(vals[i0], bind.scale);
                    let v1 = vec3_div(vals[i1], bind.scale);
                    Some(
                        GltfPoseDelta::Scale(vec3_add(v0, vec3_scale(vec3_sub(v1, v0), factor))),
                    )
                },
                GltfInterpolation::Step => {
                    let v = if i1 == 0 {
                        vals[0]
                    } else {
                        vals[i0]
                    };
                    Some(GltfPoseDelta::Scale(vec3_div(v, bind.scale)))
                },
                GltfInterpolation::CubicSpline => None,
            }
        },
    }
}

/// A named scalar parameter read by blend-tree weight expressions.
#[derive(Clone, Copy, Debug, PartialEq, Eq, Structural)]
pub struct GltfAnimationParameter {
    value: Fx,
}

impl GltfAnimationParameter {
    /// A parameter holding `value`.
    pub fn new(value: Fx) -> (r: GltfAnimationParameter)
        ensures
            r.spec_get() == value,
    {
        GltfAnimationParameter { value }
    }

    /// The held value.
    pub closed spec fn spec_get(self) -> Fx {
        self.value
    }

    /// Reads the parameter.
    pub fn get(&self) -> (r: Fx)
        ensures
            r == self.spec_get(),
    {
        self.value
    }

    /// Writes the parameter and returns the previous value.
    pub fn set(&mut self, value: Fx) -> (r: Fx)
        ensures
            final(self).spec_get() == value,
            r == old(self).spec_get(),
    {
        let previous = self.value;
        self.value = value;
        previous
    }
}

/// The weighted pose deltas gathered for one node this frame, one list
/// per transform channel.
#[derive(Debug)]
pub struct GltfNodeDeltas {
    pub translations: Vec<(Vec3, Fx)>,
    pub rotations: Vec<(Quat, Fx)>,
    pub scales: Vec<(Vec3, Fx)>,
}

/// A node's gathered deltas as plain sequences.
pub open spec fn deltas_view(d: GltfNodeDeltas) -> (Seq<(Vec3, Fx)>, Seq<(Quat, Fx)>, Seq<
    (Vec3, Fx),
>) {
    (d.translations@, d.rotations@, d.scales@)
}

/// The whole gather state as plain sequences.
pub open spec fn state_view(s: Seq<GltfNodeDeltas>) -> Seq<
    (Seq<(Vec3, Fx)>, Seq<(Quat, Fx)>, Seq<(Vec3, Fx)>),
> {
    Seq::new(s.len(), |i: int| deltas_view(s[i]))
}

/// The empty gather state for `n` nodes.
pub open spec fn empty_state(n: int) -> Seq<(Seq<(Vec3, Fx)>, Seq<(Quat, Fx)>, Seq<(Vec3, Fx)>)> {
    Seq::new(n as nat, |i: int|
        (Seq::<(Vec3, Fx)>::empty(), Seq::<(Quat, Fx)>::empty(), Seq::<(Vec3, Fx)>::empty()),
    )
}

/// The first arena slot holding the node named `id`, or `-1`.
pub open spec fn first_node_index(nodes: Seq<crate::scene::GltfSceneNode>, id:
    crate::scene::GltfNodeId) -> int
    decreases nodes.len(),
{
    if nodes.len() == 0 {
        -1
    } else if nodes[0].id == id {
        0
    } else {
        let r = first_node_index(nodes.drop_first(), id);
        if r < 0 {
            -1
        } else {
            1 + r
        }
    }
}

/// A position with no earlier occurrence and an occurrence (or the end,
/// standing for absence) pins down `first_node_index`.
pub proof fn lemma_first_node_index_at(nodes: Seq<crate::scene::GltfSceneNode>, id:
    crate::scene::GltfNodeId, i: int)
    requires
        0 <= i <= nodes.len(),
        forall|j: int| 0 <= j < i ==> (#[trigger] nodes[j]).id != id,
        i < nodes.len() ==> nodes[i].id == id,
    ensures
        i < nodes.len() ==> first_node_index(nodes, id) == i,
        i == nodes.len() ==> first_node_index(nodes, id) == -1,
    decreases nodes.len(),
{
    if nodes.len() == 0 {
    } else if nodes[0].id == id {
    } else {
        assert(forall|j: int| 0 <= j < i - 1 ==> (#[trigger] nodes.drop_first()[j]).id != id);
        lemma_first_node_index_at(nodes.drop_first(), id, i - 1);
    }
}

/// The weight override stored for `node`, or `fallback` when there is
/// none.
pub open spec fn override_weight(ovr: Seq<(usize, Fx)>, node: usize, fallback: Fx) -> Fx
    decreases ovr.len(),
{
    if ovr.len() == 0 {
        fallback
    } else if ovr[0].0 == node {
        ovr[0].1
    } else {
        override_weight(ovr.drop_first(), node, fallback)
    }
}

/// The sample position of an animation on a clip of length `duration`:
/// looping wraps the time, otherwise it clamps to the end.
pub open spec fn sample_time(a: GltfSceneAnimation, duration: Fx) -> Fx {
    if a.looped {
        fx_rem_trunc_spec(a.time, duration)
    } else {
        if a.time.raw <= duration.raw {
            a.time
        } else {
            duration
        }
    }
}

/// One channel folded into the gather state: the contribution lands in
/// the target node's list for its transform channel, weighted by the
/// animation's weight or the node's override; channels that sample to
/// nothing, miss their node, or fall outside the affect filter change
/// nothing.
pub open spec fn channel_step(state: Seq<(Seq<(Vec3, Fx)>, Seq<(Quat, Fx)>, Seq<(Vec3, Fx)>)>,
    nodes: Seq<crate::scene::GltfSceneNode>, anim: GltfSceneAnimation, duration: Fx,
    ch: GltfAnimationChannel) -> Seq<(Seq<(Vec3, Fx)>, Seq<(Quat, Fx)>, Seq<(Vec3, Fx)>)> {
    let ni = first_node_index(nodes, ch.target_node);
    if ch.times@.len() < 2 || ni < 0 || ni >= state.len() {
        state
    } else if anim.affected_nodes@.len() > 0 && !anim.affected_nodes@.contains(ni as usize) {
        state
    } else {
        let tts = sample_time(anim, duration);
        let bind = nodes[ni].state.bind_transform;
        match sample_channel_spec(ch, bind, tts, anim.looped) {
            Option::None => state,
            Option::Some(delta) => {
                let w = override_weight(anim.nodes_weight_override@, ni as usize, anim.weight);
                let entry = state[ni];
                match delta {
                    GltfPoseDelta::Translation(v) => state.update(
                        ni,
                        (entry.0.push((v, w)), entry.1, entry.2),
                    ),
                    GltfPoseDelta::Rotation(q) => state.update(
                        ni,
                        (entry.0, entry.1.push((q, w)), entry.2),
                    ),
                    GltfPoseDelta::Scale(v) => state.update(
                        ni,
                        (entry.0, entry.1, entry.2.push((v, w))),
                    ),
                }
            },
        }
    }
}

/// The first `k` channels of one clip folded into the gather state.
pub open spec fn gather_channels(state: Seq<(Seq<(Vec3, Fx)>, Seq<(Quat, Fx)>, Seq<(Vec3, Fx)>)>,
    nodes: Seq<crate::scene::GltfSceneNode>, anim: GltfSceneAnimation, duration: Fx, chs: Seq<
    GltfAnimationChannel>, k: int) -> Seq<(Seq<(Vec3, Fx)>, Seq<(Quat, Fx)>, Seq<(Vec3, Fx)>)>
    decreases k,
{
    if k <= 0 {
        state
    } else {
        channel_step(
            gather_channels(state, nodes, anim, duration, chs, k - 1),
            nodes,
            anim,
            duration,
            chs[k - 1],
        )
    }
}

/// The first `j` animations folded into the gather state; only playing
/// animations are sampled, and one whose clip the store lacks
/// contributes nothing.
pub open spec fn gather_animations(state: Seq<
    (Seq<(Vec3, Fx)>, Seq<(Quat, Fx)>, Seq<(Vec3, Fx)>),
>, nodes: Seq<crate::scene::GltfSceneNode>, db: crate::scene::GltfAssetDatabase, anims: Seq<
    (String, GltfSceneAnimation)>, j: int) -> Seq<(Seq<(Vec3, Fx)>, Seq<(Quat, Fx)>, Seq<(Vec3, Fx)>)>
    decreases j,
{
    if j <= 0 {
        state
    } else {
        let prev = gather_animations(state, nodes, db, anims, j - 1);
        let a = anims[j - 1].1;
        let hi = crate::scene::handle_index(db.animations@, a.animation_handle);
        if hi < 0 || !a.playing {
            prev
        } else {
            let asset = db.animations@[hi].1;
            gather_channels(prev, nodes, a, asset.duration, asset.channels@, asset.channels@.len() as int)
        }
    }
}

/// The sum of the weights of the first `k` gathered deltas.
pub open spec fn sum_pair_weights<X>(l: Seq<(X, Fx)>, k: int) -> Fx
    decreases k,
{
    if k <= 0 {
        Fx { raw: 0 }
    } else {
        fx_add_spec(sum_pair_weights(l, k - 1), l[k - 1].1)
    }
}

/// The weighted sum of the first `k` gathered vectors.
pub open spec fn weighted_vec3_sum(l: Seq<(Vec3, Fx)>, k: int) -> Vec3
    decreases k,
{
    if k <= 0 {
        crate::math::vec3_zero_spec()
    } else {
        vec3_add_spec(weighted_vec3_sum(l, k - 1), vec3_scale_spec(l[k - 1].0, l[k - 1].1))
    }
}

/// The iterative weighted spherical average of the first `k` gathered
/// rotations: each is blended in along the shorter arc with factor its
/// weight over the running total.
pub open spec fn rotation_fold(l: Seq<(Quat, Fx)>, k: int) -> Quat
    decreases k,
{
    if k <= 0 {
        crate::math::quat_identity_spec()
    } else {
        shortest_slerp_spec(
            rotation_fold(l, k - 1),
            l[k - 1].0,
            fx_div_spec(l[k - 1].1, sum_pair_weights(l, k)),
        )
    }
}

/// A node's position after composition: untouched without contributors;
/// one contributor's offset lands on the bind position; several average
/// by weight (skipped entirely when the total weight is not positive).
pub open spec fn combined_position(current: Vec3, bind: Vec3, l: Seq<(Vec3, Fx)>) -> Vec3 {
    if l.len() == 0 {
        current
    } else if l.len() == 1 {
        vec3_add_spec(bind, l[0].0)
    } else {
        let total = sum_pair_weights(l, l.len() as int);
        if total.raw > 0 {
            vec3_add_spec(
                crate::math::vec3_div_scalar_spec(weighted_vec3_sum(l, l.len() as int), total),
                bind,
            )
        } else {
            current
        }
    }
}

/// A node's orientation after composition: untouched without
/// contributors; one delta is composed onto the bind rotation and
/// renormalized; several are folded by iterative weighted spherical
/// averaging first.
pub open spec fn combined_rotation(current: Quat, bind: Quat, l: Seq<(Quat, Fx)>) -> Quat {
    if l.len() == 0 {
        current
    } else if l.len() == 1 {
        crate::math::quat_normalize_spec(quat_mul_spec(l[0].0, bind))
    } else {
        let total = sum_pair_weights(l, l.len() as int);
        if total.raw > 0 {
            crate::math::quat_normalize_spec(
                quat_mul_spec(rotation_fold(l, l.len() as int), bind),
            )
        } else {
            current
        }
    }
}

/// A node's scale after composition: untouched without contributors;
/// one factor multiplies the bind scale; several average by weight
/// first.
pub open spec fn combined_scale(current: Vec3, bind: Vec3, l: Seq<(Vec3, Fx)>) -> Vec3 {
    if l.len() == 0 {
        current
    } else if l.len() == 1 {
        crate::math::vec3_mul_spec(bind, l[0].0)
    } else {
        let total = sum_pair_weights(l, l.len() as int);
        if total.raw > 0 {
            crate::math::vec3_mul_spec(
                crate::math::vec3_div_scalar_spec(weighted_vec3_sum(l, l.len() as int), total),
                bind,
            )
        } else {
            current
        }
    }
}

/// A node's pose after all gathered deltas are composed onto its bind
/// pose, channel by channel.
pub open spec fn combined_transform(current: Transform, bind: Transform, d: (
    Seq<(Vec3, Fx)>,
    Seq<(Quat, Fx)>,
    Seq<(Vec3, Fx)>,
)) -> Transform {
    Transform {
        position: combined_position(current.position, bind.position, d.0),
        orientation: combined_rotation(current.orientation, bind.orientation, d.1),
        scale: combined_scale(current.scale, bind.scale, d.2),
    }
}

/// Two opposed position deltas at one equal positive weight cancel:
/// the weighted mean delta is exactly zero, so the composed position is
/// the bind position unchanged. The bind and delta components must lie
/// above the symmetric raw minimum, as every arithmetic result does;
/// only a hand-built raw value can violate that.
pub proof fn lemma_opposed_half_weights_cancel(current: Vec3, bind: Vec3, d: Vec3, w: Fx)
    requires
        w.raw > 0,
        d.x.raw > i64::MIN,
        d.y.raw > i64::MIN,
        d.z.raw > i64::MIN,
        bind.x.raw > i64::MIN,
        bind.y.raw > i64::MIN,
        bind.z.raw > i64::MIN,
    ensures
        ({
            let nd = Vec3 {
                x: crate::fixed::fx_neg_spec(d.x),
                y: crate::fixed::fx_neg_spec(d.y),
                z: crate::fixed::fx_neg_spec(d.z),
            };
            combined_position(current, bind, seq![(d, w), (nd, w)]) == bind
        }),
{
    let nd = Vec3 {
        x: crate::fixed::fx_neg_spec(d.x),
        y: crate::fixed::fx_neg_spec(d.y),
        z: crate::fixed::fx_neg_spec(d.z),
    };
    let l = seq![(d, w), (nd, w)];
    assert(l.len() == 2);
    assert(l[0] == (d, w) && l[1] == (nd, w));
    assert(sum_pair_weights(l, 0) == (Fx { raw: 0 }));
    let t1 = sum_pair_weights(l, 1);
    assert(t1 == fx_add_spec(Fx { raw: 0 }, w));
    assert(t1 == w);
    let total = sum_pair_weights(l, 2);
    assert(total == fx_add_spec(w, w));
    assert(total.raw > 0);
    crate::fixed::lemma_fx_mul_neg_first(d.x, w);
    crate::fixed::lemma_fx_mul_neg_first(d.y, w);
    crate::fixed::lemma_fx_mul_neg_first(d.z, w);
    assert(weighted_vec3_sum(l, 0) == crate::math::vec3_zero_spec());
    let s1 = weighted_vec3_sum(l, 1);
    assert(s1 == vec3_add_spec(crate::math::vec3_zero_spec(), vec3_scale_spec(d, w)));
    assert(s1 == vec3_scale_spec(d, w));
    let acc = weighted_vec3_sum(l, 2);
    assert(acc == vec3_add_spec(s1, vec3_scale_spec(nd, w)));
    assert(vec3_scale_spec(nd, w).x == crate::fixed::fx_neg_spec(vec3_scale_spec(d, w).x));
    assert(vec3_scale_spec(nd, w).y == crate::fixed::fx_neg_spec(vec3_scale_spec(d, w).y));
    assert(vec3_scale_spec(nd, w).z == crate::fixed::fx_neg_spec(vec3_scale_spec(d, w).z));
    assert(acc.x.raw == 0 && acc.y.raw == 0 && acc.z.raw == 0);
    assert(crate::fixed::fx_abs_int(0int) == 0);
    assert(0int * (crate::fixed::FX_SCALE as int) == 0) by (nonlinear_arith);
    vstd::arithmetic::div_mod::lemma_div_of0(crate::fixed::fx_abs_int(total.raw as int));
    assert(fx_div_spec(acc.x, total) == (Fx { raw: 0 }));
    assert(fx_div_spec(acc.y, total) == (Fx { raw: 0 }));
    assert(fx_div_spec(acc.z, total) == (Fx { raw: 0 }));
    assert(combined_position(current, bind, l) == vec3_add_spec(
        crate::math::vec3_div_scalar_spec(acc, total),
        bind,
    ));
    assert(fx_add_spec(Fx { raw: 0 }, bind.x) == bind.x);
    assert(fx_add_spec(Fx { raw: 0 }, bind.y) == bind.y);
    assert(fx_add_spec(Fx { raw: 0 }, bind.z) == bind.z);
}

/// Composes one node's gathered deltas onto its pose.
fn apply_deltas(current: &Transform, bind: &Transform, d: &GltfNodeDeltas) -> (r: Transform)
    ensures
        r == combined_transform(*current, *bind, deltas_view(*d)),
{
    let position = if d.translations.len() == 0 {
        current.position
    } else if d.translations.len() == 1 {
        vec3_add(bind.position, d.translations[0].0)
    } else {
        let count = d.translations.len();
        let mut total = Fx { raw: 0 };
        let mut acc = crate::math::vec3_zero();
        let mut k: usize = 0;
        while k < count
            invariant
                0 <= k <= count,
                count == d.translations@.len(),
                total == sum_pair_weights(d.translations@, k as int),
                acc == weighted_vec3_sum(d.translations@, k as int),
            decreases count - k,
        {
            total = fx_add(total, d.translations[k].1);
            acc = vec3_add(acc, vec3_scale(d.translations[k].0, d.translations[k].1));
            k += 1;
        }
        if total.raw > 0 {
            vec3_add(crate::math::vec3_div_scalar(acc, total), bind.position)
        } else {
            current.position
        }
    };
    let orientation = if d.rotations.len() == 0 {
        current.orientation
    } else if d.rotations.len() == 1 {
        crate::math::quat_normalize(quat_mul(d.rotations[0].0, bind.orientation))
    } else {
        let count = d.rotations.len();
        let mut total = Fx { raw: 0 };
        let mut acc = crate::math::quat_identity();
        let mut k: usize = 0;
        while k < count
            invariant
                0 <= k <= count,
                count == d.rotations@.len(),
                total == sum_pair_weights(d.rotations@, k as int),
                acc == rotation_fold(d.rotations@, k as int),
            decreases count - k,
        {
            total = fx_add(total, d.rotations[k].1);
            acc = shortest_slerp(acc, d.rotations[k].0, fx_div(d.rotations[k].1, total));
            k += 1;
        }
        if total.raw > 0 {
            crate::math::quat_normalize(quat_mul(acc, bind.orientation))
        } else {
            current.orientation
        }
    };
    let scale = if d.scales.len() == 0 {
        current.scale
    } else if d.scales.len() == 1 {
        crate::math::vec3_mul(bind.scale, d.scales[0].0)
    } else {
        let count = d.scales.len();
        let mut total = Fx { raw: 0 };
        let mut acc = crate::math::vec3_zero();
        let mut k: usize = 0;
        while k < count
            invariant
                0 <= k <= count,
                count == d.scales@.len(),
                total == sum_pair_weights(d.scales@, k as int),
                acc == weighted_vec3_sum(d.scales@, k as int),
            decreases count - k,
        {
            total = fx_add(total, d.scales[k].1);
            acc = vec3_add(acc, vec3_scale(d.scales[k].0, d.scales[k].1));
            k += 1;
        }
        if total.raw > 0 {
            crate::math::vec3_mul(crate::math::vec3_div_scalar(acc, total), bind.scale)
        } else {
            current.scale
        }
    };
    Transform { position, orientation, scale }
}

/// The playback state of one live animation.
#[derive(Clone, Debug)]
pub struct GltfSceneAnimation {
    pub animation_handle: AssetHandle,
    pub time: Fx,
    pub weight: Fx,
    pub looped: bool,
    pub playing: bool,
    pub speed: Fx,
    pub affected_nodes: Vec<usize>,
    pub nodes_weight_override: Vec<(usize, Fx)>,
}

/// One animation's playback state after a frame of `dt` (already
/// clamped non-negative): a playing animation with a stored clip first
/// clamps a negative time to zero, then advances by `dt * speed`; past
/// the clip's duration it either wraps (when looped) or clamps to the
/// end and stops.
pub open spec fn advanced_animation(a: GltfSceneAnimation, has_asset: bool, duration: Fx, dt: Fx,
) -> GltfSceneAnimation {
    if !has_asset || !a.playing {
        a
    } else {
        let t0 = if a.time.raw < 0 {
            Fx { raw: 0 }
        } else {
            a.time
        };
        let t1 = fx_add_spec(t0, fx_mul_spec(dt, a.speed));
        if t1.raw > duration.raw {
            if a.looped {
                GltfSceneAnimation { time: fx_rem_trunc_spec(t1, duration), ..a }
            } else {
                GltfSceneAnimation { time: duration, playing: false, ..a }
            }
        } else {
            GltfSceneAnimation { time: t1, ..a }
        }
    }
}

/// A looped animation driven past the end wraps into `[0, duration)`
/// and keeps playing; a non-looped one clamps to the end and stops.
pub proof fn lemma_time_wraps(a: GltfSceneAnimation, duration: Fx, dt: Fx)
    requires
        a.playing,
        duration.raw > 0,
        ({
            let t0 = if a.time.raw < 0 {
                Fx { raw: 0 }
            } else {
                a.time
            };
            fx_add_spec(t0, fx_mul_spec(dt, a.speed)).raw > duration.raw
        }),
    ensures
        a.looped ==> {
            let r = advanced_animation(a, true, duration, dt);
            &&& 0 <= r.time.raw < duration.raw
            &&& r.playing
        },
        !a.looped ==> {
            let r = advanced_animation(a, true, duration, dt);
            &&& r.time == duration
            &&& !r.playing
        },
{
}

impl GltfSceneAnimation {
    /// A stopped animation of the given clip: time zero, full weight,
    /// not looped, unit speed, no node filter and no overrides.
    pub fn new(animation_handle: AssetHandle) -> (r: GltfSceneAnimation)
        ensures
            r.animation_handle == animation_handle,
            r.time.raw == 0,
            r.weight.raw == 1_000_000,
            !r.looped,
            !r.playing,
            r.speed.raw == 1_000_000,
            r.affected_nodes@ == Seq::<usize>::empty(),
            r.nodes_weight_override@ == Seq::<(usize, Fx)>::empty(),
    {
        let r = GltfSceneAnimation {
            animation_handle,
            time: Fx { raw: 0 },
            weight: Fx { raw: 1_000_000 },
            looped: false,
            playing: false,
            speed: Fx { raw: 1_000_000 },
            affected_nodes: Vec::new(),
            nodes_weight_override: Vec::new(),
        };
        proof {
            assert(r.affected_nodes@ =~= Seq::<usize>::empty());
            assert(r.nodes_weight_override@ =~= Seq::<(usize, Fx)>::empty());
        }
        r
    }

    /// The same animation at the given time.
    pub fn time(self, time: Fx) -> (r: GltfSceneAnimation)
        ensures
            r == (GltfSceneAnimation { time, ..self }),
    {
        GltfSceneAnimation { time, ..self }
    }

    /// The same animation with the given weight.
    pub fn weight(self, weight: Fx) -> (r: GltfSceneAnimation)
        ensures
            r == (GltfSceneAnimation { weight, ..self }),
    {
        GltfSceneAnimation { weight, ..self }
    }

    /// The same animation with looping set.
    pub fn looped(self, looped: bool) -> (r: GltfSceneAnimation)
        ensures
            r == (GltfSceneAnimation { looped, ..self }),
    {
        GltfSceneAnimation { looped, ..self }
    }

    /// The same animation with playing set.
    pub fn playing(self, playing: bool) -> (r: GltfSceneAnimation)
        ensures
            r == (GltfSceneAnimation { playing, ..self }),
    {
        GltfSceneAnimation { playing, ..self }
    }

    /// The same animation at the given playback speed.
    pub fn speed(self, speed: Fx) -> (r: GltfSceneAnimation)
        ensures
            r == (GltfSceneAnimation { speed, ..self }),
    {
        GltfSceneAnimation { speed, ..self }
    }

    /// The same animation with more nodes added to the affect filter.
    pub fn affected_nodes(self, affected_nodes: Vec<usize>) -> (r: GltfSceneAnimation)
        ensures
            r.affected_nodes@ == self.affected_nodes@ + affected_nodes@,
            r == (GltfSceneAnimation { affected_nodes: r.affected_nodes, ..self }),
    {
        let mut out = self;
        let mut i: usize = 0;
        proof {
            assert(out.affected_nodes@ =~= self.affected_nodes@ + affected_nodes@.take(0int));
        }
        while i < affected_nodes.len()
            invariant
                0 <= i <= affected_nodes@.len(),
                out.affected_nodes@ == self.affected_nodes@ + affected_nodes@.take(i as int),
                out == (GltfSceneAnimation { affected_nodes: out.affected_nodes, ..self }),
            decreases affected_nodes@.len() - i,
        {
            out.affected_nodes.push(affected_nodes[i]);
            proof {
                assert(self.affected_nodes@ + affected_nodes@.take(i + 1) =~= (self.affected_nodes@
                    + affected_nodes@.take(i as int)).push(affected_nodes@[i as int]));
            }
            i += 1;
        }
        proof {
            assert(affected_nodes@.take(affected_nodes@.len() as int) =~= affected_nodes@);
        }
        out
    }

    /// The same animation with one more node in the affect filter.
    pub fn affected_node(self, affected_node: usize) -> (r: GltfSceneAnimation)
        ensures
            r.affected_nodes@ == self.affected_nodes@.push(affected_node),
            r == (GltfSceneAnimation { affected_nodes: r.affected_nodes, ..self }),
    {
        let mut out = self;
        out.affected_nodes.push(affected_node);
        out
    }

    /// The same animation with more per-node weight overrides appended.
    pub fn node_weight_overrides(self, nodes_weight_override: Vec<(usize, Fx)>) -> (r:
        GltfSceneAnimation)
        ensures
            r.nodes_weight_override@ == self.nodes_weight_override@ + nodes_weight_override@,
            r == (GltfSceneAnimation { nodes_weight_override: r.nodes_weight_override, ..self }),
    {
        let mut out = self;
        let mut i: usize = 0;
        proof {
            assert(out.nodes_weight_override@ =~= self.nodes_weight_override@
                + nodes_weight_override@.take(0int));
        }
        while i < nodes_weight_override.len()
            invariant
                0 <= i <= nodes_weight_override@.len(),
                out.nodes_weight_override@ == self.nodes_weight_override@
                    + nodes_weight_override@.take(i as int),
                out == (
                GltfSceneAnimation { nodes_weight_override: out.nodes_weight_override, ..self }),
            decreases nodes_weight_override@.len() - i,
        {
            out.nodes_weight_override.push(nodes_weight_override[i]);
            proof {
                assert(self.nodes_weight_override@ + nodes_weight_override@.take(i + 1) =~= (
                self.nodes_weight_override@ + nodes_weight_override@.take(i as int)).push(
                    nodes_weight_override@[i as int],
                ));
            }
            i += 1;
        }
        proof {
            assert(nodes_weight_override@.take(nodes_weight_override@.len() as int)
                =~= nodes_weight_override@);
        }
        out
    }

    /// The same animation with one more per-node weight override.
    pub fn node_weight_override(self, node: usize, weight: Fx) -> (r: GltfSceneAnimation)
        ensures
            r.nodes_weight_override@ == self.nodes_weight_override@.push((node, weight)),
            r == (GltfSceneAnimation { nodes_weight_override: r.nodes_weight_override, ..self }),
    {
        let mut out = self;
        out.nodes_weight_override.push((node, weight));
        out
    }
}

/// Reads the weight override stored for `node`, or the fallback.
fn lookup_override(ovr: &Vec<(usize, Fx)>, node: usize, fallback: Fx) -> (r: Fx)
    ensures
        r == override_weight(ovr@, node, fallback),
{
    let mut i: usize = 0;
    proof {
        assert(ovr@.skip(0int) =~= ovr@);
    }
    while i < ovr.len()
        invariant
            0 <= i <= ovr@.len(),
            override_weight(ovr@, node, fallback) == override_weight(
                ovr@.skip(i as int),
                node,
                fallback,
            ),
        decreases ovr@.len() - i,
    {
        proof {
            assert(ovr@.skip(i as int).drop_first() =~= ovr@.skip(i + 1));
            assert(ovr@.skip(i as int)[0] == ovr@[i as int]);
        }
        if ovr[i].0 == node {
            return ovr[i].1;
        }
        i += 1;
    }
    proof {
        assert(ovr@.skip(ovr@.len() as int) =~= Seq::<(usize, Fx)>::empty());
    }
    fallback
}

/// Whether the affect filter holds `x`, by scanning.
fn nodes_contain(v: &Vec<usize>, x: usize) -> (r: bool)
    ensures
        r == v@.contains(x),
{
    let mut i: usize = 0;
    while i < v.len()
        invariant
            0 <= i <= v@.len(),
            forall|j: int| 0 <= j < i ==> v@[j] != x,
        decreases v@.len() - i,
    {
        if v[i] == x {
            return true;
        }
        i += 1;
    }
    proof {
        assert(forall|j: int| 0 <= j < v@.len() ==> v@[j] != x);
    }
    false
}

/// Folds one channel's sampled contribution into the gather state.
fn apply_channel(state: &mut Vec<GltfNodeDeltas>, nodes: &Vec<crate::scene::GltfSceneNode>,
    anim: &GltfSceneAnimation, duration: Fx, ch: &GltfAnimationChannel)
    ensures
        state_view(final(state)@) == channel_step(
            state_view(old(state)@),
            nodes@,
            *anim,
            duration,
            *ch,
        ),
        final(state)@.len() == old(state)@.len(),
{
    if ch.times.len() < 2 {
        return ;
    }
    let mut found: Option<usize> = None;
    let mut s: usize = 0;
    while s < nodes.len()
        invariant
            0 <= s <= nodes@.len(),
            found is None ==> forall|j: int|
                0 <= j < s ==> (#[trigger] nodes@[j]).id != ch.target_node,
            found matches Some(x) ==> x < nodes@.len() && first_node_index(nodes@, ch.target_node)
                == x as int,
        decreases nodes@.len() - s,
    {
        if found.is_none() && nodes[s].id == ch.target_node {
            proof {
                lemma_first_node_index_at(nodes@, ch.target_node, s as int);
            }
            found = Some(s);
        }
        s += 1;
    }
    let ni = match found {
        Option::Some(x) => x,
        Option::None => {
            proof {
                lemma_first_node_index_at(nodes@, ch.target_node, nodes@.len() as int);
            }
            return ;
        },
    };
    if ni >= state.len() {
        return ;
    }
    if anim.affected_nodes.len() > 0 && !nodes_contain(&anim.affected_nodes, ni) {
        return ;
    }
    let tts = if anim.looped {
        fx_rem_trunc(anim.time, duration)
    } else {
        if anim.time.raw <= duration.raw {
            anim.time
        } else {
            duration
        }
    };
    let bind = nodes[ni].state.bind_transform;
    let sampled = sample_channel(ch, &bind, tts, anim.looped);
    match sampled {
        Option::None => {
        },
        Option::Some(delta) => {
            let w = lookup_override(&anim.nodes_weight_override, ni, anim.weight);
            let slot = &mut state[ni];
            match delta {
                GltfPoseDelta::Translation(v) => {
                    slot.translations.push((v, w));
                },
                GltfPoseDelta::Rotation(q) => {
                    slot.rotations.push((q, w));
                },
                GltfPoseDelta::Scale(v) => {
                    slot.scales.push((v, w));
                },
            }
            proof {
                assert(state_view(state@) =~~= channel_step(
                    state_view(old(state)@),
                    nodes@,
                    *anim,
                    duration,
                    *ch,
                ));
            }
        },
    }
}

/// Whether `new_anims` is `old_anims` after one weight-update frame of
/// `dt`: each animation advanced per `advanced_animation`, then its
/// weight overwritten from the weight map `bv` — an absent clip keeps
/// its weight when only affected clips are driven, else drops to zero.
pub open spec fn animations_updated(old_anims: Seq<(String, GltfSceneAnimation)>, new_anims: Seq<
    (String, GltfSceneAnimation)>, bv: Seq<(Seq<char>, Fx)>, db: crate::scene::GltfAssetDatabase,
    dt: Fx, blend_only: bool) -> bool {
    &&& new_anims.len() == old_anims.len()
    &&& forall|i: int|
        0 <= i < old_anims.len() ==> {
            let name = old_anims[i].0;
            let a0 = old_anims[i].1;
            let hi = crate::scene::handle_index(db.animations@, a0.animation_handle);
            let adv = advanced_animation(
                a0,
                hi >= 0,
                if hi >= 0 {
                    db.animations@[hi].1.duration
                } else {
                    Fx { raw: 0 }
                },
                dt,
            );
            let wi = crate::blend::weight_index(bv, name@);
            let w = if wi >= 0 {
                bv[wi].1
            } else {
                if blend_only {
                    adv.weight
                } else {
                    Fx { raw: 0 }
                }
            };
            &&& (#[trigger] new_anims[i]).0@ == name@
            &&& new_anims[i].1 == (GltfSceneAnimation { weight: w, ..adv })
        }
}

impl crate::scene::GltfSceneInstance {
    /// Advances every playing animation's time (wrapping or stopping at
    /// the clip's end), steps the blend tree, evaluates it, and writes
    /// the produced weight of each clip back into its animation — only
    /// clips the tree names when the affected-only flag is set, every
    /// clip (absent ones at zero) otherwise.
    #[verifier::loop_isolation(false)]
    #[verifier::rlimit(100)]
    pub fn update_animations(&mut self, delta_time: Fx, database:
        &crate::scene::GltfAssetDatabase)
        ensures
            ({
                let dt = if delta_time.raw < 0 {
                    Fx { raw: 0 }
                } else {
                    delta_time
                };
                let bv = crate::blend::accum_weights(
                    Seq::<(Seq<char>, Fx)>::empty(),
                    crate::blend::node_contribs(
                        final(self).animation_node,
                        old(self).parameters@,
                        Fx { raw: 1_000_000 },
                    ),
                );
                &&& crate::blend::updated_node(
                    old(self).animation_node,
                    final(self).animation_node,
                    dt,
                )
                &&& animations_updated(
                    old(self).animations@,
                    final(self).animations@,
                    bv,
                    *database,
                    dt,
                    old(self).blend_only_affected_animations,
                )
            }),
            final(self).nodes == old(self).nodes,
            final(self).roots == old(self).roots,
            final(self).parameters == old(self).parameters,
            final(self).transform == old(self).transform,
            final(self).blend_only_affected_animations == old(
                self,
            ).blend_only_affected_animations,
            final(self).container_handle == old(self).container_handle,
    {
        let dt = if delta_time.raw < 0 {
            Fx { raw: 0 }
        } else {
            delta_time
        };
        let count = self.animations.len();
        let mut i: usize = 0;
        while i < count
            invariant
                0 <= i <= count,
                count == self.animations@.len(),
                self.animations@.len() == old(self).animations@.len(),
                *self == (crate::scene::GltfSceneInstance {
                    animations: self.animations,
                    ..(*old(self))
                }),
                forall|u: int|
                    i <= u < count ==> self.animations@[u] == old(self).animations@[u],
                forall|u: int|
                    0 <= u < i ==> {
                        let name = old(self).animations@[u].0;
                        let a0 = old(self).animations@[u].1;
                        let hi = crate::scene::handle_index(
                            database.animations@,
                            a0.animation_handle,
                        );
                        (#[trigger] self.animations@[u]).0 == name && self.animations@[u].1
                            == advanced_animation(
                            a0,
                            hi >= 0,
                            if hi >= 0 {
                                database.animations@[hi].1.duration
                            } else {
                                Fx { raw: 0 }
                            },
                            dt,
                        )
                    },
            decreases count - i,
        {
            let handle = self.animations[i].1.animation_handle;
            let found = database.find_animation(handle);
            match found {
                Option::Some(ai) => {
                    let duration = database.animations[ai].1.duration;
                    let playing = self.animations[i].1.playing;
                    if playing {
                        let a0 = &self.animations[i].1;
                        let t0 = if a0.time.raw < 0 {
                            Fx { raw: 0 }
                        } else {
                            a0.time
                        };
                        let t1 = fx_add(t0, fx_mul(dt, a0.speed));
                        let looped = a0.looped;
                        let pair = &mut self.animations[i];
                        if t1.raw > duration.raw {
                            if looped {
                                pair.1.time = fx_rem_trunc(t1, duration);
                            } else {
                                pair.1.time = duration;
                                pair.1.playing = false;
                            }
                        } else {
                            pair.1.time = t1;
                        }
                    }
                },
                Option::None => {
                },
            }
            i += 1;
        }
        let ghost advanced = self.animations@;
        proof {
            assert forall|u: int|
                0 <= u < count implies {
                let name = old(self).animations@[u].0;
                let a0 = old(self).animations@[u].1;
                let hi = crate::scene::handle_index(database.animations@, a0.animation_handle);
                &&& (#[trigger] advanced[u]).0 == name
                &&& advanced[u].1 == advanced_animation(
                    a0,
                    hi >= 0,
                    if hi >= 0 {
                        database.animations@[hi].1.duration
                    } else {
                        Fx { raw: 0 }
                    },
                    dt,
                )
            } by {
                assert(advanced[u] == self.animations@[u]);
            }
        }
        let mut tree = crate::blend::GltfAnimationNode::Unit;
        core::mem::swap(&mut tree, &mut self.animation_node);
        let tree = tree.update(dt);
        let mut blender = crate::blend::GltfAnimationBlender::new();
        let ghost params_snapshot = self.parameters@;
        tree.produce_weights(&self.parameters, Fx { raw: 1_000_000 }, &mut blender);
        let ghost tree_val = tree;
        self.animation_node = tree;
        let ghost bv = crate::blend::blender_view(blender);
        proof {
            assert(params_snapshot == old(self).parameters@);
            assert(self.animation_node == tree_val);
            assert(bv == crate::blend::accum_weights(
                Seq::<(Seq<char>, Fx)>::empty(),
                crate::blend::node_contribs(tree_val, params_snapshot, Fx { raw: 1_000_000 }),
            ));
        }
        let mut i: usize = 0;
        while i < count
            invariant
                0 <= i <= count,
                count == self.animations@.len(),
                forall|u: int|
                    i <= u < count ==> self.animations@[u] == advanced[u],
                *self == (crate::scene::GltfSceneInstance {
                    animations: self.animations,
                    animation_node: self.animation_node,
                    ..(*old(self))
                }),
                self.animation_node == tree_val,
                bv == crate::blend::blender_view(blender),
                bv == crate::blend::accum_weights(
                    Seq::<(Seq<char>, Fx)>::empty(),
                    crate::blend::node_contribs(tree_val, old(self).parameters@, Fx { raw: 1_000_000 }),
                ),
                forall|u: int|
                    0 <= u < i ==> {
                        let wi = crate::blend::weight_index(bv, advanced[u].0@);
                        let w = if wi >= 0 {
                            bv[wi].1
                        } else {
                            if old(self).blend_only_affected_animations {
                                advanced[u].1.weight
                            } else {
                                Fx { raw: 0 }
                            }
                        };
                        (#[trigger] self.animations@[u]).0@ == advanced[u].0@
                            && self.animations@[u].1 == (GltfSceneAnimation {
                            weight: w,
                            ..advanced[u].1
                        })
                    },
            decreases count - i,
        {
            let mut wi: usize = 0;
            let mut found_w: Option<Fx> = None;
            while wi < blender.animation_weights.len()
                invariant
                    0 <= wi <= blender.animation_weights@.len(),
                    found_w is None ==> forall|j: int|
                        0 <= j < wi ==> bv[j].0 != self.animations@[i as int].0@,
                    found_w matches Some(w) ==> crate::blend::weight_index(
                        bv,
                        self.animations@[i as int].0@,
                    ) >= 0 && w == bv[crate::blend::weight_index(
                        bv,
                        self.animations@[i as int].0@,
                    )].1,
                    bv == crate::blend::blender_view(blender),
                    0 <= i < count,
                decreases blender.animation_weights@.len() - wi,
            {
                if found_w.is_none() && blender.animation_weights[wi].0 == self.animations[i].0 {
                    proof {
                        crate::blend::lemma_weight_index_at(
                            bv,
                            self.animations@[i as int].0@,
                            wi as int,
                        );
                    }
                    found_w = Some(blender.animation_weights[wi].1);
                }
                wi += 1;
            }
            proof {
                if found_w is None {
                    crate::blend::lemma_weight_index_at(
                        bv,
                        self.animations@[i as int].0@,
                        bv.len() as int,
                    );
                }
            }
            let blend_only = self.blend_only_affected_animations;
            let pair = &mut self.animations[i];
            match found_w {
                Option::Some(w) => {
                    pair.1.weight = w;
                },
                Option::None => {
                    if !blend_only {
                        pair.1.weight = Fx { raw: 0 };
                    }
                },
            }
            i += 1;
        }
        proof {
            let bvp = crate::blend::accum_weights(
                Seq::<(Seq<char>, Fx)>::empty(),
                crate::blend::node_contribs(
                    self.animation_node,
                    old(self).parameters@,
                    Fx { raw: 1_000_000 },
                ),
            );
            assert(bv == bvp);
            assert forall|u: int|
                0 <= u < count implies {
                let name = old(self).animations@[u].0;
                let a0 = old(self).animations@[u].1;
                let hi = crate::scene::handle_index(database.animations@, a0.animation_handle);
                let adv = advanced_animation(
                    a0,
                    hi >= 0,
                    if hi >= 0 {
                        database.animations@[hi].1.duration
                    } else {
                        Fx { raw: 0 }
                    },
                    dt,
                );
                let wi = crate::blend::weight_index(bvp, name@);
                let w = if wi >= 0 {
                    bvp[wi].1
                } else {
                    if old(self).blend_only_affected_animations {
                        adv.weight
                    } else {
                        Fx { raw: 0 }
                    }
                };
                &&& (#[trigger] self.animations@[u]).0@ == name@
                &&& self.animations@[u].1 == (GltfSceneAnimation { weight: w, ..adv })
            } by {
                assert(advanced[u].0 == old(self).animations@[u].0);
                assert(self.animations@[u].0@ == advanced[u].0@);
            }
        }
    }

    /// Samples every animation's channels, gathers the weighted deltas
    /// per node and transform channel, composes them onto the bind
    /// poses, and recomputes all matrices.
    #[verifier::loop_isolation(false)]
    #[verifier::rlimit(100)]
    pub fn apply_animations(&mut self, database: &crate::scene::GltfAssetDatabase)
        requires
            crate::scene::parents_before(old(self).nodes@),
        ensures
            final(self).nodes@.len() == old(self).nodes@.len(),
            ({
                let gathered = gather_animations(
                    empty_state(old(self).nodes@.len() as int),
                    old(self).nodes@,
                    *database,
                    old(self).animations@,
                    old(self).animations@.len() as int,
                );
                forall|i: int|
                    0 <= i < old(self).nodes@.len() ==> {
                        &&& crate::scene::same_but_matrices(
                            #[trigger] final(self).nodes@[i],
                            (crate::scene::GltfSceneNode {
                                state: final(self).nodes@[i].state,
                                ..old(self).nodes@[i]
                            }),
                        )
                        &&& final(self).nodes@[i].state.bind_transform == old(
                            self,
                        ).nodes@[i].state.bind_transform
                        &&& final(self).nodes@[i].state.transform == combined_transform(
                            old(self).nodes@[i].state.transform,
                            old(self).nodes@[i].state.bind_transform,
                            gathered[i],
                        )
                    }
            }),
            crate::scene::matrices_consistent(final(self).nodes@, old(self).transform),
            crate::scene::parents_before(final(self).nodes@),
            final(self).roots == old(self).roots,
            final(self).animations == old(self).animations,
            final(self).parameters == old(self).parameters,
            final(self).animation_node == old(self).animation_node,
            final(self).transform == old(self).transform,
            final(self).blend_only_affected_animations == old(
                self,
            ).blend_only_affected_animations,
            final(self).container_handle == old(self).container_handle,
    {
        let n = self.nodes.len();
        let mut state: Vec<GltfNodeDeltas> = Vec::new();
        let mut i: usize = 0;
        while i < n
            invariant
                0 <= i <= n,
                state@.len() == i,
                forall|k: int|
                    0 <= k < i ==> {
                        &&& (#[trigger] state@[k]).translations@ == Seq::<(Vec3, Fx)>::empty()
                        &&& state@[k].rotations@ == Seq::<(Quat, Fx)>::empty()
                        &&& state@[k].scales@ == Seq::<(Vec3, Fx)>::empty()
                    },
            decreases n - i,
        {
            state.push(
                GltfNodeDeltas {
                    translations: Vec::new(),
                    rotations: Vec::new(),
                    scales: Vec::new(),
                },
            );
            i += 1;
        }
        proof {
            assert forall|k: int|
                0 <= k < n implies state_view(state@)[k] == empty_state(n as int)[k] by {
                assert(deltas_view(state@[k]) == (
                    Seq::<(Vec3, Fx)>::empty(),
                    Seq::<(Quat, Fx)>::empty(),
                    Seq::<(Vec3, Fx)>::empty(),
                ));
            }
            assert(state_view(state@) =~= empty_state(n as int));
        }
        let acount = self.animations.len();
        let mut j: usize = 0;
        while j < acount
            invariant
                0 <= j <= acount,
                acount == self.animations@.len(),
                state@.len() == n,
                n == self.nodes@.len(),
                state_view(state@) == gather_animations(
                    empty_state(n as int),
                    self.nodes@,
                    *database,
                    self.animations@,
                    j as int,
                ),
            decreases acount - j,
        {
            let handle = self.animations[j].1.animation_handle;
            let playing = self.animations[j].1.playing;
            match database.find_animation(handle) {
                Option::Some(ai) => if playing {
                    let duration = database.animations[ai].1.duration;
                    let ccount = database.animations[ai].1.channels.len();
                    let mut k: usize = 0;
                    while k < ccount
                        invariant
                            0 <= k <= ccount,
                            0 <= j < acount,
                            state@.len() == n,
                            ai as int == crate::scene::handle_index(database.animations@, handle),
                            0 <= ai < database.animations@.len(),
                            handle == self.animations@[j as int].1.animation_handle,
                            duration == database.animations@[ai as int].1.duration,
                            ccount == database.animations@[ai as int].1.channels@.len(),
                            state_view(state@) == gather_channels(
                                gather_animations(
                                    empty_state(n as int),
                                    self.nodes@,
                                    *database,
                                    self.animations@,
                                    j as int,
                                ),
                                self.nodes@,
                                self.animations@[j as int].1,
                                duration,
                                database.animations@[ai as int].1.channels@,
                                k as int,
                            ),
                        decreases ccount - k,
                    {
                        let ch = &database.animations[ai].1.channels[k];
                        apply_channel(&mut state, &self.nodes, &self.animations[j].1, duration, ch);
                        k += 1;
                    }
                },
                _ => {
                },
            }
            j += 1;
        }
        let mut i: usize = 0;
        let ghost gathered = state_view(state@);
        while i < n
            invariant
                0 <= i <= n,
                n == self.nodes@.len(),
                self.nodes@.len() == old(self).nodes@.len(),
                state@.len() == n,
                gathered == state_view(state@),
                *self == (crate::scene::GltfSceneInstance { nodes: self.nodes, ..(*old(self)) }),
                crate::scene::parents_before(self.nodes@),
                forall|u: int|
                    i <= u < n ==> self.nodes@[u] == old(self).nodes@[u],
                forall|u: int|
                    0 <= u < i ==> {
                        &&& crate::scene::same_but_matrices(
                            #[trigger] self.nodes@[u],
                            (crate::scene::GltfSceneNode {
                                state: self.nodes@[u].state,
                                ..old(self).nodes@[u]
                            }),
                        )
                        &&& self.nodes@[u].state == (crate::scene::GltfSceneTransform {
                            transform: combined_transform(
                                old(self).nodes@[u].state.transform,
                                old(self).nodes@[u].state.bind_transform,
                                gathered[u],
                            ),
                            ..old(self).nodes@[u].state
                        })
                    },
            decreases n - i,
        {
            let bind = self.nodes[i].state.bind_transform;
            let current = self.nodes[i].state.transform;
            let composed = apply_deltas(&current, &bind, &state[i]);
            let mut record = self.nodes[i].clone_node();
            record.state.transform = composed;
            self.nodes.set(i, record);
            i += 1;
        }
        self.recompute_matrices();
    }

    /// Advances and applies the animations in one call, the per-frame
    /// order the engine expects: the animations end as the update step
    /// leaves them, and every node's pose is the composition of the
    /// deltas those updated animations sample.
    pub fn update_and_apply_animations(&mut self, delta_time: Fx, database:
        &crate::scene::GltfAssetDatabase)
        requires
            crate::scene::parents_before(old(self).nodes@),
        ensures
            ({
                let dt = if delta_time.raw < 0 {
                    Fx { raw: 0 }
                } else {
                    delta_time
                };
                let bv = crate::blend::accum_weights(
                    Seq::<(Seq<char>, Fx)>::empty(),
                    crate::blend::node_contribs(
                        final(self).animation_node,
                        old(self).parameters@,
                        Fx { raw: 1_000_000 },
                    ),
                );
                let gathered = gather_animations(
                    empty_state(old(self).nodes@.len() as int),
                    old(self).nodes@,
                    *database,
                    final(self).animations@,
                    final(self).animations@.len() as int,
                );
                &&& crate::blend::updated_node(
                    old(self).animation_node,
                    final(self).animation_node,
                    dt,
                )
                &&& animations_updated(
                    old(self).animations@,
                    final(self).animations@,
                    bv,
                    *database,
                    dt,
                    old(self).blend_only_affected_animations,
                )
                &&& forall|i: int|
                    0 <= i < old(self).nodes@.len() ==> {
                        &&& crate::scene::same_but_matrices(
                            #[trigger] final(self).nodes@[i],
                            (crate::scene::GltfSceneNode {
                                state: final(self).nodes@[i].state,
                                ..old(self).nodes@[i]
                            }),
                        )
                        &&& final(self).nodes@[i].state.bind_transform == old(
                            self,
                        ).nodes@[i].state.bind_transform
                        &&& final(self).nodes@[i].state.transform == combined_transform(
                            old(self).nodes@[i].state.transform,
                            old(self).nodes@[i].state.bind_transform,
                            gathered[i],
                        )
                    }
            }),
            final(self).nodes@.len() == old(self).nodes@.len(),
            crate::scene::matrices_consistent(final(self).nodes@, old(self).transform),
            crate::scene::parents_before(final(self).nodes@),
            final(self).roots == old(self).roots,
            final(self).parameters == old(self).parameters,
            final(self).transform == old(self).transform,
            final(self).blend_only_affected_animations == old(
                self,
            ).blend_only_affected_animations,
            final(self).container_handle == old(self).container_handle,
    {
        self.update_animations(delta_time, database);
        let ghost mid = *self;
        self.apply_animations(database);
        proof {
            assert(mid.nodes == old(self).nodes);
            assert(mid.animations@ == final(self).animations@);
            assert(mid.parameters@ == old(self).parameters@);
        }
    }
}

} // verus!
