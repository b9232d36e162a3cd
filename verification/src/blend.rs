//! The animation blend tree.
//!
//! A tree of composable nodes maps named clips to scalar weights each
//! frame: a target names one clip, a mixer sums weighted children, a
//! parametric blend space weighs its sample points by inverse squared
//! distance to the current parameter coordinate, and a transition
//! crossfades named layers toward their activation state at a bounded
//! speed.

use crate::fixed::{fx_add, fx_add_spec, fx_clamp01, fx_clamp01_spec, fx_div, fx_div_spec, fx_mul,
    fx_mul_spec, fx_sqrt, fx_sqrt_spec, fx_sub, fx_sub_spec, Fx, FX_SCALE};
use crate::playback::GltfAnimationParameter;
use vstd::prelude::*;

verus! {

/// Distances at most this many raw units (one millionth of a unit)
/// count as an exact hit on a blend-space point.
pub const BLEND_SPACE_EPSILON_RAW: i64 = 1;

/// A terminal node: contributes the whole master weight to one clip.
#[derive(Clone, Debug, PartialEq, Eq, Hash)]
pub struct GltfAnimationTarget(pub String);

impl GltfAnimationTarget {
    /// A target naming the given clip.
    pub fn new(name: String) -> (r: GltfAnimationTarget)
        ensures
            r.0 == name,
    {
        GltfAnimationTarget(name)
    }
}

/// Where a mixer layer's weight comes from: a constant, or a named
/// parameter read at evaluation time.
#[derive(Clone, Debug)]
pub enum GltfAnimationMixerLayerWeight {
    Fixed(Fx),
    Parameter(String),
}

impl GltfAnimationMixerLayerWeight {
    /// A constant layer weight.
    pub fn fixed(weight: Fx) -> (r: GltfAnimationMixerLayerWeight)
        ensures
            r == GltfAnimationMixerLayerWeight::Fixed(weight),
    {
        GltfAnimationMixerLayerWeight::Fixed(weight)
    }

    /// A layer weight read from the named parameter.
    pub fn parameter(name: String) -> (r: GltfAnimationMixerLayerWeight)
        ensures
            r == GltfAnimationMixerLayerWeight::Parameter(name),
    {
        GltfAnimationMixerLayerWeight::Parameter(name)
    }
}

/// One mixer layer: a weight source and a child node.
#[derive(Debug)]
pub struct GltfAnimationMixerLayer {
    pub weight: GltfAnimationMixerLayerWeight,
    pub node: GltfAnimationNode,
}

impl GltfAnimationMixerLayer {
    /// A layer of the given weight source and child.
    pub fn new(weight: GltfAnimationMixerLayerWeight, node: GltfAnimationNode) -> (r:
        GltfAnimationMixerLayer)
        ensures
            r == (GltfAnimationMixerLayer { weight, node }),
    {
        GltfAnimationMixerLayer { weight, node }
    }
}

/// A weighted sum of child nodes.
#[derive(Debug)]
pub struct GltfAnimationMixer {
    pub layers: Vec<GltfAnimationMixerLayer>,
}

/// One sample point of a blend space: its coordinate and child node.
#[derive(Debug)]
pub struct GltfAnimationBlendSpacePoint {
    pub parameters: Vec<Fx>,
    pub node: GltfAnimationNode,
}

impl GltfAnimationBlendSpacePoint {
    /// A sample point at the given coordinate.
    pub fn new(parameters: Vec<Fx>, node: GltfAnimationNode) -> (r: GltfAnimationBlendSpacePoint)
        ensures
            r == (GltfAnimationBlendSpacePoint { parameters, node }),
    {
        GltfAnimationBlendSpacePoint { parameters, node }
    }
}

/// A parametric blend space: named parameters form a coordinate, and
/// sample points are weighed by inverse squared distance to it.
#[derive(Debug)]
pub struct GltfAnimationBlendSpace {
    pub parameters: Vec<String>,
    pub points: Vec<GltfAnimationBlendSpacePoint>,
}

/// One crossfade layer of a transition: a name, a child node and the
/// smoothed current weight.
#[derive(Debug)]
pub struct GltfAnimationTransitionLayer {
    pub name: String,
    pub node: GltfAnimationNode,
    pub current_weight: Fx,
}

/// A named-layer crossfade: active layers (or the default layer when
/// none is active) fade toward one, the rest toward zero, moving at
/// most `change_speed` per unit of time.
#[derive(Debug)]
pub struct GltfAnimationTransition {
    pub layers: Vec<GltfAnimationTransitionLayer>,
    pub active_layers: Vec<String>,
    pub default_layer: String,
    pub change_speed: Fx,
}

/// A blend-tree node.
#[derive(Debug)]
pub enum GltfAnimationNode {
    Unit,
    Target(GltfAnimationTarget),
    Mixer(GltfAnimationMixer),
    BlendSpace(GltfAnimationBlendSpace),
    Transition(GltfAnimationTransition),
}

/// Accumulated clip weights, by clip name.
#[derive(Debug)]
pub struct GltfAnimationBlender {
    pub animation_weights: Vec<(String, Fx)>,
}

/// The accumulated weights as name and value pairs.
pub open spec fn blender_view(b: GltfAnimationBlender) -> Seq<(Seq<char>, Fx)> {
    Seq::new(b.animation_weights@.len(), |i: int| (b.animation_weights@[i].0@,
    b.animation_weights@[i].1))
}

/// The first position of `name` in the weight map, or `-1`.
pub open spec fn weight_index(s: Seq<(Seq<char>, Fx)>, name: Seq<char>) -> int
    decreases s.len(),
{
    if s.len() == 0 {
        -1
    } else if s[0].0 == name {
        0
    } else {
        let r = weight_index(s.drop_first(), name);
        if r < 0 {
            -1
        } else {
            1 + r
        }
    }
}

/// A position with no earlier occurrence and an occurrence (or the end,
/// standing for absence) pins down `weight_index`.
pub proof fn lemma_weight_index_at(s: Seq<(Seq<char>, Fx)>, name: Seq<char>, i: int)
    requires
        0 <= i <= s.len(),
        forall|j: int| 0 <= j < i ==> s[j].0 != name,
        i < s.len() ==> s[i].0 == name,
    ensures
        i < s.len() ==> weight_index(s, name) == i,
        i == s.len() ==> weight_index(s, name) == -1,
    decreases s.len(),
{
    if s.len() == 0 {
    } else if s[0].0 == name {
    } else {
        assert(forall|j: int| 0 <= j < i - 1 ==> s.drop_first()[j].0 != name);
        lemma_weight_index_at(s.drop_first(), name, i - 1);
    }
}

/// One clip's contribution folded into the weight map: added onto an
/// existing row of that name, or appended as a new row.
pub open spec fn add_weight(s: Seq<(Seq<char>, Fx)>, name: Seq<char>, w: Fx) -> Seq<
    (Seq<char>, Fx),
> {
    let i = weight_index(s, name);
    if 0 <= i < s.len() {
        s.update(i, (name, fx_add_spec(s[i].1, w)))
    } else {
        s.push((name, w))
    }
}

/// A list of contributions folded into the weight map left to right.
pub open spec fn accum_weights(s: Seq<(Seq<char>, Fx)>, ws: Seq<(Seq<char>, Fx)>) -> Seq<
    (Seq<char>, Fx),
>
    decreases ws.len(),
{
    if ws.len() == 0 {
        s
    } else {
        accum_weights(add_weight(s, ws[0].0, ws[0].1), ws.drop_first())
    }
}

/// Folding a concatenation is folding the parts in turn.
pub proof fn lemma_accum_append(s: Seq<(Seq<char>, Fx)>, a: Seq<(Seq<char>, Fx)>, b: Seq<
    (Seq<char>, Fx),
>)
    ensures
        accum_weights(s, a + b) == accum_weights(accum_weights(s, a), b),
    decreases a.len(),
{
    if a.len() == 0 {
        assert(a + b =~= b);
    } else {
        assert((a + b).drop_first() =~= a.drop_first() + b);
        assert((a + b)[0] == a[0]);
        lemma_accum_append(add_weight(s, a[0].0, a[0].1), a.drop_first(), b);
    }
}

impl GltfAnimationBlender {
    /// An empty weight map.
    pub fn new() -> (r: GltfAnimationBlender)
        ensures
            blender_view(r) == Seq::<(Seq<char>, Fx)>::empty(),
    {
        let r = GltfAnimationBlender { animation_weights: Vec::new() };
        proof {
            assert(blender_view(r) =~= Seq::<(Seq<char>, Fx)>::empty());
        }
        r
    }

    /// Adds `weight` to the named clip's row, creating it at zero first
    /// if it is new.
    pub fn animation(&mut self, name: &str, weight: Fx)
        ensures
            blender_view(*final(self)) == add_weight(blender_view(*old(self)), name@, weight),
    {
        let owned = String::from_str(name);
        let mut i: usize = 0;
        while i < self.animation_weights.len()
            invariant
                0 <= i <= self.animation_weights.len(),
                forall|j: int| 0 <= j < i ==> blender_view(*self)[j].0 != owned@,
                owned@ == name@,
                *self == *old(self),
            decreases self.animation_weights.len() - i,
        {
            if self.animation_weights[i].0 == owned {
                proof {
                    lemma_weight_index_at(blender_view(*self), name@, i as int);
                }
                let updated = fx_add(self.animation_weights[i].1, weight);
                let key = self.animation_weights[i].0.clone();
                self.animation_weights.set(i, (key, updated));
                proof {
                    assert(blender_view(*self) =~= add_weight(
                        blender_view(*old(self)),
                        name@,
                        weight,
                    ));
                }
                return ;
            }
            i += 1;
        }
        proof {
            lemma_weight_index_at(blender_view(*self), name@, self.animation_weights@.len() as int);
        }
        self.animation_weights.push((owned, weight));
        proof {
            assert(blender_view(*self) =~= add_weight(blender_view(*old(self)), name@, weight));
        }
    }
}

/// The value of the named parameter, or zero when it is absent.
pub open spec fn param_value(params: Seq<(String, GltfAnimationParameter)>, name: Seq<char>) -> Fx
    decreases params.len(),
{
    if params.len() == 0 {
        Fx { raw: 0 }
    } else if params[0].0@ == name {
        params[0].1.spec_get()
    } else {
        param_value(params.drop_first(), name)
    }
}

/// Reads the named parameter from the table, defaulting to zero.
pub fn lookup_param(params: &Vec<(String, GltfAnimationParameter)>, name: &String) -> (r: Fx)
    ensures
        r == param_value(params@, name@),
{
    let mut i: usize = 0;
    proof {
        assert(params@.skip(0int) =~= params@);
    }
    while i < params.len()
        invariant
            0 <= i <= params.len(),
            param_value(params@, name@) == param_value(params@.skip(i as int), name@),
        decreases params.len() - i,
    {
        proof {
            assert(params@.skip(i as int).drop_first() =~= params@.skip(i + 1));
            assert(params@.skip(i as int)[0] == params@[i as int]);
        }
        if params[i].0 == *name {
            return params[i].1.get();
        }
        i += 1;
    }
    proof {
        assert(params@.skip(params@.len() as int) =~= Seq::<(String, GltfAnimationParameter)>::empty());
    }
    Fx { raw: 0 }
}

/// Sum of squared coordinate differences over the first `k` axes,
/// folded left to right.
pub open spec fn sq_dist_upto(a: Seq<Fx>, b: Seq<Fx>, k: int) -> Fx
    decreases k,
{
    if k <= 0 {
        Fx { raw: 0 }
    } else {
        let c = if k - 1 < b.len() {
            b[k - 1]
        } else {
            Fx { raw: 0 }
        };
        let d = fx_sub_spec(a[k - 1], c);
        fx_add_spec(sq_dist_upto(a, b, k - 1), fx_mul_spec(d, d))
    }
}

/// The distance from a sample point's coordinate to `coords`.
pub open spec fn point_distance(p: GltfAnimationBlendSpacePoint, coords: Seq<Fx>) -> Fx {
    fx_sqrt_spec(sq_dist_upto(p.parameters@, coords, p.parameters@.len() as int))
}

/// The current coordinate of a blend space: its parameters' values.
pub open spec fn space_coords(s: GltfAnimationBlendSpace, params: Seq<
    (String, GltfAnimationParameter),
>) -> Seq<Fx> {
    Seq::new(s.parameters@.len(), |i: int| param_value(params, s.parameters@[i]@))
}

/// The distance of each sample point to the current coordinate.
pub open spec fn space_distances(s: GltfAnimationBlendSpace, params: Seq<
    (String, GltfAnimationParameter),
>) -> Seq<Fx> {
    Seq::new(s.points@.len(), |i: int| point_distance(s.points@[i], space_coords(s, params)))
}

/// The first index whose distance is within the hit threshold, or `-1`.
pub open spec fn first_hit(dists: Seq<Fx>) -> int
    decreases dists.len(),
{
    if dists.len() == 0 {
        -1
    } else if dists[0].raw <= BLEND_SPACE_EPSILON_RAW {
        0
    } else {
        let r = first_hit(dists.drop_first());
        if r < 0 {
            -1
        } else {
            1 + r
        }
    }
}

/// A position with no earlier hit and a hit (or the end, standing for
/// no hit) pins down `first_hit`.
pub proof fn lemma_first_hit_at(dists: Seq<Fx>, i: int)
    requires
        0 <= i <= dists.len(),
        forall|j: int| 0 <= j < i ==> dists[j].raw > BLEND_SPACE_EPSILON_RAW,
        i < dists.len() ==> dists[i].raw <= BLEND_SPACE_EPSILON_RAW,
    ensures
        i < dists.len() ==> first_hit(dists) == i,
        i == dists.len() ==> first_hit(dists) == -1,
    decreases dists.len(),
{
    if dists.len() == 0 {
    } else if dists[0].raw <= BLEND_SPACE_EPSILON_RAW {
    } else {
        assert(forall|j: int|
            0 <= j < i - 1 ==> dists.drop_first()[j].raw > BLEND_SPACE_EPSILON_RAW);
        lemma_first_hit_at(dists.drop_first(), i - 1);
    }
}

/// The raw (unnormalized) weight of a point: one over its squared
/// distance.
pub open spec fn raw_point_weight(d: Fx) -> Fx {
    fx_div_spec(Fx { raw: FX_SCALE }, fx_mul_spec(d, d))
}

/// The saturating sum of the first `k` raw weights.
pub open spec fn raw_weight_total(raws: Seq<Fx>, k: int) -> Fx
    decreases k,
{
    if k <= 0 {
        Fx { raw: 0 }
    } else {
        fx_add_spec(raw_weight_total(raws, k - 1), raws[k - 1])
    }
}

/// The weight vector of a blend space at the current parameters: one-hot
/// on the first point hit exactly (within the epsilon), otherwise each
/// point's inverse squared distance normalized by the total and clamped
/// into the unit interval.
pub open spec fn blend_space_weights(s: GltfAnimationBlendSpace, params: Seq<
    (String, GltfAnimationParameter),
>) -> Seq<Fx> {
    let dists = space_distances(s, params);
    let hit = first_hit(dists);
    if hit >= 0 {
        Seq::new(dists.len(), |i: int|
            if i == hit {
                Fx { raw: FX_SCALE }
            } else {
                Fx { raw: 0 }
            },
        )
    } else {
        let raws = Seq::new(dists.len(), |i: int| raw_point_weight(dists[i]));
        let total = raw_weight_total(raws, raws.len() as int);
        Seq::new(dists.len(), |i: int| fx_clamp01_spec(fx_div_spec(raws[i], total)))
    }
}

/// What a node contributes to the weight map under a master weight:
/// the flat list of (clip name, weight) pairs, in evaluation order.
pub open spec fn node_contribs(n: GltfAnimationNode, params: Seq<(String, GltfAnimationParameter)>,
    master: Fx) -> Seq<(Seq<char>, Fx)>
    decreases n,
{
    match n {
        GltfAnimationNode::Unit => Seq::empty(),
        GltfAnimationNode::Target(t) => seq![(t.0@, master)],
        GltfAnimationNode::Mixer(m) => mixer_contribs(m.layers@, params, master),
        GltfAnimationNode::BlendSpace(s) => points_contribs(
            s.points@,
            blend_space_weights(s, params),
            params,
            master,
        ),
        GltfAnimationNode::Transition(t) => transition_contribs(t.layers@, params, master),
    }
}

/// The concatenated contributions of mixer layers, each under the
/// master weight times its layer weight.
pub open spec fn mixer_contribs(layers: Seq<GltfAnimationMixerLayer>, params: Seq<
    (String, GltfAnimationParameter),
>, master: Fx) -> Seq<(Seq<char>, Fx)>
    decreases layers,
{
    if layers.len() == 0 {
        Seq::empty()
    } else {
        node_contribs(
            layers[0].node,
            params,
            fx_mul_spec(master, layer_weight_spec(layers[0].weight, params)),
        ) + mixer_contribs(layers.drop_first(), params, master)
    }
}

/// The concatenated contributions of blend-space points, each under its
/// weight times the master weight.
pub open spec fn points_contribs(points: Seq<GltfAnimationBlendSpacePoint>, ws: Seq<Fx>,
    params: Seq<(String, GltfAnimationParameter)>, master: Fx) -> Seq<(Seq<char>, Fx)>
    decreases points,
{
    if points.len() == 0 {
        Seq::empty()
    } else {
        node_contribs(points[0].node, params, fx_mul_spec(ws[0], master)) + points_contribs(
            points.drop_first(),
            ws.drop_first(),
            params,
            master,
        )
    }
}

/// The concatenated contributions of transition layers, each under the
/// master weight times its smoothed current weight.
pub open spec fn transition_contribs(layers: Seq<GltfAnimationTransitionLayer>, params: Seq<
    (String, GltfAnimationParameter),
>, master: Fx) -> Seq<(Seq<char>, Fx)>
    decreases layers,
{
    if layers.len() == 0 {
        Seq::empty()
    } else {
        node_contribs(layers[0].node, params, fx_mul_spec(master, layers[0].current_weight))
            + transition_contribs(layers.drop_first(), params, master)
    }
}

/// A mixer layer's weight: its constant, or the named parameter's value.
pub open spec fn layer_weight_spec(w: GltfAnimationMixerLayerWeight, params: Seq<
    (String, GltfAnimationParameter),
>) -> Fx {
    match w {
        GltfAnimationMixerLayerWeight::Fixed(v) => v,
        GltfAnimationMixerLayerWeight::Parameter(name) => param_value(params, name@),
    }
}

impl GltfAnimationMixerLayerWeight {
    /// Evaluates the weight source against the parameter table.
    pub fn get(&self, params: &Vec<(String, GltfAnimationParameter)>) -> (r: Fx)
        ensures
            r == layer_weight_spec(*self, params@),
    {
        match self {
            GltfAnimationMixerLayerWeight::Fixed(v) => *v,
            GltfAnimationMixerLayerWeight::Parameter(name) => lookup_param(params, name),
        }
    }
}

/// One smoothing step: the weight moves from `c` toward `t` by at most
/// `s`, then is clamped into the unit interval.
pub open spec fn move_toward_spec(c: Fx, t: Fx, s: Fx) -> Fx {
    let d = fx_sub_spec(t, c);
    let stepped = if d.raw >= 0 {
        if d.raw <= s.raw {
            t
        } else {
            fx_add_spec(c, s)
        }
    } else {
        if -d.raw <= s.raw {
            t
        } else {
            fx_sub_spec(c, s)
        }
    };
    fx_clamp01_spec(stepped)
}

/// Moves a weight toward a target by at most `step`, clamped into the
/// unit interval.
pub fn move_toward(c: Fx, t: Fx, s: Fx) -> (r: Fx)
    ensures
        r == move_toward_spec(c, t, s),
{
    let d = fx_sub(t, c);
    let stepped = if d.raw >= 0 {
        if d.raw <= s.raw {
            t
        } else {
            fx_add(c, s)
        }
    } else {
        if -d.raw <= s.raw {
            t
        } else {
            fx_sub(c, s)
        }
    };
    fx_clamp01(stepped)
}

/// Whether `name` is in the list of names.
pub open spec fn names_contain(names: Seq<String>, name: Seq<char>) -> bool {
    exists|i: int| 0 <= i < names.len() && names[i]@ == name
}

fn lookup_name(names: &Vec<String>, name: &String) -> (r: bool)
    ensures
        r == names_contain(names@, name@),
{
    let mut i: usize = 0;
    while i < names.len()
        invariant
            0 <= i <= names@.len(),
            forall|j: int| 0 <= j < i ==> names@[j]@ != name@,
        decreases names@.len() - i,
    {
        if names[i] == *name {
            return true;
        }
        i += 1;
    }
    false
}

/// A transition layer's target weight: one when the layer is active
/// (or is the default layer while none is active), else zero.
pub open spec fn layer_target_spec(t: GltfAnimationTransition, layer: GltfAnimationTransitionLayer,
) -> Fx {
    let active = if t.active_layers@.len() == 0 {
        layer.name@ == t.default_layer@
    } else {
        names_contain(t.active_layers@, layer.name@)
    };
    if active {
        Fx { raw: FX_SCALE }
    } else {
        Fx { raw: 0 }
    }
}

/// An activated transition layer's weight climbs toward one without
/// leaving the unit interval: one smoothing step never moves it down,
/// adds exactly the step size while the gap exceeds it, and lands
/// exactly on one as soon as the remaining gap is within the step.
pub proof fn lemma_transition_layer_approach(c: Fx, s: Fx)
    requires
        0 <= c.raw <= FX_SCALE,
        s.raw >= 0,
    ensures
        ({
            let r = move_toward_spec(c, Fx { raw: FX_SCALE }, s);
            &&& c.raw <= r.raw <= FX_SCALE
            &&& r.raw == if FX_SCALE - c.raw <= s.raw {
                FX_SCALE as int
            } else {
                c.raw + s.raw
            }
        }),
{
}

/// A deactivated layer's weight falls toward zero the same way.
pub proof fn lemma_transition_layer_release(c: Fx, s: Fx)
    requires
        0 <= c.raw <= FX_SCALE,
        s.raw >= 0,
    ensures
        ({
            let r = move_toward_spec(c, Fx { raw: 0 }, s);
            &&& 0 <= r.raw <= c.raw
            &&& r.raw == if c.raw <= s.raw {
                0int
            } else {
                c.raw - s.raw
            }
        }),
{
}

/// Whether `b` is `a` after one update step of `delta_time`: transition
/// layers move their current weights toward their targets by at most
/// `change_speed * delta_time` (and recurse); every other node keeps
/// its own data and only recurses into children.
pub open spec fn updated_node(a: GltfAnimationNode, b: GltfAnimationNode, dt: Fx) -> bool
    decreases a,
{
    match a {
        GltfAnimationNode::Unit => b is Unit,
        GltfAnimationNode::Target(t) => b == GltfAnimationNode::Target(t),
        GltfAnimationNode::Mixer(m) => {
            &&& b is Mixer
            &&& b->Mixer_0.layers@.len() == m.layers@.len()
            &&& forall|i: int|
                0 <= i < m.layers@.len() ==> {
                    &&& (#[trigger] b->Mixer_0.layers@[i]).weight == m.layers@[i].weight
                    &&& updated_node(m.layers@[i].node, b->Mixer_0.layers@[i].node, dt)
                }
        },
        GltfAnimationNode::BlendSpace(s) => {
            &&& b is BlendSpace
            &&& b->BlendSpace_0.parameters@ == s.parameters@
            &&& b->BlendSpace_0.points@.len() == s.points@.len()
            &&& forall|i: int|
                0 <= i < s.points@.len() ==> {
                    &&& (#[trigger] b->BlendSpace_0.points@[i]).parameters@ == s.points@[
                        i
                    ].parameters@
                    &&& updated_node(s.points@[i].node, b->BlendSpace_0.points@[i].node, dt)
                }
        },
        GltfAnimationNode::Transition(t) => {
            &&& b is Transition
            &&& b->Transition_0.active_layers@ == t.active_layers@
            &&& b->Transition_0.default_layer@ == t.default_layer@
            &&& b->Transition_0.change_speed == t.change_speed
            &&& b->Transition_0.layers@.len() == t.layers@.len()
            &&& forall|i: int|
                0 <= i < t.layers@.len() ==> {
                    &&& (#[trigger] b->Transition_0.layers@[i]).name@ == t.layers@[i].name@
                    &&& b->Transition_0.layers@[i].current_weight == move_toward_spec(
                        t.layers@[i].current_weight,
                        layer_target_spec(t, t.layers@[i]),
                        fx_mul_spec(t.change_speed, dt),
                    )
                    &&& updated_node(t.layers@[i].node, b->Transition_0.layers@[i].node, dt)
                }
        },
    }
}

impl GltfAnimationBlendSpace {
    /// Evaluates the weight of every sample point at the current
    /// parameter values.
    pub fn point_weights(&self, params: &Vec<(String, GltfAnimationParameter)>) -> (r: Vec<Fx>)
        ensures
            r@ == blend_space_weights(*self, params@),
    {
        let ghost coords_spec = space_coords(*self, params@);
        let mut coords: Vec<Fx> = Vec::new();
        let mut i: usize = 0;
        while i < self.parameters.len()
            invariant
                0 <= i <= self.parameters@.len(),
                coords@ =~= coords_spec.take(i as int),
                coords_spec == space_coords(*self, params@),
            decreases self.parameters@.len() - i,
        {
            let v = lookup_param(params, &self.parameters[i]);
            coords.push(v);
            proof {
                assert(coords@ =~= coords_spec.take(i + 1));
            }
            i += 1;
        }
        proof {
            assert(coords@ =~= coords_spec);
        }
        let ghost dists_spec = space_distances(*self, params@);
        let mut dists: Vec<Fx> = Vec::new();
        let mut p: usize = 0;
        while p < self.points.len()
            invariant
                0 <= p <= self.points@.len(),
                dists@ =~= dists_spec.take(p as int),
                dists_spec == space_distances(*self, params@),
                coords@ == space_coords(*self, params@),
            decreases self.points@.len() - p,
        {
            let point = &self.points[p];
            let mut sum = Fx { raw: 0 };
            let mut k: usize = 0;
            while k < point.parameters.len()
                invariant
                    0 <= k <= point.parameters@.len(),
                    sum == sq_dist_upto(point.parameters@, coords@, k as int),
                decreases point.parameters@.len() - k,
            {
                let c = if k < coords.len() {
                    coords[k]
                } else {
                    Fx { raw: 0 }
                };
                let d = fx_sub(point.parameters[k], c);
                sum = fx_add(sum, fx_mul(d, d));
                k += 1;
            }
            let dist = fx_sqrt(sum);
            dists.push(dist);
            proof {
                assert(dists@ =~= dists_spec.take(p + 1));
            }
            p += 1;
        }
        proof {
            assert(dists@ =~= dists_spec);
        }
        let mut hit: Option<usize> = None;
        let mut h: usize = 0;
        while h < dists.len()
            invariant
                0 <= h <= dists@.len(),
                hit is None ==> forall|j: int| 0 <= j < h ==> dists@[j].raw
                    > BLEND_SPACE_EPSILON_RAW,
                hit is Some ==> {
                    &&& (hit->0 as int) < dists@.len()
                    &&& first_hit(dists@) == hit->0 as int
                },
            decreases dists@.len() - h,
        {
            if hit.is_none() && dists[h].raw <= BLEND_SPACE_EPSILON_RAW {
                proof {
                    lemma_first_hit_at(dists@, h as int);
                }
                hit = Some(h);
            }
            h += 1;
        }
        proof {
            if hit is None {
                lemma_first_hit_at(dists@, dists@.len() as int);
            }
        }
        match hit {
            Some(found) => {
                let mut out: Vec<Fx> = Vec::new();
                let mut w: usize = 0;
                while w < dists.len()
                    invariant
                        0 <= w <= dists@.len(),
                        found < dists@.len(),
                        first_hit(dists@) == found as int,
                        out@.len() == w as int,
                        forall|j: int|
                            0 <= j < w ==> out@[j] == if j == found as int {
                                Fx { raw: FX_SCALE }
                            } else {
                                Fx { raw: 0 }
                            },
                    decreases dists@.len() - w,
                {
                    if w == found {
                        out.push(Fx { raw: FX_SCALE });
                    } else {
                        out.push(Fx { raw: 0 });
                    }
                    w += 1;
                }
                proof {
                    assert(out@ =~= blend_space_weights(*self, params@));
                }
                out
            },
            None => {
                let ghost raws_spec = Seq::new(dists@.len(), |i: int| raw_point_weight(dists@[i]));
                let mut raws: Vec<Fx> = Vec::new();
                let mut total = Fx { raw: 0 };
                let mut w: usize = 0;
                while w < dists.len()
                    invariant
                        0 <= w <= dists@.len(),
                        raws@ =~= raws_spec.take(w as int),
                        raws_spec == Seq::new(dists@.len(), |i: int| raw_point_weight(dists@[i])),
                        total == raw_weight_total(raws_spec, w as int),
                    decreases dists@.len() - w,
                {
                    proof {
                        assert(raws_spec[w as int] == raw_point_weight(dists@[w as int]));
                    }
                    let raw = fx_div(Fx { raw: FX_SCALE }, fx_mul(dists[w], dists[w]));
                    total = fx_add(total, raw);
                    raws.push(raw);
                    proof {
                        assert(raws@ =~= raws_spec.take(w + 1));
                        assert(total == fx_add_spec(
                            raw_weight_total(raws_spec, w as int),
                            raws_spec[w as int],
                        ));
                    }
                    w += 1;
                }
                let mut out: Vec<Fx> = Vec::new();
                let mut v: usize = 0;
                proof {
                    assert(raws@ =~= raws_spec);
                }
                while v < raws.len()
                    invariant
                        0 <= v <= raws@.len(),
                        raws@ == raws_spec,
                        raws_spec == Seq::new(dists@.len(), |i: int| raw_point_weight(dists@[i])),
                        total == raw_weight_total(raws_spec, raws_spec.len() as int),
                        out@.len() == v as int,
                        forall|j: int|
                            0 <= j < v ==> out@[j] == fx_clamp01_spec(
                                fx_div_spec(raws_spec[j], total),
                            ),
                    decreases raws@.len() - v,
                {
                    out.push(fx_clamp01(fx_div(raws[v], total)));
                    v += 1;
                }
                proof {
                    assert(out@ =~= blend_space_weights(*self, params@));
                }
                out
            },
        }
    }
}

impl GltfAnimationNode {
    /// Advances the tree by `delta_time`: every transition layer's
    /// current weight moves toward its target by at most
    /// `change_speed * delta_time`, and children are updated in turn.
    #[verifier::loop_isolation(false)]
    pub fn update(self, delta_time: Fx) -> (r: GltfAnimationNode)
        ensures
            updated_node(self, r, delta_time),
        decreases self,
    {
        let ghost g = self;
        match self {
            GltfAnimationNode::Unit => GltfAnimationNode::Unit,
            GltfAnimationNode::Target(t) => GltfAnimationNode::Target(t),
            GltfAnimationNode::Mixer(m) => {
                let ghost orig = m.layers@;
                let mut rest = m.layers;
                let mut out: Vec<GltfAnimationMixerLayer> = Vec::new();
                proof {
                    assert(rest@ =~= orig.skip(0int));
                }
                while rest.len() > 0
                    invariant
                        out@.len() + rest@.len() == orig.len(),
                        rest@ == orig.skip(out@.len() as int),
                        g is Mixer && g->Mixer_0.layers@ == orig,
                        delta_time == delta_time,
                        forall|i: int|
                            0 <= i < out@.len() ==> {
                                &&& (#[trigger] out@[i]).weight == orig[i].weight
                                &&& updated_node(orig[i].node, out@[i].node, delta_time)
                            },
                    decreases rest@.len(),
                {
                    let ghost k = out@.len() as int;
                    let layer = rest.remove(0);
                    proof {
                        assert(orig.skip(k).drop_first() =~= orig.skip(k + 1));
                        assert(layer == orig[k]);
                        assert(decreases_to!(g => orig[k].node));
                    }
                    let updated = layer.node.update(delta_time);
                    out.push(GltfAnimationMixerLayer { weight: layer.weight, node: updated });
                }
                GltfAnimationNode::Mixer(GltfAnimationMixer { layers: out })
            },
            GltfAnimationNode::BlendSpace(s) => {
                let GltfAnimationBlendSpace { parameters, points } = s;
                let ghost orig = points@;
                let mut rest = points;
                let mut out: Vec<GltfAnimationBlendSpacePoint> = Vec::new();
                proof {
                    assert(rest@ =~= orig.skip(0int));
                }
                while rest.len() > 0
                    invariant
                        out@.len() + rest@.len() == orig.len(),
                        rest@ == orig.skip(out@.len() as int),
                        g is BlendSpace && g->BlendSpace_0.points@ == orig,
                        forall|i: int|
                            0 <= i < out@.len() ==> {
                                &&& (#[trigger] out@[i]).parameters@ == orig[i].parameters@
                                &&& updated_node(orig[i].node, out@[i].node, delta_time)
                            },
                    decreases rest@.len(),
                {
                    let ghost k = out@.len() as int;
                    let point = rest.remove(0);
                    proof {
                        assert(orig.skip(k).drop_first() =~= orig.skip(k + 1));
                        assert(point == orig[k]);
                        assert(decreases_to!(g => orig[k].node));
                    }
                    let updated = point.node.update(delta_time);
                    out.push(
                        GltfAnimationBlendSpacePoint { parameters: point.parameters, node: updated },
                    );
                }
                GltfAnimationNode::BlendSpace(
                    GltfAnimationBlendSpace { parameters, points: out },
                )
            },
            GltfAnimationNode::Transition(t) => {
                let ghost tg = g->Transition_0;
                let GltfAnimationTransition { layers, active_layers, default_layer, change_speed } =
                    t;
                let step = fx_mul(change_speed, delta_time);
                let ghost orig = layers@;
                let mut rest = layers;
                let mut out: Vec<GltfAnimationTransitionLayer> = Vec::new();
                proof {
                    assert(rest@ =~= orig.skip(0int));
                }
                while rest.len() > 0
                    invariant
                        out@.len() + rest@.len() == orig.len(),
                        rest@ == orig.skip(out@.len() as int),
                        g is Transition && g->Transition_0 == tg && tg.layers@ == orig,
                        active_layers@ == tg.active_layers@,
                        default_layer@ == tg.default_layer@,
                        change_speed == tg.change_speed,
                        step == fx_mul_spec(tg.change_speed, delta_time),
                        forall|i: int|
                            0 <= i < out@.len() ==> {
                                &&& (#[trigger] out@[i]).name@ == orig[i].name@
                                &&& out@[i].current_weight == move_toward_spec(
                                    orig[i].current_weight,
                                    layer_target_spec(tg, orig[i]),
                                    fx_mul_spec(tg.change_speed, delta_time),
                                )
                                &&& updated_node(orig[i].node, out@[i].node, delta_time)
                            },
                    decreases rest@.len(),
                {
                    let ghost k = out@.len() as int;
                    let layer = rest.remove(0);
                    proof {
                        assert(orig.skip(k).drop_first() =~= orig.skip(k + 1));
                        assert(layer == orig[k]);
                        assert(decreases_to!(g => orig[k].node));
                    }
                    let active = if active_layers.len() == 0 {
                        layer.name == default_layer
                    } else {
                        lookup_name(&active_layers, &layer.name)
                    };
                    let target = if active {
                        Fx { raw: FX_SCALE }
                    } else {
                        Fx { raw: 0 }
                    };
                    proof {
                        assert(target == layer_target_spec(tg, orig[k]));
                    }
                    let next_weight = move_toward(layer.current_weight, target, step);
                    let updated = layer.node.update(delta_time);
                    out.push(
                        GltfAnimationTransitionLayer {
                            name: layer.name,
                            node: updated,
                            current_weight: next_weight,
                        },
                    );
                }
                GltfAnimationNode::Transition(
                    GltfAnimationTransition {
                        layers: out,
                        active_layers,
                        default_layer,
                        change_speed,
                    },
                )
            },
        }
    }

    /// Evaluates the tree: folds every clip's weighted contribution
    /// under `master_weight` into the blender, in tree order.
    pub fn produce_weights(
        &self,
        params: &Vec<(String, GltfAnimationParameter)>,
        master_weight: Fx,
        output: &mut GltfAnimationBlender,
    )
        ensures
            blender_view(*final(output)) == accum_weights(
                blender_view(*old(output)),
                node_contribs(*self, params@, master_weight),
            ),
        decreases *self,
    {
        match self {
            GltfAnimationNode::Unit => {
                proof {
                    assert(node_contribs(*self, params@, master_weight) =~= Seq::<
                        (Seq<char>, Fx),
                    >::empty());
                    assert(accum_weights(
                        blender_view(*output),
                        Seq::<(Seq<char>, Fx)>::empty(),
                    ) == blender_view(*output));
                    assert(*output == *old(output));
                    assert(blender_view(*output) == accum_weights(
                        blender_view(*old(output)),
                        node_contribs(*self, params@, master_weight),
                    ));
                }
            },
            GltfAnimationNode::Target(t) => {
                output.animation(t.0.as_str(), master_weight);
                proof {
                    let s0 = blender_view(*old(output));
                    let ws = node_contribs(*self, params@, master_weight);
                    assert(ws == seq![(t.0@, master_weight)]);
                    assert(ws.drop_first() =~= Seq::<(Seq<char>, Fx)>::empty());
                    assert(ws[0] == (t.0@, master_weight));
                    assert(accum_weights(s0, ws) == accum_weights(
                        add_weight(s0, t.0@, master_weight),
                        ws.drop_first(),
                    ));
                    assert(accum_weights(
                        add_weight(s0, t.0@, master_weight),
                        Seq::<(Seq<char>, Fx)>::empty(),
                    ) == add_weight(s0, t.0@, master_weight));
                }
            },
            GltfAnimationNode::Mixer(m) => {
                let mut i: usize = 0;
                proof {
                    assert(m.layers@.skip(0int) =~= m.layers@);
                }
                while i < m.layers.len()
                    invariant
                        0 <= i <= m.layers@.len(),
                        accum_weights(
                            blender_view(*old(output)),
                            node_contribs(*self, params@, master_weight),
                        ) == accum_weights(
                            blender_view(*output),
                            mixer_contribs(m.layers@.skip(i as int), params@, master_weight),
                        ),
                        self is Mixer && self->Mixer_0 == *m,
                    decreases m.layers@.len() - i,
                {
                    let layer = &m.layers[i];
                    let w = layer.weight.get(params);
                    proof {
                        assert(m.layers@.skip(i as int).drop_first() =~= m.layers@.skip(i + 1));
                        assert(m.layers@.skip(i as int)[0] == m.layers@[i as int]);
                        lemma_accum_append(
                            blender_view(*output),
                            node_contribs(
                                m.layers@[i as int].node,
                                params@,
                                fx_mul_spec(
                                    master_weight,
                                    layer_weight_spec(m.layers@[i as int].weight, params@),
                                ),
                            ),
                            mixer_contribs(m.layers@.skip(i + 1), params@, master_weight),
                        );
                    }
                    layer.node.produce_weights(params, fx_mul(master_weight, w), output);
                    i += 1;
                }
                proof {
                    assert(mixer_contribs(
                        m.layers@.skip(m.layers@.len() as int),
                        params@,
                        master_weight,
                    ) == Seq::<(Seq<char>, Fx)>::empty());
                    assert(blender_view(*output) == accum_weights(
                        blender_view(*old(output)),
                        node_contribs(*self, params@, master_weight),
                    ));
                }
            },
            GltfAnimationNode::BlendSpace(s) => {
                let ws = s.point_weights(params);
                let ghost ws_spec = blend_space_weights(*s, params@);
                let mut i: usize = 0;
                proof {
                    assert(s.points@.skip(0int) =~= s.points@);
                    assert(ws_spec.skip(0int) =~= ws_spec);
                }
                while i < s.points.len()
                    invariant
                        0 <= i <= s.points@.len(),
                        ws@ == ws_spec,
                        accum_weights(
                            blender_view(*old(output)),
                            node_contribs(*self, params@, master_weight),
                        ) == accum_weights(
                            blender_view(*output),
                            points_contribs(
                                s.points@.skip(i as int),
                                ws_spec.skip(i as int),
                                params@,
                                master_weight,
                            ),
                        ),
                        self is BlendSpace && self->BlendSpace_0 == *s,
                        ws_spec.len() == s.points@.len(),
                    decreases s.points@.len() - i,
                {
                    let point = &s.points[i];
                    let w = ws[i];
                    proof {
                        assert(s.points@.skip(i as int).drop_first() =~= s.points@.skip(i + 1));
                        assert(s.points@.skip(i as int)[0] == s.points@[i as int]);
                        assert(ws_spec.skip(i as int).drop_first() =~= ws_spec.skip(i + 1));
                        assert(ws_spec.skip(i as int)[0] == ws_spec[i as int]);
                        lemma_accum_append(
                            blender_view(*output),
                            node_contribs(
                                s.points@[i as int].node,
                                params@,
                                fx_mul_spec(ws_spec[i as int], master_weight),
                            ),
                            points_contribs(
                                s.points@.skip(i + 1),
                                ws_spec.skip(i + 1),
                                params@,
                                master_weight,
                            ),
                        );
                    }
                    point.node.produce_weights(params, fx_mul(w, master_weight), output);
                    i += 1;
                }
                proof {
                    assert(points_contribs(
                        s.points@.skip(s.points@.len() as int),
                        ws_spec.skip(s.points@.len() as int),
                        params@,
                        master_weight,
                    ) == Seq::<(Seq<char>, Fx)>::empty());
                    assert(blender_view(*output) == accum_weights(
                        blender_view(*old(output)),
                        node_contribs(*self, params@, master_weight),
                    ));
                }
            },
            GltfAnimationNode::Transition(t) => {
                let mut i: usize = 0;
                proof {
                    assert(t.layers@.skip(0int) =~= t.layers@);
                }
                while i < t.layers.len()
                    invariant
                        0 <= i <= t.layers@.len(),
                        accum_weights(
                            blender_view(*old(output)),
                            node_contribs(*self, params@, master_weight),
                        ) == accum_weights(
                            blender_view(*output),
                            transition_contribs(t.layers@.skip(i as int), params@, master_weight),
                        ),
                        self is Transition && self->Transition_0 == *t,
                    decreases t.layers@.len() - i,
                {
                    let layer = &t.layers[i];
                    proof {
                        assert(t.layers@.skip(i as int).drop_first() =~= t.layers@.skip(i + 1));
                        assert(t.layers@.skip(i as int)[0] == t.layers@[i as int]);
                        lemma_accum_append(
                            blender_view(*output),
                            node_contribs(
                                t.layers@[i as int].node,
                                params@,
                                fx_mul_spec(master_weight, t.layers@[i as int].current_weight),
                            ),
                            transition_contribs(t.layers@.skip(i + 1), params@, master_weight),
                        );
                    }
                    layer.node.produce_weights(
                        params,
                        fx_mul(master_weight, layer.current_weight),
                        output,
                    );
                    i += 1;
                }
                proof {
                    assert(transition_contribs(
                        t.layers@.skip(t.layers@.len() as int),
                        params@,
                        master_weight,
                    ) == Seq::<(Seq<char>, Fx)>::empty());
                    assert(blender_view(*output) == accum_weights(
                        blender_view(*old(output)),
                        node_contribs(*self, params@, master_weight),
                    ));
                }
            },
        }
    }
}

} // verus!
