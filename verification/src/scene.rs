//! Scene description and the per-instance scene graph.
//!
//! A template is an immutable tree of nodes, each with a bind pose and
//! optional mesh and skin references. Instantiation deep-copies the tree
//! into a flat arena in depth-first order, so every parent stands before
//! its children; matrix recomputation is then a single forward pass that
//! keeps the invariant `global = parent_global * local` for every node.

use crate::fixed::Fx;
use crate::math::{mat_inverse, mat_inverse_spec, mat_mul, mat_mul_spec, transform_to_matrix,
    transform_to_matrix_spec, Mat4, Quat, Transform, Vec2, Vec3};
use vstd::prelude::*;

verus! {

/// A handle naming an asset in the external store.
#[derive(Clone, Copy, Debug, PartialEq, Eq, Structural, Hash)]
pub struct AssetHandle(pub u64);

/// The stable identity of a node: the asset container it came from and
/// its index inside that container.
#[derive(Clone, Copy, Debug, PartialEq, Eq, Structural, Hash)]
pub struct GltfNodeId {
    pub container_handle: AssetHandle,
    pub node_index: usize,
}

/// A triangle as three vertex indices.
#[derive(Clone, Copy, Debug, PartialEq, Eq, Structural)]
pub struct GltfTriangle {
    pub a: u32,
    pub b: u32,
    pub c: u32,
}

/// A color with red, green, blue and alpha channels.
#[derive(Clone, Copy, Debug, PartialEq, Eq, Structural)]
pub struct Rgba {
    pub r: Fx,
    pub g: Fx,
    pub b: Fx,
    pub a: Fx,
}

/// The blend mode a primitive is drawn with.
#[derive(Clone, Copy, Debug, PartialEq, Eq, Structural)]
pub enum GltfBlending {
    Disabled,
    Additive,
    Multiply,
    Alpha,
}

/// The four joint indices influencing a skinned vertex.
#[derive(Clone, Copy, Debug, PartialEq, Eq, Structural)]
pub struct GltfJointIndices {
    pub a: u16,
    pub b: u16,
    pub c: u16,
    pub d: u16,
}

/// The four joint weights of a skinned vertex.
#[derive(Clone, Copy, Debug, PartialEq, Eq, Structural)]
pub struct GltfJointWeights {
    pub a: Fx,
    pub b: Fx,
    pub c: Fx,
    pub d: Fx,
}

/// One mesh vertex; `joints` and `weights` are present on skinned
/// vertices only.
#[derive(Clone, Copy, Debug, PartialEq, Eq, Structural)]
pub struct GltfVertex {
    pub position: Vec3,
    pub uv: Vec2,
    pub color: Rgba,
    pub joints: Option<GltfJointIndices>,
    pub weights: Option<GltfJointWeights>,
}

/// One drawable primitive of a mesh.
#[derive(Clone, Debug)]
pub struct GltfPrimitive {
    pub main_texture: Option<u64>,
    pub blending: GltfBlending,
    pub triangles: Vec<GltfTriangle>,
    pub vertices: Vec<GltfVertex>,
}

/// A mesh asset: a list of primitives.
#[derive(Clone, Debug)]
pub struct GltfMesh {
    pub primitives: Vec<GltfPrimitive>,
}

/// One bone of a skin: the node it drives and the index of its
/// inverse-bind matrix.
#[derive(Clone, Copy, Debug, PartialEq, Eq, Structural)]
pub struct GltfSkeletonBone {
    pub id: GltfNodeId,
    pub ibm_index: usize,
}

/// A skin asset: inverse-bind matrices and the bones that use them.
#[derive(Clone, Debug)]
pub struct GltfSkin {
    pub inverse_bind_matrices: Vec<Mat4>,
    pub bones: Vec<GltfSkeletonBone>,
}

/// How a channel interpolates between keyframes; the cubic mode is
/// recognized but not evaluated.
#[derive(Clone, Copy, Debug, PartialEq, Eq, Structural)]
pub enum GltfInterpolation {
    Step,
    Linear,
    CubicSpline,
}

/// The keyframe values of one channel, one vector per keyframe time.
#[derive(Clone, Debug)]
pub enum GltfAnimationValues {
    Translation(Vec<Vec3>),
    Rotation(Vec<Quat>),
    Scale(Vec<Vec3>),
}

/// One animation channel: a keyframe track targeting a single node.
#[derive(Clone, Debug)]
pub struct GltfAnimationChannel {
    pub target_node: GltfNodeId,
    pub times: Vec<Fx>,
    pub duration: Fx,
    pub values: GltfAnimationValues,
    pub interpolation: GltfInterpolation,
}

/// An animation clip asset: channels and an overall duration.
#[derive(Clone, Debug)]
pub struct GltfAnimation {
    pub channels: Vec<GltfAnimationChannel>,
    pub duration: Fx,
}

/// The engine's view of the external asset store: records it reads,
/// each under its handle.
#[derive(Clone, Debug)]
pub struct GltfAssetDatabase {
    pub meshes: Vec<(AssetHandle, GltfMesh)>,
    pub skins: Vec<(AssetHandle, GltfSkin)>,
    pub animations: Vec<(AssetHandle, GltfAnimation)>,
}

/// The first index in a keyed list holding `h`, or `-1` when absent.
pub open spec fn handle_index<T>(s: Seq<(AssetHandle, T)>, h: AssetHandle) -> int
    decreases s.len(),
{
    if s.len() == 0 {
        -1
    } else if s[0].0 == h {
        0
    } else {
        let r = handle_index(s.drop_first(), h);
        if r < 0 {
            -1
        } else {
            1 + r
        }
    }
}

/// A position with no earlier occurrence and an occurrence (or the end,
/// standing for absence) pins down `handle_index`.
pub proof fn lemma_handle_index_at<T>(s: Seq<(AssetHandle, T)>, h: AssetHandle, i: int)
    requires
        0 <= i <= s.len(),
        forall|j: int| 0 <= j < i ==> s[j].0 != h,
        i < s.len() ==> s[i].0 == h,
    ensures
        i < s.len() ==> handle_index(s, h) == i,
        i == s.len() ==> handle_index(s, h) == -1,
    decreases s.len(),
{
    if s.len() == 0 {
    } else if s[0].0 == h {
    } else {
        assert(forall|j: int| 0 <= j < i - 1 ==> s.drop_first()[j].0 != h);
        lemma_handle_index_at(s.drop_first(), h, i - 1);
    }
}

/// `handle_index` stays inside the list (or is `-1`).
pub proof fn lemma_handle_index_bound<T>(s: Seq<(AssetHandle, T)>, h: AssetHandle)
    ensures
        -1 <= handle_index(s, h) < s.len(),
        handle_index(s, h) >= 0 ==> s[handle_index(s, h)].0 == h,
    decreases s.len(),
{
    if s.len() > 0 && s[0].0 != h {
        lemma_handle_index_bound(s.drop_first(), h);
    }
}

impl GltfAssetDatabase {
    /// An empty store.
    pub fn new() -> (r: GltfAssetDatabase)
        ensures
            r.meshes@.len() == 0,
            r.skins@.len() == 0,
            r.animations@.len() == 0,
    {
        GltfAssetDatabase { meshes: Vec::new(), skins: Vec::new(), animations: Vec::new() }
    }

    /// The index of the skin stored under `h`, if any.
    pub fn find_skin(&self, h: AssetHandle) -> (r: Option<usize>)
        ensures
            handle_index(self.skins@, h) < 0 ==> r is None,
            handle_index(self.skins@, h) >= 0 ==> r == Some(
                handle_index(self.skins@, h) as usize,
            ),
            -1 <= handle_index(self.skins@, h) < self.skins@.len(),
            self.skins@.len() <= usize::MAX,
            handle_index(self.skins@, h) >= 0 ==> self.skins@[handle_index(self.skins@, h)].0
                == h,
    {
        proof {
            lemma_handle_index_bound(self.skins@, h);
        }
        let ghost n = self.skins.len();
        let mut i: usize = 0;
        while i < self.skins.len()
            invariant
                0 <= i <= self.skins.len(),
                forall|j: int| 0 <= j < i ==> self.skins@[j].0 != h,
            decreases self.skins.len() - i,
        {
            if self.skins[i].0 == h {
                proof {
                    lemma_handle_index_at(self.skins@, h, i as int);
                }
                return Some(i);
            }
            i += 1;
        }
        proof {
            lemma_handle_index_at(self.skins@, h, self.skins@.len() as int);
        }
        None
    }

    /// The index of the mesh stored under `h`, if any.
    pub fn find_mesh(&self, h: AssetHandle) -> (r: Option<usize>)
        ensures
            handle_index(self.meshes@, h) < 0 ==> r is None,
            handle_index(self.meshes@, h) >= 0 ==> r == Some(
                handle_index(self.meshes@, h) as usize,
            ),
            -1 <= handle_index(self.meshes@, h) < self.meshes@.len(),
            self.meshes@.len() <= usize::MAX,
            handle_index(self.meshes@, h) >= 0 ==> self.meshes@[handle_index(self.meshes@, h)].0
                == h,
    {
        proof {
            lemma_handle_index_bound(self.meshes@, h);
        }
        let ghost n = self.meshes.len();
        let mut i: usize = 0;
        while i < self.meshes.len()
            invariant
                0 <= i <= self.meshes.len(),
                forall|j: int| 0 <= j < i ==> self.meshes@[j].0 != h,
            decreases self.meshes.len() - i,
        {
            if self.meshes[i].0 == h {
                proof {
                    lemma_handle_index_at(self.meshes@, h, i as int);
                }
                return Some(i);
            }
            i += 1;
        }
        proof {
            lemma_handle_index_at(self.meshes@, h, self.meshes@.len() as int);
        }
        None
    }

    /// The index of the animation clip stored under `h`, if any.
    pub fn find_animation(&self, h: AssetHandle) -> (r: Option<usize>)
        ensures
            handle_index(self.animations@, h) < 0 ==> r is None,
            handle_index(self.animations@, h) >= 0 ==> r == Some(
                handle_index(self.animations@, h) as usize,
            ),
            -1 <= handle_index(self.animations@, h) < self.animations@.len(),
            self.animations@.len() <= usize::MAX,
            handle_index(self.animations@, h) >= 0 ==> self.animations@[handle_index(self.animations@, h)].0
                == h,
    {
        proof {
            lemma_handle_index_bound(self.animations@, h);
        }
        let ghost n = self.animations.len();
        let mut i: usize = 0;
        while i < self.animations.len()
            invariant
                0 <= i <= self.animations.len(),
                forall|j: int| 0 <= j < i ==> self.animations@[j].0 != h,
            decreases self.animations.len() - i,
        {
            if self.animations[i].0 == h {
                proof {
                    lemma_handle_index_at(self.animations@, h, i as int);
                }
                return Some(i);
            }
            i += 1;
        }
        proof {
            lemma_handle_index_at(self.animations@, h, self.animations@.len() as int);
        }
        None
    }
}

/// One template node: bind pose, optional mesh and skin references, and
/// the ordered children.
#[derive(Debug)]
pub struct GltfNode {
    pub id: GltfNodeId,
    pub name: String,
    pub transform: Transform,
    pub mesh_handle: Option<AssetHandle>,
    pub skin_handle: Option<AssetHandle>,
    pub children: Vec<GltfNode>,
}

/// An immutable scene description: named root nodes under one container.
#[derive(Debug)]
pub struct GltfSceneTemplate {
    pub name: String,
    pub container_handle: AssetHandle,
    pub root_nodes: Vec<GltfNode>,
}

/// A node's pose and its cached matrices. `transform` is the current
/// pose, `bind_transform` the authored one; the matrices are refreshed
/// by every recomputation pass.
#[derive(Clone, Copy, Debug, PartialEq, Eq, Structural)]
pub struct GltfSceneTransform {
    pub transform: Transform,
    pub bind_transform: Transform,
    pub local_matrix: Mat4,
    pub local_inverse_matrix: Mat4,
    pub global_matrix: Mat4,
    pub global_inverse_matrix: Mat4,
}

impl GltfSceneTransform {
    /// The authored pose.
    pub fn bind_transform(&self) -> (r: Transform)
        ensures
            r == self.bind_transform,
    {
        self.bind_transform
    }

    /// The cached matrix of the current pose.
    pub fn local_matrix(&self) -> (r: Mat4)
        ensures
            r == self.local_matrix,
    {
        self.local_matrix
    }

    /// The cached inverse of the local matrix.
    pub fn local_inverse_matrix(&self) -> (r: Mat4)
        ensures
            r == self.local_inverse_matrix,
    {
        self.local_inverse_matrix
    }

    /// The cached product of all local matrices down from the root.
    pub fn global_matrix(&self) -> (r: Mat4)
        ensures
            r == self.global_matrix,
    {
        self.global_matrix
    }

    /// The cached inverse of the global matrix.
    pub fn global_inverse_matrix(&self) -> (r: Mat4)
        ensures
            r == self.global_inverse_matrix,
    {
        self.global_inverse_matrix
    }
}

/// One arena slot of an instantiated scene: the node's identity and
/// attributes, its parent's slot index, and its depth under the roots.
#[derive(Clone, Debug)]
pub struct GltfSceneNode {
    pub id: GltfNodeId,
    pub name: String,
    pub parent: Option<usize>,
    pub depth: usize,
    pub state: GltfSceneTransform,
    pub mesh: Option<AssetHandle>,
    pub skin: Option<AssetHandle>,
    pub bone: bool,
}

/// The depth one level below `d`; the count wraps only at the type's
/// end, which no real tree reaches.
pub open spec fn next_depth(d: usize) -> usize {
    if d == usize::MAX {
        0
    } else {
        (d + 1) as usize
    }
}

/// The pose state a freshly instantiated node starts with: current and
/// bind pose both the authored one, all matrices the identity until the
/// first recomputation pass.
pub open spec fn initial_state(t: Transform) -> GltfSceneTransform {
    GltfSceneTransform {
        transform: t,
        bind_transform: t,
        local_matrix: crate::math::mat_identity_spec(),
        local_inverse_matrix: crate::math::mat_identity_spec(),
        global_matrix: crate::math::mat_identity_spec(),
        global_inverse_matrix: crate::math::mat_identity_spec(),
    }
}

/// The arena record of one template node.
pub open spec fn flat_node(n: GltfNode, parent: Option<usize>, depth: usize) -> GltfSceneNode {
    GltfSceneNode {
        id: n.id,
        name: n.name,
        parent,
        depth,
        state: initial_state(n.transform),
        mesh: n.mesh_handle,
        skin: n.skin_handle,
        bone: false,
    }
}

/// The arena records of a template subtree in depth-first preorder,
/// starting at slot `base`.
pub open spec fn flatten_node(n: GltfNode, base: int, parent: Option<usize>, depth: usize) -> Seq<
    GltfSceneNode,
>
    decreases n,
{
    seq![flat_node(n, parent, depth)] + flatten_list(
        n.children@,
        base + 1,
        Some(base as usize),
        next_depth(depth),
    )
}

/// The arena records of a forest in depth-first preorder, starting at
/// slot `base`.
pub open spec fn flatten_list(ns: Seq<GltfNode>, base: int, parent: Option<usize>, depth: usize,
) -> Seq<GltfSceneNode>
    decreases ns,
{
    if ns.len() == 0 {
        Seq::empty()
    } else {
        let head = flatten_node(ns[0], base, parent, depth);
        head + flatten_list(ns.drop_first(), base + head.len(), parent, depth)
    }
}

/// Whether every non-root node's parent slot stands before it, the
/// order instantiation guarantees and matrix passes rely on.
pub open spec fn parents_before(nodes: Seq<GltfSceneNode>) -> bool {
    forall|i: int|
        0 <= i < nodes.len() ==> ((#[trigger] nodes[i]).parent matches Some(p) ==> (p as int) < i)
}

/// The global matrix feeding a node: its parent's global matrix, or the
/// instance pose's matrix at a root.
pub open spec fn parent_global(nodes: Seq<GltfSceneNode>, i: int, t: Transform) -> Mat4 {
    match nodes[i].parent {
        Some(p) => nodes[p as int].state.global_matrix,
        None => transform_to_matrix_spec(t),
    }
}

/// Whether every node's cached matrices are current: the local matrix
/// is its pose's, the global matrix is the parent's global times the
/// local, and both inverses are cached.
pub open spec fn matrices_consistent(nodes: Seq<GltfSceneNode>, t: Transform) -> bool {
    forall|i: int|
        0 <= i < nodes.len() ==> {
            let st = (#[trigger] nodes[i]).state;
            &&& st.local_matrix == transform_to_matrix_spec(st.transform)
            &&& st.global_matrix == mat_mul_spec(parent_global(nodes, i, t), st.local_matrix)
            &&& st.local_inverse_matrix == mat_inverse_spec(st.local_matrix)
            &&& st.global_inverse_matrix == mat_inverse_spec(st.global_matrix)
        }
}

/// Whether two arena records agree on everything but the cached
/// matrices.
pub open spec fn same_but_matrices(a: GltfSceneNode, b: GltfSceneNode) -> bool {
    &&& a.id == b.id
    &&& a.name@ == b.name@
    &&& a.parent == b.parent
    &&& a.depth == b.depth
    &&& a.state.transform == b.state.transform
    &&& a.state.bind_transform == b.state.bind_transform
    &&& a.mesh == b.mesh
    &&& a.skin == b.skin
    &&& a.bone == b.bone
}

/// Whether the `k`-th bone of the skin carried by node `j` names `id`.
pub open spec fn skin_bone_hit(nodes: Seq<GltfSceneNode>, db: GltfAssetDatabase, j: int, k: int,
    id: GltfNodeId) -> bool {
    &&& 0 <= j < nodes.len()
    &&& nodes[j].skin is Some
    &&& handle_index(db.skins@, nodes[j].skin->0) >= 0
    &&& 0 <= k < db.skins@[handle_index(db.skins@, nodes[j].skin->0)].1.bones@.len()
    &&& db.skins@[handle_index(db.skins@, nodes[j].skin->0)].1.bones@[k].id == id
}

/// Whether `id` names a bone: some node carries a skin stored in the
/// database whose bone list mentions `id`.
pub open spec fn is_bone_id(nodes: Seq<GltfSceneNode>, db: GltfAssetDatabase, id: GltfNodeId,
) -> bool {
    exists|j: int, k: int| #[trigger] skin_bone_hit(nodes, db, j, k, id)
}

/// Whether a bone hit for `id` lies before the scan position `(j, k)`,
/// in node-major order.
pub open spec fn bone_hit_before(nodes: Seq<GltfSceneNode>, db: GltfAssetDatabase, j: int, k: int,
    id: GltfNodeId) -> bool {
    exists|j2: int, k2: int|
        #[trigger] skin_bone_hit(nodes, db, j2, k2, id) && (j2 < j || (j2 == j && k2 < k))
}

/// A mutable instance of a template: the node arena in depth-first
/// preorder, the root slots, live animations and parameters by name,
/// and the blend tree.
#[derive(Debug)]
pub struct GltfSceneInstance {
    pub transform: Transform,
    pub blend_only_affected_animations: bool,
    pub container_handle: AssetHandle,
    pub nodes: Vec<GltfSceneNode>,
    pub roots: Vec<usize>,
    pub animations: Vec<(String, crate::playback::GltfSceneAnimation)>,
    pub parameters: Vec<(String, crate::playback::GltfAnimationParameter)>,
    pub animation_node: crate::blend::GltfAnimationNode,
}

/// Appends the records of one template subtree, in depth-first
/// preorder; returns the subtree root's slot.
fn instantiate_node(nodes: &mut Vec<GltfSceneNode>, node: &GltfNode, parent: Option<usize>,
    depth: usize) -> (r: usize)
    requires
        parents_before(old(nodes)@),
        parent matches Some(p) ==> (p as int) < old(nodes)@.len(),
    ensures
        final(nodes)@ == old(nodes)@ + flatten_node(*node, old(nodes)@.len() as int, parent, depth),
        r == old(nodes)@.len(),
        parents_before(final(nodes)@),
    decreases *node,
{
    let index = nodes.len();
    let record = GltfSceneNode {
        id: node.id,
        name: node.name.clone(),
        parent,
        depth,
        state: GltfSceneTransform {
            transform: node.transform,
            bind_transform: node.transform,
            local_matrix: crate::math::mat_identity(),
            local_inverse_matrix: crate::math::mat_identity(),
            global_matrix: crate::math::mat_identity(),
            global_inverse_matrix: crate::math::mat_identity(),
        },
        mesh: node.mesh_handle,
        skin: node.skin_handle,
        bone: false,
    };
    nodes.push(record);
    let child_depth = if depth == usize::MAX {
        0
    } else {
        depth + 1
    };
    let ghost base = index as int;
    let mut i: usize = 0;
    proof {
        assert(nodes@[base] == flat_node(*node, parent, depth));
        assert(nodes@ =~= old(nodes)@ + seq![flat_node(*node, parent, depth)]);
        assert(node.children@.skip(0int) =~= node.children@);
        assert(old(nodes)@ + flatten_node(*node, base, parent, depth) =~= nodes@ + flatten_list(
            node.children@.skip(0int),
            nodes@.len() as int,
            Some(index),
            child_depth,
        ));
    }
    while i < node.children.len()
        invariant
            0 <= i <= node.children@.len(),
            base == old(nodes)@.len(),
            index == base,
            index < nodes@.len(),
            child_depth == next_depth(depth),
            old(nodes)@ + flatten_node(*node, base, parent, depth) =~= nodes@ + flatten_list(
                node.children@.skip(i as int),
                nodes@.len() as int,
                Some(index),
                child_depth,
            ),
            parents_before(nodes@),
        decreases node.children@.len() - i,
    {
        proof {
            assert(node.children@.skip(i as int).drop_first() =~= node.children@.skip(i + 1));
            assert(node.children@.skip(i as int)[0] == node.children@[i as int]);
            assert(decreases_to!(*node => node.children@[i as int]));
        }
        let child = &node.children[i];
        instantiate_node(nodes, child, Some(index), child_depth);
        i += 1;
    }
    proof {
        assert(flatten_list(
            node.children@.skip(node.children@.len() as int),
            nodes@.len() as int,
            Some(index),
            child_depth,
        ) == Seq::<GltfSceneNode>::empty());
        assert(old(nodes)@ + flatten_node(*node, base, parent, depth) =~= nodes@);
    }
    index
}

impl GltfSceneTemplate {
    /// Builds a fresh instance: the template is deep-copied into the
    /// arena in depth-first preorder, skins found in the store have
    /// their bone nodes tagged, and all matrices are recomputed under
    /// the given instance pose.
    pub fn instantiate(&self, transform: Transform, database: &GltfAssetDatabase) -> (r:
        GltfSceneInstance)
        ensures
            r.transform == transform,
            !r.blend_only_affected_animations,
            r.container_handle == self.container_handle,
            r.animations@.len() == 0,
            r.parameters@.len() == 0,
            r.animation_node is Unit,
            parents_before(r.nodes@),
            r.nodes@.len() == flatten_list(self.root_nodes@, 0, None, 0).len(),
            forall|i: int|
                0 <= i < r.nodes@.len() ==> same_but_matrices(
                    #[trigger] r.nodes@[i],
                    (GltfSceneNode {
                        bone: is_bone_id(
                            flatten_list(self.root_nodes@, 0, None, 0),
                            *database,
                            flatten_list(self.root_nodes@, 0, None, 0)[i].id,
                        ),
                        ..flatten_list(self.root_nodes@, 0, None, 0)[i]
                    }),
                ),
            matrices_consistent(r.nodes@, transform),
            r.roots@.len() == self.root_nodes@.len(),
            forall|j: int|
                0 <= j < r.roots@.len() ==> (#[trigger] r.roots@[j]) as int == flatten_list(
                    self.root_nodes@.take(j),
                    0,
                    None,
                    0,
                ).len(),
    {
        let mut nodes: Vec<GltfSceneNode> = Vec::new();
        let mut roots: Vec<usize> = Vec::new();
        let mut i: usize = 0;
        proof {
            assert(nodes@ =~= Seq::<GltfSceneNode>::empty());
            assert(nodes@ =~= flatten_list(self.root_nodes@.take(0int), 0, None, 0));
        }
        while i < self.root_nodes.len()
            invariant
                0 <= i <= self.root_nodes@.len(),
                nodes@ == flatten_list(self.root_nodes@.take(i as int), 0, None, 0),
                parents_before(nodes@),
                roots@.len() == i,
                forall|j: int|
                    0 <= j < i ==> (#[trigger] roots@[j]) as int == flatten_list(
                        self.root_nodes@.take(j),
                        0,
                        None,
                        0,
                    ).len(),
            decreases self.root_nodes@.len() - i,
        {
            let root = &self.root_nodes[i];
            let slot = instantiate_node(&mut nodes, root, None, 0);
            roots.push(slot);
            proof {
                lemma_flatten_list_take_step(self.root_nodes@, i as int);
            }
            i += 1;
        }
        proof {
            assert(self.root_nodes@.take(self.root_nodes@.len() as int) =~= self.root_nodes@);
        }
        mark_bones(&mut nodes, database);
        let mut instance = GltfSceneInstance {
            transform,
            blend_only_affected_animations: false,
            container_handle: self.container_handle,
            nodes,
            roots,
            animations: Vec::new(),
            parameters: Vec::new(),
            animation_node: crate::blend::GltfAnimationNode::Unit,
        };
        instance.recompute_matrices();
        instance
    }
}

/// Flattening one more root appends that root's records.
pub proof fn lemma_flatten_list_take_step(ns: Seq<GltfNode>, i: int)
    requires
        0 <= i < ns.len(),
    ensures
        flatten_list(ns.take(i + 1), 0, None, 0) == flatten_list(ns.take(i), 0, None, 0)
            + flatten_node(ns[i], flatten_list(ns.take(i), 0, None, 0).len() as int, None, 0),
{
    lemma_flatten_list_take_step_at(ns, i, 0, 0);
}

/// Flattening one more tree of a forest appends that tree's records,
/// from any starting slot.
pub proof fn lemma_flatten_list_take_step_at(ns: Seq<GltfNode>, i: int, base: int, k: int)
    requires
        0 <= k <= i < ns.len(),
    ensures
        flatten_list(ns.subrange(k, i + 1), base, None, 0) == flatten_list(
            ns.subrange(k, i),
            base,
            None,
            0,
        ) + flatten_node(
            ns[i],
            base + flatten_list(ns.subrange(k, i), base, None, 0).len() as int,
            None,
            0,
        ),
    decreases i - k,
{
    let a = ns.subrange(k, i + 1);
    if k == i {
        assert(ns.subrange(k, i) =~= Seq::<GltfNode>::empty());
        assert(a.drop_first() =~= Seq::<GltfNode>::empty());
        assert(a[0] == ns[i]);
        let head = flatten_node(ns[i], base, None, 0);
        assert(flatten_list(a, base, None, 0) == head + flatten_list(
            a.drop_first(),
            base + head.len(),
            None,
            0,
        ));
        assert(head + Seq::<GltfSceneNode>::empty() =~= head);
        assert(flatten_list(ns.subrange(k, i), base, None, 0) + head =~= head);
    } else {
        let head = flatten_node(ns[k], base, None, 0);
        assert(a[0] == ns[k]);
        assert(a.drop_first() =~= ns.subrange(k + 1, i + 1));
        assert(ns.subrange(k, i)[0] == ns[k]);
        assert(ns.subrange(k, i).drop_first() =~= ns.subrange(k + 1, i));
        lemma_flatten_list_take_step_at(ns, i, base + head.len(), k + 1);
        let mid = flatten_list(ns.subrange(k + 1, i), base + head.len(), None, 0);
        let tail = flatten_node(ns[i], base + head.len() + mid.len(), None, 0);
        assert(flatten_list(a, base, None, 0) == head + (mid + tail));
        assert(flatten_list(ns.subrange(k, i), base, None, 0) == head + mid);
        assert(head + (mid + tail) =~= (head + mid) + tail);
    }
}

/// Whether the list of identities holds `id`, by scanning.
fn ids_contain(ids: &Vec<GltfNodeId>, id: GltfNodeId) -> (r: bool)
    ensures
        r == ids@.contains(id),
{
    let mut t: usize = 0;
    while t < ids.len()
        invariant
            0 <= t <= ids@.len(),
            forall|u: int| 0 <= u < t ==> ids@[u] != id,
        decreases ids@.len() - t,
    {
        if ids[t] == id {
            return true;
        }
        t += 1;
    }
    proof {
        assert(forall|u: int| 0 <= u < ids@.len() ==> ids@[u] != id);
    }
    false
}

/// Tags every node whose identity a stored skin's bone list mentions.
fn mark_bones(nodes: &mut Vec<GltfSceneNode>, database: &GltfAssetDatabase)
    ensures
        final(nodes)@.len() == old(nodes)@.len(),
        forall|i: int|
            0 <= i < old(nodes)@.len() ==> #[trigger] final(nodes)@[i] == (GltfSceneNode {
                bone: is_bone_id(old(nodes)@, *database, old(nodes)@[i].id),
                ..old(nodes)@[i]
            }),
        parents_before(old(nodes)@) ==> parents_before(final(nodes)@),
{
    let mut ids: Vec<GltfNodeId> = Vec::new();
    let total = nodes.len();
    let mut j: usize = 0;
    while j < total
        invariant
            0 <= j <= total,
            total == nodes@.len(),
            *nodes == *old(nodes),
            forall|id: GltfNodeId| #[trigger]
                ids@.contains(id) <==> bone_hit_before(nodes@, *database, j as int, 0, id),
        decreases total - j,
    {
        let skin_handle = nodes[j].skin;
        if let Some(h) = skin_handle {
            if let Some(si) = database.find_skin(h) {
                let bone_count = database.skins[si].1.bones.len();
                let mut k: usize = 0;
                while k < bone_count
                    invariant
                        0 <= k <= bone_count,
                        0 <= j < total,
                        total == nodes@.len(),
                        *nodes == *old(nodes),
                        nodes@[j as int].skin == Some(h),
                        si as int == handle_index(database.skins@, h),
                        0 <= si < database.skins@.len(),
                        bone_count == database.skins@[si as int].1.bones@.len(),
                        forall|id: GltfNodeId| #[trigger]
                            ids@.contains(id) <==> bone_hit_before(
                                nodes@,
                                *database,
                                j as int,
                                k as int,
                                id,
                            ),
                    decreases bone_count - k,
                {
                    let id = database.skins[si].1.bones[k].id;
                    proof {
                        assert(skin_bone_hit(nodes@, *database, j as int, k as int, id));
                    }
                    if !ids_contain(&ids, id) {
                        let ghost before = ids@;
                        ids.push(id);
                        proof {
                            assert forall|x: GltfNodeId| #[trigger]
                                ids@.contains(x) <==> bone_hit_before(
                                    nodes@,
                                    *database,
                                    j as int,
                                    k + 1,
                                    x,
                                ) by {
                                if ids@.contains(x) {
                                    if x == id {
                                    } else {
                                        assert(before.contains(x)) by {
                                            let u = choose|u: int|
                                                0 <= u < ids@.len() && ids@[u] == x;
                                            assert(before[u] == x);
                                        }
                                    }
                                }
                                if bone_hit_before(nodes@, *database, j as int, k + 1, x) {
                                    let (j2, k2) = choose|j2: int, k2: int|
                                        #[trigger] skin_bone_hit(nodes@, *database, j2, k2, x) && (
                                        j2 < j as int || (j2 == j as int && k2 < k + 1));
                                    if j2 == j as int && k2 == k as int {
                                        assert(x == id);
                                        assert(ids@[ids@.len() - 1] == id);
                                    } else {
                                        assert(bone_hit_before(
                                            nodes@,
                                            *database,
                                            j as int,
                                            k as int,
                                            x,
                                        ));
                                        assert(before.contains(x));
                                        let u = choose|u: int|
                                            0 <= u < before.len() && before[u] == x;
                                        assert(ids@[u] == x);
                                    }
                                }
                            }
                        }
                    } else {
                        proof {
                            assert forall|x: GltfNodeId| #[trigger]
                                ids@.contains(x) <==> bone_hit_before(
                                    nodes@,
                                    *database,
                                    j as int,
                                    k + 1,
                                    x,
                                ) by {
                                if bone_hit_before(nodes@, *database, j as int, k + 1, x) {
                                    let (j2, k2) = choose|j2: int, k2: int|
                                        #[trigger] skin_bone_hit(nodes@, *database, j2, k2, x) && (
                                        j2 < j as int || (j2 == j as int && k2 < k + 1));
                                    if j2 == j as int && k2 == k as int {
                                        assert(x == id);
                                    } else {
                                        assert(bone_hit_before(
                                            nodes@,
                                            *database,
                                            j as int,
                                            k as int,
                                            x,
                                        ));
                                    }
                                }
                            }
                        }
                    }
                    k += 1;
                }
                proof {
                    assert forall|x: GltfNodeId| #[trigger]
                        ids@.contains(x) <==> bone_hit_before(
                            nodes@,
                            *database,
                            j + 1,
                            0,
                            x,
                        ) by {
                        if bone_hit_before(nodes@, *database, j + 1, 0, x) {
                            let (j2, k2) = choose|j2: int, k2: int|
                                #[trigger] skin_bone_hit(nodes@, *database, j2, k2, x) && (j2 < j
                                + 1 || (j2 == j + 1 && k2 < 0));
                            if j2 == j as int {
                                assert(bone_hit_before(
                                    nodes@,
                                    *database,
                                    j as int,
                                    bone_count as int,
                                    x,
                                ));
                            } else {
                                assert(bone_hit_before(nodes@, *database, j as int, 0, x));
                            }
                        }
                        if ids@.contains(x) {
                            let (j2, k2) = choose|j2: int, k2: int|
                                #[trigger] skin_bone_hit(nodes@, *database, j2, k2, x) && (j2 < j
                                as int || (j2 == j as int && k2 < bone_count as int));
                            assert(skin_bone_hit(nodes@, *database, j2, k2, x) && (j2 < j + 1 || (
                            j2 == j + 1 && k2 < 0)));
                        }
                    }
                }
            } else {
                proof {
                    assert forall|x: GltfNodeId| #[trigger]
                        ids@.contains(x) <==> bone_hit_before(
                            nodes@,
                            *database,
                            j + 1,
                            0,
                            x,
                        ) by {
                        if bone_hit_before(nodes@, *database, j + 1, 0, x) {
                            let (j2, k2) = choose|j2: int, k2: int|
                                #[trigger] skin_bone_hit(nodes@, *database, j2, k2, x) && (j2 < j
                                + 1 || (j2 == j + 1 && k2 < 0));
                            assert(j2 != j as int);
                            assert(bone_hit_before(nodes@, *database, j as int, 0, x));
                        }
                    }
                }
            }
        } else {
            proof {
                assert forall|x: GltfNodeId| #[trigger]
                    ids@.contains(x) <==> bone_hit_before(nodes@, *database, j + 1, 0, x) by {
                    if bone_hit_before(nodes@, *database, j + 1, 0, x) {
                        let (j2, k2) = choose|j2: int, k2: int|
                            #[trigger] skin_bone_hit(nodes@, *database, j2, k2, x) && (j2 < j + 1
                            || (j2 == j + 1 && k2 < 0));
                        assert(j2 != j as int);
                        assert(bone_hit_before(nodes@, *database, j as int, 0, x));
                    }
                }
            }
        }
        j += 1;
    }
    proof {
        assert forall|x: GltfNodeId| #[trigger]
            ids@.contains(x) <==> is_bone_id(nodes@, *database, x) by {
            if ids@.contains(x) {
                assert(bone_hit_before(nodes@, *database, total as int, 0, x));
            }
            if is_bone_id(nodes@, *database, x) {
                let (j2, k2) = choose|j2: int, k2: int|
                    #[trigger] skin_bone_hit(nodes@, *database, j2, k2, x);
                assert(skin_bone_hit(nodes@, *database, j2, k2, x) && (j2 < total as int || (j2
                    == total as int && k2 < 0)));
            }
        }
    }
    let mut i: usize = 0;
    while i < total
        invariant
            0 <= i <= total,
            total == old(nodes)@.len(),
            nodes@.len() == old(nodes)@.len(),
            forall|id: GltfNodeId| #[trigger]
                ids@.contains(id) <==> is_bone_id(old(nodes)@, *database, id),
            forall|u: int| i <= u < nodes@.len() ==> nodes@[u] == old(nodes)@[u],
            forall|u: int|
                0 <= u < i ==> #[trigger] nodes@[u] == (GltfSceneNode {
                    bone: is_bone_id(old(nodes)@, *database, old(nodes)@[u].id),
                    ..old(nodes)@[u]
                }),
        decreases total - i,
    {
        let id = nodes[i].id;
        let found = ids_contain(&ids, id);
        let mut record = nodes[i].clone_node();
        record.bone = found;
        nodes.set(i, record);
        i += 1;
    }
}

impl GltfSceneNode {
    /// A copy of the record; the name is cloned, the rest is plain data.
    pub fn clone_node(&self) -> (r: GltfSceneNode)
        ensures
            r == *self,
    {
        GltfSceneNode {
            id: self.id,
            name: self.name.clone(),
            parent: self.parent,
            depth: self.depth,
            state: self.state,
            mesh: self.mesh,
            skin: self.skin,
            bone: self.bone,
        }
    }
}

/// The first index in a name-keyed list holding `name`, or `-1`.
pub open spec fn name_index<T>(s: Seq<(String, T)>, name: Seq<char>) -> int
    decreases s.len(),
{
    if s.len() == 0 {
        -1
    } else if s[0].0@ == name {
        0
    } else {
        let r = name_index(s.drop_first(), name);
        if r < 0 {
            -1
        } else {
            1 + r
        }
    }
}

/// A position with no earlier occurrence and an occurrence (or the end,
/// standing for absence) pins down `name_index`.
pub proof fn lemma_name_index_at<T>(s: Seq<(String, T)>, name: Seq<char>, i: int)
    requires
        0 <= i <= s.len(),
        forall|j: int| 0 <= j < i ==> s[j].0@ != name,
        i < s.len() ==> s[i].0@ == name,
    ensures
        i < s.len() ==> name_index(s, name) == i,
        i == s.len() ==> name_index(s, name) == -1,
    decreases s.len(),
{
    if s.len() == 0 {
    } else if s[0].0@ == name {
    } else {
        assert(forall|j: int| 0 <= j < i - 1 ==> s.drop_first()[j].0@ != name);
        lemma_name_index_at(s.drop_first(), name, i - 1);
    }
}

/// What a visitor sees of one node: its slot, depth under the roots,
/// identity, name, pose state and attribute presence.
#[derive(Clone, Debug)]
pub struct GltfSceneVisit {
    pub level: usize,
    pub index: usize,
    pub id: GltfNodeId,
    pub name: String,
    pub state: GltfSceneTransform,
    pub mesh: Option<AssetHandle>,
    pub skin: Option<AssetHandle>,
    pub bone: bool,
}

impl GltfSceneInstance {
    /// The same instance under another pose.
    pub fn transform(self, transform: Transform) -> (r: GltfSceneInstance)
        ensures
            r == (GltfSceneInstance { transform, ..self }),
    {
        GltfSceneInstance { transform, ..self }
    }

    /// The same instance moved to `position`.
    pub fn position(self, position: Vec3) -> (r: GltfSceneInstance)
        ensures
            r.transform.position == position,
            r.transform.orientation == self.transform.orientation,
            r.transform.scale == self.transform.scale,
            r == (GltfSceneInstance { transform: r.transform, ..self }),
    {
        let t = Transform { position, ..self.transform };
        GltfSceneInstance { transform: t, ..self }
    }

    /// The same instance turned to `rotation`.
    pub fn rotation(self, rotation: Quat) -> (r: GltfSceneInstance)
        ensures
            r.transform.orientation == rotation,
            r.transform.position == self.transform.position,
            r.transform.scale == self.transform.scale,
            r == (GltfSceneInstance { transform: r.transform, ..self }),
    {
        let t = Transform { orientation: rotation, ..self.transform };
        GltfSceneInstance { transform: t, ..self }
    }

    /// The same instance at another scale.
    pub fn scale(self, scale: Vec3) -> (r: GltfSceneInstance)
        ensures
            r.transform.scale == scale,
            r.transform.position == self.transform.position,
            r.transform.orientation == self.transform.orientation,
            r == (GltfSceneInstance { transform: r.transform, ..self }),
    {
        let t = Transform { scale, ..self.transform };
        GltfSceneInstance { transform: t, ..self }
    }

    /// The same instance with the affected-clips-only weighting flag set.
    pub fn blend_only_affected_animations(self, value: bool) -> (r: GltfSceneInstance)
        ensures
            r == (GltfSceneInstance { blend_only_affected_animations: value, ..self }),
    {
        GltfSceneInstance { blend_only_affected_animations: value, ..self }
    }

    /// The same instance with one more named animation.
    pub fn with_animation(self, name: &str, animation: crate::playback::GltfSceneAnimation) -> (r:
        GltfSceneInstance)
        ensures
            name_index(self.animations@, name@) >= 0 ==> r.animations@ == self.animations@.update(
                name_index(self.animations@, name@),
                (self.animations@[name_index(self.animations@, name@)].0, animation),
            ),
            name_index(self.animations@, name@) < 0 ==> {
                &&& r.animations@.len() == self.animations@.len() + 1
                &&& r.animations@.last().0@ == name@
                &&& r.animations@.last().1 == animation
                &&& r.animations@.take(self.animations@.len() as int) == self.animations@
            },
            r == (GltfSceneInstance { animations: r.animations, ..self }),
    {
        let mut out = self;
        out.add_animation(name, animation);
        out
    }

    /// The same instance with one more named parameter.
    pub fn with_parameter(self, name: &str, parameter: crate::playback::GltfAnimationParameter,
    ) -> (r: GltfSceneInstance)
        ensures
            name_index(self.parameters@, name@) >= 0 ==> r.parameters@ == self.parameters@.update(
                name_index(self.parameters@, name@),
                (self.parameters@[name_index(self.parameters@, name@)].0, parameter),
            ),
            name_index(self.parameters@, name@) < 0 ==> {
                &&& r.parameters@.len() == self.parameters@.len() + 1
                &&& r.parameters@.last().0@ == name@
                &&& r.parameters@.last().1 == parameter
                &&& r.parameters@.take(self.parameters@.len() as int) == self.parameters@
            },
            r == (GltfSceneInstance { parameters: r.parameters, ..self }),
    {
        let mut out = self;
        out.add_parameter(name, parameter);
        out
    }

    /// The same instance driven by the given blend tree.
    pub fn with_animation_node(self, animation_node: crate::blend::GltfAnimationNode) -> (r:
        GltfSceneInstance)
        ensures
            r == (GltfSceneInstance { animation_node, ..self }),
    {
        GltfSceneInstance { animation_node, ..self }
    }

    /// The named animation, if present.
    pub fn animation(&self, name: &str) -> (r: Option<&crate::playback::GltfSceneAnimation>)
        ensures
            name_index(self.animations@, name@) < 0 ==> r is None,
            name_index(self.animations@, name@) >= 0 ==> (r matches Some(a) && *a
                == self.animations@[name_index(self.animations@, name@)].1),
    {
        let owned = String::from_str(name);
        let mut i: usize = 0;
        while i < self.animations.len()
            invariant
                0 <= i <= self.animations@.len(),
                owned@ == name@,
                forall|j: int| 0 <= j < i ==> self.animations@[j].0@ != name@,
            decreases self.animations@.len() - i,
        {
            if self.animations[i].0 == owned {
                proof {
                    lemma_name_index_at(self.animations@, name@, i as int);
                }
                return Some(&self.animations[i].1);
            }
            i += 1;
        }
        proof {
            lemma_name_index_at(self.animations@, name@, self.animations@.len() as int);
        }
        None
    }

    /// The named parameter, if present.
    pub fn parameter(&self, name: &str) -> (r: Option<&crate::playback::GltfAnimationParameter>)
        ensures
            name_index(self.parameters@, name@) < 0 ==> r is None,
            name_index(self.parameters@, name@) >= 0 ==> (r matches Some(p) && *p
                == self.parameters@[name_index(self.parameters@, name@)].1),
    {
        let owned = String::from_str(name);
        let mut i: usize = 0;
        while i < self.parameters.len()
            invariant
                0 <= i <= self.parameters@.len(),
                owned@ == name@,
                forall|j: int| 0 <= j < i ==> self.parameters@[j].0@ != name@,
            decreases self.parameters@.len() - i,
        {
            if self.parameters[i].0 == owned {
                proof {
                    lemma_name_index_at(self.parameters@, name@, i as int);
                }
                return Some(&self.parameters[i].1);
            }
            i += 1;
        }
        proof {
            lemma_name_index_at(self.parameters@, name@, self.parameters@.len() as int);
        }
        None
    }

    /// All live animations with their names, in insertion order.
    pub fn animations(&self) -> (r: &Vec<(String, crate::playback::GltfSceneAnimation)>)
        ensures
            r == &self.animations,
    {
        &self.animations
    }

    /// All named parameters, in insertion order.
    pub fn parameters(&self) -> (r: &Vec<(String, crate::playback::GltfAnimationParameter)>)
        ensures
            r == &self.parameters,
    {
        &self.parameters
    }

    /// The container the instance was made from.
    pub fn container_handle(&self) -> (r: AssetHandle)
        ensures
            r == self.container_handle,
    {
        self.container_handle
    }

    /// The node arena, in depth-first preorder.
    pub fn graph(&self) -> (r: &Vec<GltfSceneNode>)
        ensures
            r == &self.nodes,
    {
        &self.nodes
    }

    /// The arena slots of the template's root nodes, in order.
    pub fn roots(&self) -> (r: &Vec<usize>)
        ensures
            r == &self.roots,
    {
        &self.roots
    }

    /// Adds (or replaces) a named animation.
    pub fn add_animation(&mut self, name: &str, animation: crate::playback::GltfSceneAnimation)
        ensures
            name_index(old(self).animations@, name@) >= 0 ==> final(self).animations@ == old(
                self,
            ).animations@.update(
                name_index(old(self).animations@, name@),
                (old(self).animations@[name_index(old(self).animations@, name@)].0, animation),
            ),
            name_index(old(self).animations@, name@) < 0 ==> {
                &&& final(self).animations@.len() == old(self).animations@.len() + 1
                &&& final(self).animations@.last().0@ == name@
                &&& final(self).animations@.last().1 == animation
                &&& final(self).animations@.take(old(self).animations@.len() as int) == old(self).animations@
            },
            *final(self) == (GltfSceneInstance { animations: final(self).animations, ..(*old(self)) }),
    {
        let owned = String::from_str(name);
        let mut i: usize = 0;
        while i < self.animations.len()
            invariant
                0 <= i <= self.animations@.len(),
                owned@ == name@,
                *self == *old(self),
                forall|j: int| 0 <= j < i ==> self.animations@[j].0@ != name@,
            decreases self.animations@.len() - i,
        {
            if self.animations[i].0 == owned {
                proof {
                    lemma_name_index_at(self.animations@, name@, i as int);
                }
                let key = self.animations[i].0.clone();
                self.animations.set(i, (key, animation));
                return ;
            }
            i += 1;
        }
        proof {
            lemma_name_index_at(self.animations@, name@, self.animations@.len() as int);
        }
        self.animations.push((owned, animation));
        proof {
            assert(final(self).animations@.take(old(self).animations@.len() as int) =~= old(
                self,
            ).animations@);
        }
    }

    /// Removes the named animation, if present.
    pub fn remove_animation(&mut self, name: &str)
        ensures
            name_index(old(self).animations@, name@) < 0 ==> *final(self) == *old(self),
            name_index(old(self).animations@, name@) >= 0 ==> final(self).animations@ == old(
                self,
            ).animations@.remove(name_index(old(self).animations@, name@)) && *final(self) == (
            GltfSceneInstance { animations: final(self).animations, ..(*old(self)) }),
    {
        let owned = String::from_str(name);
        let mut i: usize = 0;
        while i < self.animations.len()
            invariant
                0 <= i <= self.animations@.len(),
                owned@ == name@,
                *self == *old(self),
                forall|j: int| 0 <= j < i ==> self.animations@[j].0@ != name@,
            decreases self.animations@.len() - i,
        {
            if self.animations[i].0 == owned {
                proof {
                    lemma_name_index_at(self.animations@, name@, i as int);
                }
                self.animations.remove(i);
                return ;
            }
            i += 1;
        }
        proof {
            lemma_name_index_at(self.animations@, name@, self.animations@.len() as int);
        }
    }

    /// Adds (or replaces) a named parameter.
    pub fn add_parameter(&mut self, name: &str, parameter: crate::playback::GltfAnimationParameter)
        ensures
            name_index(old(self).parameters@, name@) >= 0 ==> final(self).parameters@ == old(
                self,
            ).parameters@.update(
                name_index(old(self).parameters@, name@),
                (old(self).parameters@[name_index(old(self).parameters@, name@)].0, parameter),
            ),
            name_index(old(self).parameters@, name@) < 0 ==> {
                &&& final(self).parameters@.len() == old(self).parameters@.len() + 1
                &&& final(self).parameters@.last().0@ == name@
                &&& final(self).parameters@.last().1 == parameter
                &&& final(self).parameters@.take(old(self).parameters@.len() as int) == old(self).parameters@
            },
            *final(self) == (GltfSceneInstance { parameters: final(self).parameters, ..(*old(self)) }),
    {
        let owned = String::from_str(name);
        let mut i: usize = 0;
        while i < self.parameters.len()
            invariant
                0 <= i <= self.parameters@.len(),
                owned@ == name@,
                *self == *old(self),
                forall|j: int| 0 <= j < i ==> self.parameters@[j].0@ != name@,
            decreases self.parameters@.len() - i,
        {
            if self.parameters[i].0 == owned {
                proof {
                    lemma_name_index_at(self.parameters@, name@, i as int);
                }
                let key = self.parameters[i].0.clone();
                self.parameters.set(i, (key, parameter));
                return ;
            }
            i += 1;
        }
        proof {
            lemma_name_index_at(self.parameters@, name@, self.parameters@.len() as int);
        }
        self.parameters.push((owned, parameter));
        proof {
            assert(final(self).parameters@.take(old(self).parameters@.len() as int) =~= old(
                self,
            ).parameters@);
        }
    }

    /// Removes the named parameter, if present.
    pub fn remove_parameter(&mut self, name: &str)
        ensures
            name_index(old(self).parameters@, name@) < 0 ==> *final(self) == *old(self),
            name_index(old(self).parameters@, name@) >= 0 ==> final(self).parameters@ == old(
                self,
            ).parameters@.remove(name_index(old(self).parameters@, name@)) && *final(self) == (
            GltfSceneInstance { parameters: final(self).parameters, ..(*old(self)) }),
    {
        let owned = String::from_str(name);
        let mut i: usize = 0;
        while i < self.parameters.len()
            invariant
                0 <= i <= self.parameters@.len(),
                owned@ == name@,
                *self == *old(self),
                forall|j: int| 0 <= j < i ==> self.parameters@[j].0@ != name@,
            decreases self.parameters@.len() - i,
        {
            if self.parameters[i].0 == owned {
                proof {
                    lemma_name_index_at(self.parameters@, name@, i as int);
                }
                self.parameters.remove(i);
                return ;
            }
            i += 1;
        }
        proof {
            lemma_name_index_at(self.parameters@, name@, self.parameters@.len() as int);
        }
    }

    /// The blend tree driving the clip weights.
    pub fn animation_node(&self) -> (r: &crate::blend::GltfAnimationNode)
        ensures
            r == &self.animation_node,
    {
        &self.animation_node
    }

    /// Replaces the blend tree.
    pub fn set_animation_node(&mut self, animation_node: crate::blend::GltfAnimationNode)
        ensures
            *final(self) == (GltfSceneInstance { animation_node, ..(*old(self)) }),
    {
        self.animation_node = animation_node;
    }

    /// Walks the arena in depth-first preorder and reports each node's
    /// level, identity, name, pose state and attribute presence.
    pub fn visit_tree(&self) -> (r: Vec<GltfSceneVisit>)
        ensures
            r@.len() == self.nodes@.len(),
            forall|i: int|
                0 <= i < r@.len() ==> {
                    let v = #[trigger] r@[i];
                    &&& v.level == self.nodes@[i].depth
                    &&& v.index == i
                    &&& v.id == self.nodes@[i].id
                    &&& v.name@ == self.nodes@[i].name@
                    &&& v.state == self.nodes@[i].state
                    &&& v.mesh == self.nodes@[i].mesh
                    &&& v.skin == self.nodes@[i].skin
                    &&& v.bone == self.nodes@[i].bone
                },
    {
        let mut out: Vec<GltfSceneVisit> = Vec::new();
        let mut i: usize = 0;
        while i < self.nodes.len()
            invariant
                0 <= i <= self.nodes@.len(),
                out@.len() == i,
                forall|u: int|
                    0 <= u < i ==> {
                        let v = #[trigger] out@[u];
                        &&& v.level == self.nodes@[u].depth
                        &&& v.index == u
                        &&& v.id == self.nodes@[u].id
                        &&& v.name@ == self.nodes@[u].name@
                        &&& v.state == self.nodes@[u].state
                        &&& v.mesh == self.nodes@[u].mesh
                        &&& v.skin == self.nodes@[u].skin
                        &&& v.bone == self.nodes@[u].bone
                    },
            decreases self.nodes@.len() - i,
        {
            let n = &self.nodes[i];
            out.push(
                GltfSceneVisit {
                    level: n.depth,
                    index: i,
                    id: n.id,
                    name: n.name.clone(),
                    state: n.state,
                    mesh: n.mesh,
                    skin: n.skin,
                    bone: n.bone,
                },
            );
            i += 1;
        }
        out
    }
}

impl GltfSceneInstance {
    /// Recomputes every node's cached matrices, top down: the local
    /// matrix from its pose, the global matrix as the parent's global
    /// times the local (roots compose onto the instance pose), and the
    /// cached inverses of both.
    #[verifier::rlimit(60)]
    pub fn recompute_matrices(&mut self)
        requires
            parents_before(old(self).nodes@),
        ensures
            final(self).nodes@.len() == old(self).nodes@.len(),
            forall|i: int|
                0 <= i < old(self).nodes@.len() ==> same_but_matrices(
                    #[trigger] final(self).nodes@[i],
                    old(self).nodes@[i],
                ),
            matrices_consistent(final(self).nodes@, old(self).transform),
            final(self).transform == old(self).transform,
            final(self).blend_only_affected_animations == old(
                self,
            ).blend_only_affected_animations,
            final(self).container_handle == old(self).container_handle,
            final(self).roots == old(self).roots,
            final(self).animations == old(self).animations,
            final(self).parameters == old(self).parameters,
            final(self).animation_node == old(self).animation_node,
            parents_before(final(self).nodes@),
    {
        let root_matrix = transform_to_matrix(&self.transform);
        let total = self.nodes.len();
        let mut i: usize = 0;
        while i < total
            invariant
                0 <= i <= total,
                total == self.nodes@.len(),
                self.nodes@.len() == old(self).nodes@.len(),
                self.transform == old(self).transform,
                self.blend_only_affected_animations == old(self).blend_only_affected_animations,
                self.container_handle == old(self).container_handle,
                self.roots == old(self).roots,
                self.animations == old(self).animations,
                self.parameters == old(self).parameters,
                self.animation_node == old(self).animation_node,
                root_matrix == transform_to_matrix_spec(old(self).transform),
                parents_before(self.nodes@),
                forall|u: int|
                    0 <= u < self.nodes@.len() ==> same_but_matrices(
                        #[trigger] self.nodes@[u],
                        old(self).nodes@[u],
                    ),
                forall|u: int| i <= u < self.nodes@.len() ==> self.nodes@[u] == old(self).nodes@[u],
                forall|u: int|
                    0 <= u < i ==> {
                        let st = (#[trigger] self.nodes@[u]).state;
                        &&& st.local_matrix == transform_to_matrix_spec(st.transform)
                        &&& st.global_matrix == mat_mul_spec(
                            parent_global(self.nodes@, u, old(self).transform),
                            st.local_matrix,
                        )
                        &&& st.local_inverse_matrix == mat_inverse_spec(st.local_matrix)
                        &&& st.global_inverse_matrix == mat_inverse_spec(st.global_matrix)
                    },
            decreases total - i,
        {
            let parent_matrix = match self.nodes[i].parent {
                Some(p) => self.nodes[p].state.global_matrix,
                None => root_matrix,
            };
            let local = transform_to_matrix(&self.nodes[i].state.transform);
            let global = mat_mul(&parent_matrix, &local);
            let local_inverse = mat_inverse(&local);
            let global_inverse = mat_inverse(&global);
            let mut record = self.nodes[i].clone_node();
            record.state.local_matrix = local;
            record.state.local_inverse_matrix = local_inverse;
            record.state.global_matrix = global;
            record.state.global_inverse_matrix = global_inverse;
            self.nodes.set(i, record);
            i += 1;
        }
    }
}

} // verus!
