//! Skinning and renderable building.
//!
//! Each frame, every bone's final matrix is derived as its node's
//! global matrix times the skin's inverse-bind matrix; mesh vertices
//! are then skinned by up to four weighted bones (or carried by their
//! node's matrix alone), projected onto a chosen pair of axes, and
//! emitted as renderable batches for the external renderer.

use crate::fixed::Fx;
use crate::math::{mat_mul, mat_mul_spec, mat_mul_point2, mat_mul_point2_spec, mat_mul_point3,
    mat_mul_point3_spec, vec3_add, vec3_add_spec, vec3_scale, vec3_scale_spec, vec3_zero,
    vec3_zero_spec, Mat4, Vec2, Vec3};
use crate::scene::{handle_index, AssetHandle, GltfAssetDatabase, GltfBlending, GltfNodeId,
    GltfPrimitive, GltfSceneInstance, GltfSceneNode, GltfSkin, GltfTriangle, GltfVertex, Rgba};
use vstd::prelude::*;

verus! {

/// How emitted triangles are ordered.
#[derive(Clone, Copy, Debug, PartialEq, Eq, Structural)]
pub enum GltfTriangleSorting {
    Unsorted,
    MaxPositiveZ,
}

/// A pair of model-space axis numbers, each naming one of the three
/// coordinates.
#[derive(Clone, Copy, Debug, PartialEq, Eq, Structural)]
pub struct GltfAxisPair {
    pub first: usize,
    pub second: usize,
}

/// Mirror flags for the two output axes.
#[derive(Clone, Copy, Debug, PartialEq, Eq, Structural)]
pub struct GltfFlipPair {
    pub first: bool,
    pub second: bool,
}

/// Options for building renderables: the shader to draw with, which
/// two axes of model space map to the output plane, whether either is
/// mirrored, and the triangle ordering.
#[derive(Clone, Debug)]
pub struct GltfRenderablesOptions {
    pub shader: Option<String>,
    pub axes: GltfAxisPair,
    pub flip_axes: GltfFlipPair,
    pub triangle_sorting: GltfTriangleSorting,
}

impl Default for GltfRenderablesOptions {
    /// No shader override, the first two axes unmirrored, no re-sort.
    fn default() -> (r: GltfRenderablesOptions)
        ensures
            r.shader is None,
            r.axes == (GltfAxisPair { first: 0, second: 1 }),
            r.flip_axes == (GltfFlipPair { first: false, second: false }),
            r.triangle_sorting == GltfTriangleSorting::Unsorted,
    {
        GltfRenderablesOptions {
            shader: None,
            axes: GltfAxisPair { first: 0, second: 1 },
            flip_axes: GltfFlipPair { first: false, second: false },
            triangle_sorting: GltfTriangleSorting::Unsorted,
        }
    }
}

impl GltfRenderablesOptions {
    /// The same options drawing with the named shader.
    pub fn shader(self, shader: String) -> (r: GltfRenderablesOptions)
        ensures
            r == (GltfRenderablesOptions { shader: Some(shader), ..self }),
    {
        GltfRenderablesOptions { shader: Some(shader), ..self }
    }

    /// The same options projecting onto the given axes.
    pub fn axes(self, axes: GltfAxisPair) -> (r: GltfRenderablesOptions)
        ensures
            r == (GltfRenderablesOptions { axes, ..self }),
    {
        GltfRenderablesOptions { axes, ..self }
    }

    /// The same options with the given mirror flags.
    pub fn flip_axes(self, flip_axes: GltfFlipPair) -> (r: GltfRenderablesOptions)
        ensures
            r == (GltfRenderablesOptions { flip_axes, ..self }),
    {
        GltfRenderablesOptions { flip_axes, ..self }
    }

    /// The same options with the given triangle ordering.
    pub fn triangle_sorting(self, sorting: GltfTriangleSorting) -> (r: GltfRenderablesOptions)
        ensures
            r == (GltfRenderablesOptions { triangle_sorting: sorting, ..self }),
    {
        GltfRenderablesOptions { triangle_sorting: sorting, ..self }
    }

    /// The same options re-sorting triangles back to front by their
    /// largest depth coordinate.
    pub fn sort_triangles_by_max_positive_z(self) -> (r: GltfRenderablesOptions)
        ensures
            r == (GltfRenderablesOptions {
                triangle_sorting: GltfTriangleSorting::MaxPositiveZ,
                ..self
            }),
    {
        GltfRenderablesOptions { triangle_sorting: GltfTriangleSorting::MaxPositiveZ, ..self }
    }
}

/// Why a renderable build failed: an asset the graph references is not
/// in the store.
#[derive(Clone, Copy, Debug, PartialEq, Eq, Structural)]
pub enum GltfSceneError {
    MeshAssetNotFound(AssetHandle),
    SkinAssetNotFound(AssetHandle),
}

impl GltfSceneError {
    /// A short description of the failure.
    pub fn message(&self) -> (r: &'static str)
        ensures
            self is MeshAssetNotFound ==> r@ == "Mesh asset not found"@,
            self is SkinAssetNotFound ==> r@ == "Skin asset not found"@,
    {
        match self {
            GltfSceneError::MeshAssetNotFound(_) => "Mesh asset not found",
            GltfSceneError::SkinAssetNotFound(_) => "Skin asset not found",
        }
    }
}

/// One final vertex: a projected planar position with the original
/// texture coordinates and color.
#[derive(Clone, Copy, Debug, PartialEq, Eq, Structural)]
pub struct GltfFinalVertex {
    pub position: Vec2,
    pub uv: Vec2,
    pub color: Rgba,
}

/// One renderable batch: shader, texture and blend mode with the
/// triangles and final vertices to draw.
#[derive(Clone, Debug)]
pub struct GltfSceneRenderable {
    pub shader: Option<String>,
    pub main_texture: Option<u64>,
    pub blending: GltfBlending,
    pub triangles: Vec<GltfTriangle>,
    pub vertices: Vec<GltfFinalVertex>,
}

/// The renderable batches of one build, in graph order.
#[derive(Debug)]
pub struct GltfSceneRenderables {
    pub renderables: Vec<GltfSceneRenderable>,
}

/// The first index of `id` in the bone-matrix list, or `-1`.
pub open spec fn bone_entry_index(s: Seq<(GltfNodeId, Mat4)>, id: GltfNodeId) -> int
    decreases s.len(),
{
    if s.len() == 0 {
        -1
    } else if s[0].0 == id {
        0
    } else {
        let r = bone_entry_index(s.drop_first(), id);
        if r < 0 {
            -1
        } else {
            1 + r
        }
    }
}

/// A position with no earlier occurrence and an occurrence (or the end,
/// standing for absence) pins down `bone_entry_index`.
pub proof fn lemma_bone_entry_index_at(s: Seq<(GltfNodeId, Mat4)>, id: GltfNodeId, i: int)
    requires
        0 <= i <= s.len(),
        forall|j: int| 0 <= j < i ==> s[j].0 != id,
        i < s.len() ==> s[i].0 == id,
    ensures
        i < s.len() ==> bone_entry_index(s, id) == i,
        i == s.len() ==> bone_entry_index(s, id) == -1,
    decreases s.len(),
{
    if s.len() == 0 {
    } else if s[0].0 == id {
    } else {
        assert(forall|j: int| 0 <= j < i - 1 ==> s.drop_first()[j].0 != id);
        lemma_bone_entry_index_at(s.drop_first(), id, i - 1);
    }
}

/// A bone entry stored under `id`, replacing an earlier one or
/// appended.
pub open spec fn bone_insert(s: Seq<(GltfNodeId, Mat4)>, id: GltfNodeId, m: Mat4) -> Seq<
    (GltfNodeId, Mat4),
> {
    let i = bone_entry_index(s, id);
    if 0 <= i < s.len() {
        s.update(i, (id, m))
    } else {
        s.push((id, m))
    }
}

/// The first index in a bone list naming `id`, or `-1`.
pub open spec fn first_bone_at(bones: Seq<crate::scene::GltfSkeletonBone>, id: GltfNodeId) -> int
    decreases bones.len(),
{
    if bones.len() == 0 {
        -1
    } else if bones[0].id == id {
        0
    } else {
        let r = first_bone_at(bones.drop_first(), id);
        if r < 0 {
            -1
        } else {
            1 + r
        }
    }
}

/// A position with no earlier occurrence and an occurrence (or the end,
/// standing for absence) pins down `first_bone_at`.
pub proof fn lemma_first_bone_at(bones: Seq<crate::scene::GltfSkeletonBone>, id: GltfNodeId,
    i: int)
    requires
        0 <= i <= bones.len(),
        forall|j: int| 0 <= j < i ==> (#[trigger] bones[j]).id != id,
        i < bones.len() ==> bones[i].id == id,
    ensures
        i < bones.len() ==> first_bone_at(bones, id) == i,
        i == bones.len() ==> first_bone_at(bones, id) == -1,
    decreases bones.len(),
{
    if bones.len() == 0 {
    } else if bones[0].id == id {
    } else {
        assert(forall|j: int| 0 <= j < i - 1 ==> (#[trigger] bones.drop_first()[j]).id != id);
        lemma_first_bone_at(bones.drop_first(), id, i - 1);
    }
}

/// One node folded into the bone-matrix list for one skin: when the
/// skin's bone list names the node (and the inverse-bind index is in
/// range), the entry under the node's identity becomes the node's
/// global matrix times the inverse-bind matrix.
pub open spec fn bone_node_step(state: Seq<(GltfNodeId, Mat4)>, nodes: Seq<GltfSceneNode>,
    skin: GltfSkin, t: int) -> Seq<(GltfNodeId, Mat4)> {
    let id = nodes[t].id;
    let bi = first_bone_at(skin.bones@, id);
    if bi < 0 {
        state
    } else if skin.bones@[bi].ibm_index >= skin.inverse_bind_matrices@.len() {
        state
    } else {
        bone_insert(
            state,
            id,
            mat_mul_spec(
                nodes[t].state.global_matrix,
                skin.inverse_bind_matrices@[skin.bones@[bi].ibm_index as int],
            ),
        )
    }
}

/// The first `t` nodes folded into the bone-matrix list for one skin.
pub open spec fn bone_nodes_fold(state: Seq<(GltfNodeId, Mat4)>, nodes: Seq<GltfSceneNode>,
    skin: GltfSkin, t: int) -> Seq<(GltfNodeId, Mat4)>
    decreases t,
{
    if t <= 0 {
        state
    } else {
        bone_node_step(bone_nodes_fold(state, nodes, skin, t - 1), nodes, skin, t - 1)
    }
}

/// The first `j` skin-bearing nodes folded into the bone-matrix list;
/// a node without a skin, or whose skin is not stored, adds nothing
/// here (the missing store entry is reported separately).
pub open spec fn bone_skins_fold(state: Seq<(GltfNodeId, Mat4)>, nodes: Seq<GltfSceneNode>,
    db: GltfAssetDatabase, j: int) -> Seq<(GltfNodeId, Mat4)>
    decreases j,
{
    if j <= 0 {
        state
    } else {
        let prev = bone_skins_fold(state, nodes, db, j - 1);
        match nodes[j - 1].skin {
            Some(h) => {
                let hi = handle_index(db.skins@, h);
                if hi < 0 {
                    prev
                } else {
                    bone_nodes_fold(prev, nodes, db.skins@[hi].1, nodes.len() as int)
                }
            },
            None => prev,
        }
    }
}

/// The first node whose skin the store lacks, or `-1` when every skin
/// resolves.
pub open spec fn first_missing_skin(nodes: Seq<GltfSceneNode>, db: GltfAssetDatabase) -> int
    decreases nodes.len(),
{
    if nodes.len() == 0 {
        -1
    } else if nodes[0].skin is Some && handle_index(db.skins@, nodes[0].skin->0) < 0 {
        0
    } else {
        let r = first_missing_skin(nodes.drop_first(), db);
        if r < 0 {
            -1
        } else {
            1 + r
        }
    }
}

/// A position with no earlier missing skin and a missing skin (or the
/// end) pins down `first_missing_skin`.
pub proof fn lemma_first_missing_skin_at(nodes: Seq<GltfSceneNode>, db: GltfAssetDatabase, i: int)
    requires
        0 <= i <= nodes.len(),
        forall|j: int|
            0 <= j < i ==> ((#[trigger] nodes[j]).skin is Some ==> handle_index(
                db.skins@,
                nodes[j].skin->0,
            ) >= 0),
        i < nodes.len() ==> nodes[i].skin is Some && handle_index(db.skins@, nodes[i].skin->0) < 0,
    ensures
        i < nodes.len() ==> first_missing_skin(nodes, db) == i,
        i == nodes.len() ==> first_missing_skin(nodes, db) == -1,
    decreases nodes.len(),
{
    if nodes.len() == 0 {
    } else if nodes[0].skin is Some && handle_index(db.skins@, nodes[0].skin->0) < 0 {
    } else {
        assert(forall|j: int|
            0 <= j < i - 1 ==> ((#[trigger] nodes.drop_first()[j]).skin is Some ==> handle_index(
                db.skins@,
                nodes.drop_first()[j].skin->0,
            ) >= 0));
        lemma_first_missing_skin_at(nodes.drop_first(), db, i - 1);
    }
}

impl GltfSceneInstance {
    /// Derives every bone's final skinning matrix: for each stored skin
    /// in the graph, each node the skin's bone list names gets its
    /// global matrix times the matching inverse-bind matrix. Fails with
    /// the first skin handle the store lacks.
    #[verifier::loop_isolation(false)]
    #[verifier::rlimit(100)]
    pub fn compute_final_bone_matrices(&self, database: &GltfAssetDatabase) -> (r: Result<
        Vec<(GltfNodeId, Mat4)>,
        GltfSceneError,
    >)
        ensures
            first_missing_skin(self.nodes@, *database) >= 0 ==> r == Err::<
                Vec<(GltfNodeId, Mat4)>,
                GltfSceneError,
            >(
                GltfSceneError::SkinAssetNotFound(
                    self.nodes@[first_missing_skin(self.nodes@, *database)].skin->0,
                ),
            ),
            first_missing_skin(self.nodes@, *database) < 0 ==> (r matches Ok(v) && v@
                == bone_skins_fold(
                Seq::<(GltfNodeId, Mat4)>::empty(),
                self.nodes@,
                *database,
                self.nodes@.len() as int,
            )),
    {
        let n = self.nodes.len();
        let mut out: Vec<(GltfNodeId, Mat4)> = Vec::new();
        proof {
            assert(out@ =~= Seq::<(GltfNodeId, Mat4)>::empty());
        }
        let mut j: usize = 0;
        while j < n
            invariant
                0 <= j <= n,
                n == self.nodes@.len(),
                forall|u: int|
                    0 <= u < j ==> ((#[trigger] self.nodes@[u]).skin is Some ==> handle_index(
                        database.skins@,
                        self.nodes@[u].skin->0,
                    ) >= 0),
                out@ == bone_skins_fold(
                    Seq::<(GltfNodeId, Mat4)>::empty(),
                    self.nodes@,
                    *database,
                    j as int,
                ),
            decreases n - j,
        {
            let skin_handle = self.nodes[j].skin;
            if let Some(h) = skin_handle {
                match database.find_skin(h) {
                    Some(si) => {
                        let skin = &database.skins[si].1;
                        let mut t: usize = 0;
                        while t < n
                            invariant
                                0 <= t <= n,
                                0 <= j < n,
                                si as int == handle_index(database.skins@, h),
                                0 <= si < database.skins@.len(),
                                skin == &database.skins@[si as int].1,
                                out@ == bone_nodes_fold(
                                    bone_skins_fold(
                                        Seq::<(GltfNodeId, Mat4)>::empty(),
                                        self.nodes@,
                                        *database,
                                        j as int,
                                    ),
                                    self.nodes@,
                                    database.skins@[si as int].1,
                                    t as int,
                                ),
                            decreases n - t,
                        {
                            let id = self.nodes[t].id;
                            let mut bi: Option<usize> = None;
                            let mut b: usize = 0;
                            while b < skin.bones.len()
                                invariant
                                    0 <= b <= skin.bones@.len(),
                                    bi is None ==> forall|u: int|
                                        0 <= u < b ==> (#[trigger] skin.bones@[u]).id != id,
                                    bi matches Some(x) ==> x < skin.bones@.len() && first_bone_at(
                                        skin.bones@,
                                        id,
                                    ) == x as int,
                                decreases skin.bones@.len() - b,
                            {
                                if bi.is_none() && skin.bones[b].id == id {
                                    proof {
                                        lemma_first_bone_at(skin.bones@, id, b as int);
                                    }
                                    bi = Some(b);
                                }
                                b += 1;
                            }
                            proof {
                                if bi is None {
                                    lemma_first_bone_at(skin.bones@, id, skin.bones@.len() as int);
                                }
                            }
                            if let Some(bx) = bi {
                                let ibm_index = skin.bones[bx].ibm_index;
                                if ibm_index < skin.inverse_bind_matrices.len() {
                                    let m = mat_mul(
                                        &self.nodes[t].state.global_matrix,
                                        &skin.inverse_bind_matrices[ibm_index],
                                    );
                                    let mut e: usize = 0;
                                    let mut stored = false;
                                    while e < out.len()
                                        invariant
                                            0 <= e <= out@.len(),
                                            !stored ==> forall|u: int|
                                                0 <= u < e ==> (#[trigger] out@[u]).0 != id,
                                            !stored ==> out@ == bone_nodes_fold(
                                                bone_skins_fold(
                                                    Seq::<(GltfNodeId, Mat4)>::empty(),
                                                    self.nodes@,
                                                    *database,
                                                    j as int,
                                                ),
                                                self.nodes@,
                                                database.skins@[si as int].1,
                                                t as int,
                                            ),
                                            stored ==> out@ == bone_insert(
                                                bone_nodes_fold(
                                                    bone_skins_fold(
                                                        Seq::<(GltfNodeId, Mat4)>::empty(),
                                                        self.nodes@,
                                                        *database,
                                                        j as int,
                                                    ),
                                                    self.nodes@,
                                                    database.skins@[si as int].1,
                                                    t as int,
                                                ),
                                                id,
                                                m,
                                            ),
                                            m == mat_mul_spec(
                                                self.nodes@[t as int].state.global_matrix,
                                                database.skins@[si as int].1.inverse_bind_matrices@[
                                                    database.skins@[si as int].1.bones@[
                                                        first_bone_at(
                                                            database.skins@[si as int].1.bones@,
                                                            id,
                                                        )
                                                    ].ibm_index as int
                                                ],
                                            ),
                                        decreases out@.len() - e,
                                    {
                                        if !stored && out[e].0 == id {
                                            proof {
                                                lemma_bone_entry_index_at(
                                                    bone_nodes_fold(
                                                        bone_skins_fold(
                                                            Seq::<(GltfNodeId, Mat4)>::empty(),
                                                            self.nodes@,
                                                            *database,
                                                            j as int,
                                                        ),
                                                        self.nodes@,
                                                        database.skins@[si as int].1,
                                                        t as int,
                                                    ),
                                                    id,
                                                    e as int,
                                                );
                                            }
                                            out.set(e, (id, m));
                                            stored = true;
                                        }
                                        e += 1;
                                    }
                                    if !stored {
                                        proof {
                                            lemma_bone_entry_index_at(out@, id, out@.len() as int);
                                        }
                                        out.push((id, m));
                                    }
                                }
                            }
                            t += 1;
                        }
                    },
                    None => {
                        proof {
                            lemma_first_missing_skin_at(self.nodes@, *database, j as int);
                        }
                        return Err(GltfSceneError::SkinAssetNotFound(h));
                    },
                }
            }
            j += 1;
        }
        proof {
            lemma_first_missing_skin_at(self.nodes@, *database, self.nodes@.len() as int);
        }
        Ok(out)
    }
}

/// An entry is stored under `x` exactly when some position holds `x`.
proof fn lemma_bone_entry_present(s: Seq<(GltfNodeId, Mat4)>, x: GltfNodeId)
    ensures
        (bone_entry_index(s, x) >= 0) <==> (exists|q: int|
            0 <= q < s.len() && (#[trigger] s[q]).0 == x),
        bone_entry_index(s, x) >= 0 ==> 0 <= bone_entry_index(s, x) < s.len() && s[
            bone_entry_index(s, x)
        ].0 == x,
    decreases s.len(),
{
    if s.len() > 0 && s[0].0 != x {
        lemma_bone_entry_present(s.drop_first(), x);
        if bone_entry_index(s, x) >= 0 {
            assert(s[bone_entry_index(s, x)] == s.drop_first()[bone_entry_index(s, x) - 1]);
        }
        if exists|q: int| 0 <= q < s.len() && (#[trigger] s[q]).0 == x {
            let q = choose|q: int| 0 <= q < s.len() && (#[trigger] s[q]).0 == x;
            assert(s.drop_first()[q - 1] == s[q]);
        }
    }
}

/// An entry once present stays present through later bone insertions,
/// and the inserted identity is present afterwards.
proof fn lemma_bone_insert_keeps(s: Seq<(GltfNodeId, Mat4)>, id: GltfNodeId, m: Mat4,
    x: GltfNodeId)
    requires
        bone_entry_index(s, x) >= 0 || x == id,
    ensures
        bone_entry_index(bone_insert(s, id, m), x) >= 0,
{
    lemma_bone_entry_present(s, x);
    lemma_bone_entry_present(s, id);
    let u = bone_insert(s, id, m);
    lemma_bone_entry_present(u, x);
    let at = bone_entry_index(s, id);
    if x == id {
        if 0 <= at < s.len() {
            assert(u[at].0 == id);
        } else {
            assert(u[s.len() as int].0 == id);
        }
    } else {
        let q = choose|q: int| 0 <= q < s.len() && (#[trigger] s[q]).0 == x;
        if 0 <= at < s.len() {
            assert(q != at);
            assert(u[q].0 == x);
        } else {
            assert(u[q].0 == x);
        }
    }
}

/// Presence of an entry survives the per-skin node fold.
proof fn lemma_bone_nodes_fold_keeps(state: Seq<(GltfNodeId, Mat4)>, nodes: Seq<GltfSceneNode>,
    skin: GltfSkin, t: int, x: GltfNodeId)
    requires
        bone_entry_index(state, x) >= 0,
    ensures
        bone_entry_index(bone_nodes_fold(state, nodes, skin, t), x) >= 0,
    decreases t,
{
    if t > 0 {
        lemma_bone_nodes_fold_keeps(state, nodes, skin, t - 1, x);
        let prev = bone_nodes_fold(state, nodes, skin, t - 1);
        let id = nodes[t - 1].id;
        let bi = first_bone_at(skin.bones@, id);
        if bi >= 0 && skin.bones@[bi].ibm_index < skin.inverse_bind_matrices@.len() {
            lemma_bone_insert_keeps(
                prev,
                id,
                mat_mul_spec(
                    nodes[t - 1].state.global_matrix,
                    skin.inverse_bind_matrices@[skin.bones@[bi].ibm_index as int],
                ),
                x,
            );
        }
    }
}

/// After the per-skin node fold has passed a node whose identity the
/// skin's bone list names (with the inverse-bind index in range), that
/// identity holds an entry.
proof fn lemma_bone_nodes_fold_adds(state: Seq<(GltfNodeId, Mat4)>, nodes: Seq<GltfSceneNode>,
    skin: GltfSkin, t: int, t0: int)
    requires
        0 <= t0 < t,
        ({
            let bi = first_bone_at(skin.bones@, nodes[t0].id);
            bi >= 0 && skin.bones@[bi].ibm_index < skin.inverse_bind_matrices@.len()
        }),
    ensures
        bone_entry_index(bone_nodes_fold(state, nodes, skin, t), nodes[t0].id) >= 0,
    decreases t,
{
    let id = nodes[t0].id;
    if t0 == t - 1 {
        let prev = bone_nodes_fold(state, nodes, skin, t - 1);
        let bi = first_bone_at(skin.bones@, id);
        lemma_bone_insert_keeps(
            prev,
            id,
            mat_mul_spec(
                nodes[t - 1].state.global_matrix,
                skin.inverse_bind_matrices@[skin.bones@[bi].ibm_index as int],
            ),
            id,
        );
    } else {
        lemma_bone_nodes_fold_adds(state, nodes, skin, t - 1, t0);
        let prev = bone_nodes_fold(state, nodes, skin, t - 1);
        let idl = nodes[t - 1].id;
        let bil = first_bone_at(skin.bones@, idl);
        if bil >= 0 && skin.bones@[bil].ibm_index < skin.inverse_bind_matrices@.len() {
            lemma_bone_insert_keeps(
                prev,
                idl,
                mat_mul_spec(
                    nodes[t - 1].state.global_matrix,
                    skin.inverse_bind_matrices@[skin.bones@[bil].ibm_index as int],
                ),
                id,
            );
        }
    }
}

/// Presence of an entry survives the skin-by-skin fold.
proof fn lemma_bone_skins_fold_keeps(state: Seq<(GltfNodeId, Mat4)>, nodes: Seq<GltfSceneNode>,
    db: GltfAssetDatabase, j: int, x: GltfNodeId)
    requires
        bone_entry_index(state, x) >= 0,
    ensures
        bone_entry_index(bone_skins_fold(state, nodes, db, j), x) >= 0,
    decreases j,
{
    if j > 0 {
        lemma_bone_skins_fold_keeps(state, nodes, db, j - 1, x);
        let prev = bone_skins_fold(state, nodes, db, j - 1);
        match nodes[j - 1].skin {
            Some(h) => {
                let hi = handle_index(db.skins@, h);
                if hi >= 0 {
                    lemma_bone_nodes_fold_keeps(
                        prev,
                        nodes,
                        db.skins@[hi].1,
                        nodes.len() as int,
                        x,
                    );
                }
            },
            None => {
            },
        }
    }
}

/// The completeness direction of the bone-matrix derivation: for every
/// skin a node carries and the store holds, every graph node whose
/// identity that skin's bone list names (with the inverse-bind index in
/// range) ends with an entry in the bone-matrix list.
pub proof fn lemma_bone_matrices_complete(nodes: Seq<GltfSceneNode>, db: GltfAssetDatabase,
    j: int)
    requires
        0 <= j <= nodes.len(),
    ensures
        forall|j2: int, t: int|
            {
                &&& 0 <= j2 < j
                &&& 0 <= t < nodes.len()
                &&& (#[trigger] nodes[j2]).skin is Some
                &&& handle_index(db.skins@, nodes[j2].skin->0) >= 0
                &&& {
                    let skin = db.skins@[handle_index(db.skins@, nodes[j2].skin->0)].1;
                    let bi = first_bone_at(skin.bones@, (#[trigger] nodes[t]).id);
                    bi >= 0 && skin.bones@[bi].ibm_index < skin.inverse_bind_matrices@.len()
                }
            } ==> bone_entry_index(
                bone_skins_fold(Seq::<(GltfNodeId, Mat4)>::empty(), nodes, db, j),
                nodes[t].id,
            ) >= 0,
    decreases j,
{
    if j > 0 {
        lemma_bone_matrices_complete(nodes, db, j - 1);
        let prev = bone_skins_fold(Seq::<(GltfNodeId, Mat4)>::empty(), nodes, db, j - 1);
        let cur = bone_skins_fold(Seq::<(GltfNodeId, Mat4)>::empty(), nodes, db, j);
        assert forall|j2: int, t: int|
            {
                &&& 0 <= j2 < j
                &&& 0 <= t < nodes.len()
                &&& (#[trigger] nodes[j2]).skin is Some
                &&& handle_index(db.skins@, nodes[j2].skin->0) >= 0
                &&& {
                    let skin = db.skins@[handle_index(db.skins@, nodes[j2].skin->0)].1;
                    let bi = first_bone_at(skin.bones@, (#[trigger] nodes[t]).id);
                    bi >= 0 && skin.bones@[bi].ibm_index < skin.inverse_bind_matrices@.len()
                }
            } implies bone_entry_index(cur, nodes[t].id) >= 0 by {
            if j2 == j - 1 {
                let h = nodes[j - 1].skin->0;
                let hi = handle_index(db.skins@, h);
                lemma_bone_nodes_fold_adds(prev, nodes, db.skins@[hi].1, nodes.len() as int, t);
            } else {
                match nodes[j - 1].skin {
                    Some(h) => {
                        let hi = handle_index(db.skins@, h);
                        if hi >= 0 {
                            lemma_bone_nodes_fold_keeps(
                                prev,
                                nodes,
                                db.skins@[hi].1,
                                nodes.len() as int,
                                nodes[t].id,
                            );
                        }
                    },
                    None => {
                    },
                }
            }
        }
    }
}

/// Every matrix in the bone list is some node's global matrix times an
/// inverse-bind matrix of a stored skin whose bone list names that
/// node.
pub proof fn lemma_bone_matrices_sound(nodes: Seq<GltfSceneNode>, db: GltfAssetDatabase, j: int)
    requires
        0 <= j <= nodes.len(),
    ensures
        forall|e: int|
            0 <= e < bone_skins_fold(Seq::<(GltfNodeId, Mat4)>::empty(), nodes, db, j).len()
                ==> bone_entry_sound(
                #[trigger] bone_skins_fold(Seq::<(GltfNodeId, Mat4)>::empty(), nodes, db, j)[e],
                nodes,
                db,
            ),
    decreases j,
{
    if j > 0 {
        lemma_bone_matrices_sound(nodes, db, j - 1);
        let prev = bone_skins_fold(Seq::<(GltfNodeId, Mat4)>::empty(), nodes, db, j - 1);
        match nodes[j - 1].skin {
            Some(h) => {
                let hi = handle_index(db.skins@, h);
                if hi >= 0 {
                    lemma_handle_bound_for_bones(db, h);
                    lemma_bone_nodes_sound(prev, nodes, db, hi, nodes.len() as int);
                }
            },
            None => {
            },
        }
    }
}

/// Whether one bone entry is justified: some node and stored skin
/// produce exactly this matrix.
pub open spec fn bone_entry_sound(entry: (GltfNodeId, Mat4), nodes: Seq<GltfSceneNode>,
    db: GltfAssetDatabase) -> bool {
    exists|t: int, hi: int|
        {
            &&& 0 <= t < nodes.len()
            &&& 0 <= hi < db.skins@.len()
            &&& (#[trigger] nodes[t]).id == entry.0
            &&& {
                let skin = (#[trigger] db.skins@[hi]).1;
                let bi = first_bone_at(skin.bones@, entry.0);
                &&& 0 <= bi < skin.bones@.len()
                &&& skin.bones@[bi].ibm_index < skin.inverse_bind_matrices@.len()
                &&& entry.1 == mat_mul_spec(
                    nodes[t].state.global_matrix,
                    skin.inverse_bind_matrices@[skin.bones@[bi].ibm_index as int],
                )
            }
        }
}

proof fn lemma_handle_bound_for_bones(db: GltfAssetDatabase, h: AssetHandle)
    ensures
        -1 <= handle_index(db.skins@, h) < db.skins@.len(),
{
    crate::scene::lemma_handle_index_bound(db.skins@, h);
}

proof fn lemma_bone_nodes_sound(state: Seq<(GltfNodeId, Mat4)>, nodes: Seq<GltfSceneNode>,
    db: GltfAssetDatabase, hi: int, t: int)
    requires
        0 <= hi < db.skins@.len(),
        0 <= t <= nodes.len(),
        forall|e: int| 0 <= e < state.len() ==> bone_entry_sound(#[trigger] state[e], nodes, db),
    ensures
        forall|e: int|
            0 <= e < bone_nodes_fold(state, nodes, db.skins@[hi].1, t).len() ==> bone_entry_sound(
                #[trigger] bone_nodes_fold(state, nodes, db.skins@[hi].1, t)[e],
                nodes,
                db,
            ),
    decreases t,
{
    if t > 0 {
        lemma_bone_nodes_sound(state, nodes, db, hi, t - 1);
        let prev = bone_nodes_fold(state, nodes, db.skins@[hi].1, t - 1);
        let skin = db.skins@[hi].1;
        let id = nodes[t - 1].id;
        let bi = first_bone_at(skin.bones@, id);
        lemma_first_bone_bound(skin.bones@, id);
        if bi >= 0 && skin.bones@[bi].ibm_index < skin.inverse_bind_matrices@.len() {
            let m = mat_mul_spec(
                nodes[t - 1].state.global_matrix,
                skin.inverse_bind_matrices@[skin.bones@[bi].ibm_index as int],
            );
            assert(bone_entry_sound((id, m), nodes, db));
            let cur = bone_insert(prev, id, m);
            assert forall|e: int|
                0 <= e < cur.len() implies bone_entry_sound(#[trigger] cur[e], nodes, db) by {
                let at = bone_entry_index(prev, id);
                if 0 <= at < prev.len() {
                    if e != at {
                        assert(cur[e] == prev[e]);
                    }
                } else {
                    if e < prev.len() {
                        assert(cur[e] == prev[e]);
                    }
                }
            }
        }
    }
}

/// `first_bone_at` stays inside the bone list (or is `-1`).
pub proof fn lemma_first_bone_bound(bones: Seq<crate::scene::GltfSkeletonBone>, id: GltfNodeId)
    ensures
        -1 <= first_bone_at(bones, id) < bones.len(),
        first_bone_at(bones, id) >= 0 ==> bones[first_bone_at(bones, id)].id == id,
    decreases bones.len(),
{
    if bones.len() > 0 && bones[0].id != id {
        lemma_first_bone_bound(bones.drop_first(), id);
    }
}

/// One coordinate of a vector, chosen by axis number; other numbers
/// read as zero.
pub open spec fn axis_component(v: Vec3, axis: usize) -> Fx {
    if axis == 0 {
        v.x
    } else if axis == 1 {
        v.y
    } else if axis == 2 {
        v.z
    } else {
        Fx { raw: 0 }
    }
}

/// One joint's contribution to a skinned vertex: the bone's final
/// matrix applied to the model-space position, scaled by the joint
/// weight; a joint outside the skin's bone list, or a bone without a
/// final matrix, contributes nothing.
pub open spec fn joint_contribution(pos: Vec3, skin: GltfSkin, bones: Seq<(GltfNodeId, Mat4)>,
    joint: u16, w: Fx) -> Vec3 {
    if (joint as int) < skin.bones@.len() {
        let bid = skin.bones@[joint as int].id;
        let bi = bone_entry_index(bones, bid);
        if bi >= 0 {
            vec3_scale_spec(mat_mul_point3_spec(bones[bi].1, pos), w)
        } else {
            vec3_zero_spec()
        }
    } else {
        vec3_zero_spec()
    }
}

/// A vertex's model-space position after skinning: the weighted sum of
/// its four joints' bone transforms; a vertex without joint data, or a
/// node without a skin, keeps its authored position.
pub open spec fn skinned_position(v: GltfVertex, skin: Option<GltfSkin>, bones: Seq<
    (GltfNodeId, Mat4),
>) -> Vec3 {
    match skin {
        Some(sk) => match (v.joints, v.weights) {
            (Some(j), Some(w)) => vec3_add_spec(
                vec3_add_spec(
                    vec3_add_spec(
                        vec3_add_spec(vec3_zero_spec(), joint_contribution(v.position, sk, bones, j.a, w.a)),
                        joint_contribution(v.position, sk, bones, j.b, w.b),
                    ),
                    joint_contribution(v.position, sk, bones, j.c, w.c),
                ),
                joint_contribution(v.position, sk, bones, j.d, w.d),
            ),
            _ => v.position,
        },
        None => v.position,
    }
}

/// Whether a vertex is driven by bones: its primitive's node carries a
/// skin and the vertex has joint and weight data.
pub open spec fn vertex_is_skinned(v: GltfVertex, skin: Option<GltfSkin>) -> bool {
    skin is Some && v.joints is Some && v.weights is Some
}

/// A final vertex: the position's two chosen axes, mirrored as asked,
/// with the authored texture coordinates and color. A skinned position
/// is already in world space (the bone matrices carry the globals), so
/// only an unskinned vertex goes through the node's global matrix.
pub open spec fn final_vertex_spec(v: GltfVertex, skin: Option<GltfSkin>, bones: Seq<
    (GltfNodeId, Mat4),
>, global: Mat4, axes: GltfAxisPair, flips: GltfFlipPair) -> GltfFinalVertex {
    let p = skinned_position(v, skin, bones);
    let x0 = axis_component(p, axes.first);
    let y0 = axis_component(p, axes.second);
    let x1 = if flips.first {
        crate::fixed::fx_neg_spec(x0)
    } else {
        x0
    };
    let y1 = if flips.second {
        crate::fixed::fx_neg_spec(y0)
    } else {
        y0
    };
    let planar = Vec2 { x: x1, y: y1 };
    GltfFinalVertex {
        position: if vertex_is_skinned(v, skin) {
            planar
        } else {
            mat_mul_point2_spec(global, planar)
        },
        uv: v.uv,
        color: v.color,
    }
}

/// The sort key of a triangle: the largest depth coordinate of its
/// three authored vertex positions; an index outside the vertex list
/// reads as zero.
pub open spec fn triangle_key(vertices: Seq<GltfVertex>, t: GltfTriangle) -> Fx {
    let za = if (t.a as int) < vertices.len() {
        vertices[t.a as int].position.z
    } else {
        Fx { raw: 0 }
    };
    let zb = if (t.b as int) < vertices.len() {
        vertices[t.b as int].position.z
    } else {
        Fx { raw: 0 }
    };
    let zc = if (t.c as int) < vertices.len() {
        vertices[t.c as int].position.z
    } else {
        Fx { raw: 0 }
    };
    let m1 = if za.raw >= zb.raw {
        za
    } else {
        zb
    };
    if m1.raw >= zc.raw {
        m1
    } else {
        zc
    }
}

/// Reads a triangle's sort key.
fn triangle_key_exec(vertices: &Vec<GltfVertex>, t: GltfTriangle) -> (r: Fx)
    ensures
        r == triangle_key(vertices@, t),
{
    let za = if (t.a as usize) < vertices.len() {
        vertices[t.a as usize].position.z
    } else {
        Fx { raw: 0 }
    };
    let zb = if (t.b as usize) < vertices.len() {
        vertices[t.b as usize].position.z
    } else {
        Fx { raw: 0 }
    };
    let zc = if (t.c as usize) < vertices.len() {
        vertices[t.c as usize].position.z
    } else {
        Fx { raw: 0 }
    };
    let m1 = if za.raw >= zb.raw {
        za
    } else {
        zb
    };
    if m1.raw >= zc.raw {
        m1
    } else {
        zc
    }
}

/// Sorts triangles by ascending key, by repeatedly moving a smallest
/// remaining triangle over; the result is a permutation of the input.
#[verifier::loop_isolation(false)]
fn sort_triangles(tris: Vec<GltfTriangle>, vertices: &Vec<GltfVertex>) -> (r: Vec<GltfTriangle>)
    ensures
        r@.len() == tris@.len(),
        r@.to_multiset() == tris@.to_multiset(),
        forall|a: int, b: int|
            0 <= a < b < r@.len() ==> triangle_key(vertices@, #[trigger] r@[a]).raw
                <= triangle_key(vertices@, #[trigger] r@[b]).raw,
{
    broadcast use vstd::seq_lib::group_seq_properties;

    let mut rest = tris;
    let mut out: Vec<GltfTriangle> = Vec::new();
    proof {
        rest@.to_multiset_ensures();
        out@.to_multiset_ensures();
        assert(out@.to_multiset().add(rest@.to_multiset()) =~= tris@.to_multiset());
    }
    while rest.len() > 0
        invariant
            out@.len() + rest@.len() == tris@.len(),
            out@.to_multiset().add(rest@.to_multiset()) == tris@.to_multiset(),
            forall|a: int, b: int|
                0 <= a < b < out@.len() ==> triangle_key(vertices@, #[trigger] out@[a]).raw
                    <= triangle_key(vertices@, #[trigger] out@[b]).raw,
            forall|a: int, b: int|
                0 <= a < out@.len() && 0 <= b < rest@.len() ==> triangle_key(
                    vertices@,
                    #[trigger] out@[a],
                ).raw <= triangle_key(vertices@, #[trigger] rest@[b]).raw,
        decreases rest@.len(),
    {
        let mut mi: usize = 0;
        let mut k: usize = 1;
        while k < rest.len()
            invariant
                0 <= mi < rest@.len(),
                1 <= k <= rest@.len(),
                forall|u: int|
                    0 <= u < k ==> triangle_key(vertices@, rest@[mi as int]).raw <= triangle_key(
                        vertices@,
                        #[trigger] rest@[u],
                    ).raw,
            decreases rest@.len() - k,
        {
            if triangle_key_exec(vertices, rest[k]).raw < triangle_key_exec(
                vertices,
                rest[mi],
            ).raw {
                mi = k;
            }
            k += 1;
        }
        let ghost old_rest = rest@;
        let ghost old_out = out@;
        let x = rest.remove(mi);
        out.push(x);
        proof {
            old_rest.to_multiset_ensures();
            old_out.to_multiset_ensures();
            assert(rest@ == old_rest.remove(mi as int));
            assert(rest@.to_multiset() =~= old_rest.to_multiset().remove(x));
            assert(out@.to_multiset() =~= old_out.to_multiset().insert(x));
            assert(old_rest.to_multiset().contains(x)) by {
                assert(old_rest[mi as int] == x);
                assert(old_rest.contains(x));
            }
            assert(out@.to_multiset().add(rest@.to_multiset()) =~= tris@.to_multiset());
        }
    }
    proof {
        assert(rest@.to_multiset() =~= Seq::<GltfTriangle>::empty().to_multiset());
        assert(out@.to_multiset().add(rest@.to_multiset()) =~= out@.to_multiset());
    }
    out
}

/// The skin asset a node's vertices are bound to, if the node names
/// one and the store holds it.
pub open spec fn node_skin_asset(node: GltfSceneNode, db: GltfAssetDatabase) -> Option<GltfSkin> {
    match node.skin {
        Some(h) => {
            let hi = handle_index(db.skins@, h);
            if hi >= 0 {
                Some(db.skins@[hi].1)
            } else {
                None
            }
        },
        None => None,
    }
}

/// The first mesh-bearing node whose mesh the store lacks, or `-1`.
pub open spec fn first_missing_mesh(nodes: Seq<GltfSceneNode>, db: GltfAssetDatabase) -> int
    decreases nodes.len(),
{
    if nodes.len() == 0 {
        -1
    } else if nodes[0].mesh is Some && handle_index(db.meshes@, nodes[0].mesh->0) < 0 {
        0
    } else {
        let r = first_missing_mesh(nodes.drop_first(), db);
        if r < 0 {
            -1
        } else {
            1 + r
        }
    }
}

/// A position with no earlier missing mesh and a missing mesh (or the
/// end) pins down `first_missing_mesh`.
pub proof fn lemma_first_missing_mesh_at(nodes: Seq<GltfSceneNode>, db: GltfAssetDatabase, i: int)
    requires
        0 <= i <= nodes.len(),
        forall|j: int|
            0 <= j < i ==> ((#[trigger] nodes[j]).mesh is Some ==> handle_index(
                db.meshes@,
                nodes[j].mesh->0,
            ) >= 0),
        i < nodes.len() ==> nodes[i].mesh is Some && handle_index(db.meshes@, nodes[i].mesh->0)
            < 0,
    ensures
        i < nodes.len() ==> first_missing_mesh(nodes, db) == i,
        i == nodes.len() ==> first_missing_mesh(nodes, db) == -1,
    decreases nodes.len(),
{
    if nodes.len() == 0 {
    } else if nodes[0].mesh is Some && handle_index(db.meshes@, nodes[0].mesh->0) < 0 {
    } else {
        assert(forall|j: int|
            0 <= j < i - 1 ==> ((#[trigger] nodes.drop_first()[j]).mesh is Some ==> handle_index(
                db.meshes@,
                nodes.drop_first()[j].mesh->0,
            ) >= 0));
        lemma_first_missing_mesh_at(nodes.drop_first(), db, i - 1);
    }
}

/// How many renderables the first `i` nodes emit: one per primitive of
/// each stored mesh.
pub open spec fn renderable_count_upto(nodes: Seq<GltfSceneNode>, db: GltfAssetDatabase,
    i: int) -> int
    decreases i,
{
    if i <= 0 {
        0
    } else {
        renderable_count_upto(nodes, db, i - 1) + (match nodes[i - 1].mesh {
            Some(h) => {
                let hi = handle_index(db.meshes@, h);
                if hi >= 0 {
                    db.meshes@[hi].1.primitives@.len() as int
                } else {
                    0
                }
            },
            None => 0,
        })
    }
}

/// The slot of node `i`'s primitive `p` in the emitted renderables.
pub open spec fn renderable_slot(nodes: Seq<GltfSceneNode>, db: GltfAssetDatabase, i: int,
    p: int) -> int {
    renderable_count_upto(nodes, db, i) + p
}

/// The renderable count is never negative.
pub proof fn lemma_renderable_count_nonneg(nodes: Seq<GltfSceneNode>, db: GltfAssetDatabase,
    a: int)
    ensures
        renderable_count_upto(nodes, db, a) >= 0,
    decreases a,
{
    if a > 0 {
        lemma_renderable_count_nonneg(nodes, db, a - 1);
    }
}

/// The renderable count never shrinks as more nodes are taken in.
pub proof fn lemma_renderable_count_monotone(nodes: Seq<GltfSceneNode>, db: GltfAssetDatabase,
    a: int, b: int)
    requires
        a <= b,
    ensures
        renderable_count_upto(nodes, db, a) <= renderable_count_upto(nodes, db, b),
    decreases b - a,
{
    if a < b {
        lemma_renderable_count_monotone(nodes, db, a, b - 1);
    }
}

/// Whether one emitted renderable is exactly one primitive's output
/// under the given skin, bone matrices and options: same texture and
/// blend mode, the options' shader, every vertex skinned and projected,
/// and the triangles kept in order or re-sorted by ascending largest
/// depth, as asked.
pub open spec fn primitive_output(rend: GltfSceneRenderable, prim: GltfPrimitive, skin: Option<
    GltfSkin>, bones: Seq<(GltfNodeId, Mat4)>, global: Mat4, options: GltfRenderablesOptions,
) -> bool {
    &&& (match options.shader {
        Some(s) => rend.shader matches Some(rs) && rs@ == s@,
        None => rend.shader is None,
    })
    &&& rend.main_texture == prim.main_texture
    &&& rend.blending == prim.blending
    &&& rend.vertices@.len() == prim.vertices@.len()
    &&& forall|v: int|
        0 <= v < prim.vertices@.len() ==> (#[trigger] rend.vertices@[v]) == final_vertex_spec(
            prim.vertices@[v],
            skin,
            bones,
            global,
            options.axes,
            options.flip_axes,
        )
    &&& (match options.triangle_sorting {
        GltfTriangleSorting::Unsorted => rend.triangles@ == prim.triangles@,
        GltfTriangleSorting::MaxPositiveZ => {
            &&& rend.triangles@.len() == prim.triangles@.len()
            &&& rend.triangles@.to_multiset() == prim.triangles@.to_multiset()
            &&& forall|a: int, b: int|
                0 <= a < b < rend.triangles@.len() ==> triangle_key(
                    prim.vertices@,
                    #[trigger] rend.triangles@[a],
                ).raw <= triangle_key(prim.vertices@, #[trigger] rend.triangles@[b]).raw
        },
    })
}

/// Whether one emitted renderable is exactly node `i`'s primitive `p`:
/// `primitive_output` under that node's stored skin, global matrix and
/// the shared bone matrices.
pub open spec fn renderable_matches(rend: GltfSceneRenderable, nodes: Seq<GltfSceneNode>,
    db: GltfAssetDatabase, bones: Seq<(GltfNodeId, Mat4)>, options: GltfRenderablesOptions,
    i: int, p: int) -> bool {
    let node = nodes[i];
    let hi = handle_index(db.meshes@, node.mesh->0);
    let prim = db.meshes@[hi].1.primitives@[p];
    primitive_output(rend, prim, node_skin_asset(node, db), bones, node.state.global_matrix, options)
}

/// Skins and projects one vertex.
#[verifier::loop_isolation(false)]
fn final_vertex(v: &GltfVertex, skin: Option<&GltfSkin>, bones: &Vec<(GltfNodeId, Mat4)>,
    global: &Mat4, axes: GltfAxisPair, flips: GltfFlipPair) -> (r: GltfFinalVertex)
    ensures
        r == final_vertex_spec(
            *v,
            match skin {
                Some(s) => Some(*s),
                None => None,
            },
            bones@,
            *global,
            axes,
            flips,
        ),
{
    let p = match skin {
        Some(sk) => {
            match (v.joints, v.weights) {
                (Some(j), Some(w)) => {
                    let mut acc = vec3_zero();
                    acc = vec3_add(acc, joint_contribution_exec(v.position, sk, bones, j.a, w.a));
                    acc = vec3_add(acc, joint_contribution_exec(v.position, sk, bones, j.b, w.b));
                    acc = vec3_add(acc, joint_contribution_exec(v.position, sk, bones, j.c, w.c));
                    acc = vec3_add(acc, joint_contribution_exec(v.position, sk, bones, j.d, w.d));
                    acc
                },
                _ => v.position,
            }
        },
        None => v.position,
    };
    let x0 = axis_component_exec(p, axes.first);
    let y0 = axis_component_exec(p, axes.second);
    let x1 = if flips.first {
        crate::fixed::fx_neg(x0)
    } else {
        x0
    };
    let y1 = if flips.second {
        crate::fixed::fx_neg(y0)
    } else {
        y0
    };
    let planar = Vec2 { x: x1, y: y1 };
    let skinned = match skin {
        Some(_) => v.joints.is_some() && v.weights.is_some(),
        None => false,
    };
    GltfFinalVertex {
        position: if skinned {
            planar
        } else {
            mat_mul_point2(global, planar)
        },
        uv: v.uv,
        color: v.color,
    }
}

/// Reads one coordinate by axis number.
fn axis_component_exec(v: Vec3, axis: usize) -> (r: Fx)
    ensures
        r == axis_component(v, axis),
{
    if axis == 0 {
        v.x
    } else if axis == 1 {
        v.y
    } else if axis == 2 {
        v.z
    } else {
        Fx { raw: 0 }
    }
}

/// Computes one joint's skinning contribution.
#[verifier::loop_isolation(false)]
fn joint_contribution_exec(pos: Vec3, skin: &GltfSkin, bones: &Vec<(GltfNodeId, Mat4)>,
    joint: u16, w: Fx) -> (r: Vec3)
    ensures
        r == joint_contribution(pos, *skin, bones@, joint, w),
{
    if (joint as usize) < skin.bones.len() {
        let bid = skin.bones[joint as usize].id;
        let mut e: usize = 0;
        while e < bones.len()
            invariant
                0 <= e <= bones@.len(),
                forall|u: int| 0 <= u < e ==> (#[trigger] bones@[u]).0 != bid,
            decreases bones@.len() - e,
        {
            if bones[e].0 == bid {
                proof {
                    lemma_bone_entry_index_at(bones@, bid, e as int);
                }
                return vec3_scale(mat_mul_point3(&bones[e].1, pos), w);
            }
            e += 1;
        }
        proof {
            lemma_bone_entry_index_at(bones@, bid, bones@.len() as int);
        }
        vec3_zero()
    } else {
        vec3_zero()
    }
}

/// Emits one primitive as a renderable batch appended to `out`:
/// vertices skinned and projected, triangles kept or re-sorted, the
/// options' shader with the primitive's texture and blend mode.
#[verifier::loop_isolation(false)]
fn emit_primitive(out: &mut Vec<GltfSceneRenderable>, prim: &GltfPrimitive, skin: Option<
    &GltfSkin>, bones: &Vec<(GltfNodeId, Mat4)>, global: &Mat4, options: &GltfRenderablesOptions)
    ensures
        final(out)@.len() == old(out)@.len() + 1,
        forall|q: int| 0 <= q < old(out)@.len() ==> final(out)@[q] == old(out)@[q],
        primitive_output(
            final(out)@[old(out)@.len() as int],
            *prim,
            match skin {
                Some(s) => Some(*s),
                None => None,
            },
            bones@,
            *global,
            *options,
        ),
{
    let vcount = prim.vertices.len();
    let mut vertices: Vec<GltfFinalVertex> = Vec::new();
    let mut v: usize = 0;
    while v < vcount
        invariant
            0 <= v <= vcount,
            vcount == prim.vertices@.len(),
            vertices@.len() == v,
            forall|u: int|
                0 <= u < v ==> (#[trigger] vertices@[u]) == final_vertex_spec(
                    prim.vertices@[u],
                    match skin {
                        Some(s) => Some(*s),
                        None => None,
                    },
                    bones@,
                    *global,
                    options.axes,
                    options.flip_axes,
                ),
        decreases vcount - v,
    {
        let fv = final_vertex(&prim.vertices[v], skin, bones, global, options.axes,
            options.flip_axes);
        vertices.push(fv);
        v += 1;
    }
    let mut triangles: Vec<GltfTriangle> = Vec::new();
    let mut t: usize = 0;
    while t < prim.triangles.len()
        invariant
            0 <= t <= prim.triangles@.len(),
            triangles@ =~= prim.triangles@.take(t as int),
        decreases prim.triangles@.len() - t,
    {
        triangles.push(prim.triangles[t]);
        proof {
            assert(triangles@ =~= prim.triangles@.take(t + 1));
        }
        t += 1;
    }
    proof {
        assert(triangles@ =~= prim.triangles@);
    }
    let triangles = match options.triangle_sorting {
        GltfTriangleSorting::Unsorted => triangles,
        GltfTriangleSorting::MaxPositiveZ => sort_triangles(triangles, &prim.vertices),
    };
    let shader = match &options.shader {
        Some(s) => Some(s.clone()),
        None => None,
    };
    out.push(
        GltfSceneRenderable {
            shader,
            main_texture: prim.main_texture,
            blending: prim.blending,
            triangles,
            vertices,
        },
    );
}

impl GltfSceneInstance {
    /// Builds the frame's renderables: matrices are recomputed, final
    /// bone matrices derived, and every stored mesh's primitives are
    /// skinned, projected and emitted in graph order. Fails with the
    /// first skin, then the first mesh, that the store lacks.
    #[verifier::loop_isolation(false)]
    #[verifier::rlimit(100)]
    pub fn build_renderables(&mut self, database: &GltfAssetDatabase,
        options: &GltfRenderablesOptions) -> (r: Result<GltfSceneRenderables, GltfSceneError>)
        requires
            crate::scene::parents_before(old(self).nodes@),
        ensures
            final(self).nodes@.len() == old(self).nodes@.len(),
            crate::scene::matrices_consistent(final(self).nodes@, old(self).transform),
            crate::scene::parents_before(final(self).nodes@),
            first_missing_skin(final(self).nodes@, *database) >= 0 ==> r == Err::<
                GltfSceneRenderables,
                GltfSceneError,
            >(
                GltfSceneError::SkinAssetNotFound(
                    final(self).nodes@[first_missing_skin(final(self).nodes@, *database)].skin->0,
                ),
            ),
            first_missing_skin(final(self).nodes@, *database) < 0 && first_missing_mesh(
                final(self).nodes@,
                *database,
            ) >= 0 ==> r == Err::<GltfSceneRenderables, GltfSceneError>(
                GltfSceneError::MeshAssetNotFound(
                    final(self).nodes@[first_missing_mesh(final(self).nodes@, *database)].mesh->0,
                ),
            ),
            first_missing_skin(final(self).nodes@, *database) < 0 && first_missing_mesh(
                final(self).nodes@,
                *database,
            ) < 0 ==> (r matches Ok(out) && {
                let nodes = final(self).nodes@;
                let bones = bone_skins_fold(
                    Seq::<(GltfNodeId, Mat4)>::empty(),
                    nodes,
                    *database,
                    nodes.len() as int,
                );
                &&& out.renderables@.len() == renderable_count_upto(
                    nodes,
                    *database,
                    nodes.len() as int,
                )
                &&& forall|i: int, p: int|
                    0 <= i < nodes.len() && nodes[i].mesh is Some && 0 <= p < database.meshes@[
                        handle_index(database.meshes@, nodes[i].mesh->0)
                    ].1.primitives@.len() ==> renderable_matches(
                        out.renderables@[#[trigger] renderable_slot(nodes, *database, i, p)],
                        nodes,
                        *database,
                        bones,
                        *options,
                        i,
                        p,
                    )
            }),
            forall|i: int|
                0 <= i < old(self).nodes@.len() ==> crate::scene::same_but_matrices(
                    #[trigger] final(self).nodes@[i],
                    old(self).nodes@[i],
                ),
            final(self).roots == old(self).roots,
            final(self).animations == old(self).animations,
            final(self).parameters == old(self).parameters,
            final(self).animation_node == old(self).animation_node,
            final(self).transform == old(self).transform,
            final(self).blend_only_affected_animations == old(
                self,
            ).blend_only_affected_animations,
            final(self).container_handle == old(self).container_handle,
    {
        self.recompute_matrices();
        let bones = match self.compute_final_bone_matrices(database) {
            Ok(b) => b,
            Err(e) => {
                return Err(e);
            },
        };
        let n = self.nodes.len();
        let mut renderables: Vec<GltfSceneRenderable> = Vec::new();
        let mut i: usize = 0;
        while i < n
            invariant
                0 <= i <= n,
                n == self.nodes@.len(),
                *self == *final(self),
                bones@ == bone_skins_fold(
                    Seq::<(GltfNodeId, Mat4)>::empty(),
                    self.nodes@,
                    *database,
                    n as int,
                ),
                forall|u: int|
                    0 <= u < i ==> ((#[trigger] self.nodes@[u]).mesh is Some ==> handle_index(
                        database.meshes@,
                        self.nodes@[u].mesh->0,
                    ) >= 0),
                renderables@.len() == renderable_count_upto(self.nodes@, *database, i as int),
                forall|i2: int, p2: int|
                    0 <= i2 < i && self.nodes@[i2].mesh is Some && 0 <= p2 < database.meshes@[
                        handle_index(database.meshes@, self.nodes@[i2].mesh->0)
                    ].1.primitives@.len() ==> renderable_matches(
                        renderables@[#[trigger] renderable_slot(self.nodes@, *database, i2, p2)],
                        self.nodes@,
                        *database,
                        bones@,
                        *options,
                        i2,
                        p2,
                    ),
            decreases n - i,
        {
            let mesh_handle = self.nodes[i].mesh;
            if let Some(h) = mesh_handle {
                match database.find_mesh(h) {
                    Some(mi) => {
                        let skin_ref: Option<&GltfSkin> = match self.nodes[i].skin {
                            Some(sh) => match database.find_skin(sh) {
                                Some(si) => Some(&database.skins[si].1),
                                None => None,
                            },
                            None => None,
                        };
                        let pcount = database.meshes[mi].1.primitives.len();
                        let mut p: usize = 0;
                        while p < pcount
                            invariant
                                0 <= p <= pcount,
                                0 <= i < n,
                                mi as int == handle_index(database.meshes@, h),
                                0 <= mi < database.meshes@.len(),
                                self.nodes@[i as int].mesh == Some(h),
                                pcount == database.meshes@[mi as int].1.primitives@.len(),
                                (match skin_ref {
                                    Some(s) => node_skin_asset(self.nodes@[i as int], *database)
                                        == Some(*s),
                                    None => node_skin_asset(self.nodes@[i as int], *database)
                                        is None,
                                }),
                                renderables@.len() == renderable_count_upto(
                                    self.nodes@,
                                    *database,
                                    i as int,
                                ) + p,
                                forall|i2: int, p2: int|
                                    0 <= i2 < i && self.nodes@[i2].mesh is Some && 0 <= p2
                                        < database.meshes@[handle_index(
                                        database.meshes@,
                                        self.nodes@[i2].mesh->0,
                                    )].1.primitives@.len() ==> renderable_matches(
                                        renderables@[#[trigger] renderable_slot(
                                            self.nodes@,
                                            *database,
                                            i2,
                                            p2,
                                        )],
                                        self.nodes@,
                                        *database,
                                        bones@,
                                        *options,
                                        i2,
                                        p2,
                                    ),
                                forall|p2: int|
                                    0 <= p2 < p ==> renderable_matches(
                                        renderables@[#[trigger] renderable_slot(
                                            self.nodes@,
                                            *database,
                                            i as int,
                                            p2,
                                        )],
                                        self.nodes@,
                                        *database,
                                        bones@,
                                        *options,
                                        i as int,
                                        p2,
                                    ),
                            decreases pcount - p,
                        {
                            let prim = &database.meshes[mi].1.primitives[p];
                            emit_primitive(
                                &mut renderables,
                                prim,
                                skin_ref,
                                &bones,
                                &self.nodes[i].state.global_matrix,
                                options,
                            );
                            proof {
                                let nodes = self.nodes@;
                                let db = *database;
                                let cnt = renderable_count_upto(nodes, db, i as int);
                                assert(renderable_matches(
                                    renderables@[cnt + p],
                                    nodes,
                                    db,
                                    bones@,
                                    *options,
                                    i as int,
                                    p as int,
                                ));
                                assert forall|i2: int, p2: int|
                                    0 <= i2 < i && nodes[i2].mesh is Some && 0 <= p2 < db.meshes@[
                                        handle_index(db.meshes@, nodes[i2].mesh->0)
                                    ].1.primitives@.len() implies renderable_matches(
                                    renderables@[#[trigger] renderable_slot(nodes, db, i2, p2)],
                                    nodes,
                                    db,
                                    bones@,
                                    *options,
                                    i2,
                                    p2,
                                ) by {
                                    lemma_renderable_count_nonneg(nodes, db, i2);
                                    lemma_renderable_count_monotone(nodes, db, i2 + 1, i as int);
                                    let slot = renderable_slot(nodes, db, i2, p2);
                                    assert(0 <= slot);
                                    assert(slot < cnt);
                                }
                                assert forall|p2: int|
                                    0 <= p2 < p + 1 implies renderable_matches(
                                    renderables@[#[trigger] renderable_slot(
                                        nodes,
                                        db,
                                        i as int,
                                        p2,
                                    )],
                                    nodes,
                                    db,
                                    bones@,
                                    *options,
                                    i as int,
                                    p2,
                                ) by {
                                    lemma_renderable_count_nonneg(nodes, db, i as int);
                                }
                            }
                            p += 1;
                        }
                    },
                    None => {
                        proof {
                            lemma_first_missing_mesh_at(self.nodes@, *database, i as int);
                        }
                        return Err(GltfSceneError::MeshAssetNotFound(h));
                    },
                }
            }
            proof {
                let nodes = self.nodes@;
                let db = *database;
                assert(renderables@.len() == renderable_count_upto(nodes, db, i + 1));
                assert forall|i2: int, p2: int|
                    0 <= i2 < i + 1 && nodes[i2].mesh is Some && 0 <= p2 < db.meshes@[
                        handle_index(db.meshes@, nodes[i2].mesh->0)
                    ].1.primitives@.len() implies renderable_matches(
                    renderables@[#[trigger] renderable_slot(nodes, db, i2, p2)],
                    nodes,
                    db,
                    bones@,
                    *options,
                    i2,
                    p2,
                ) by {
                    lemma_renderable_count_nonneg(nodes, db, i2);
                    if i2 < i as int {
                        lemma_renderable_count_monotone(nodes, db, i2 + 1, i as int);
                    }
                }
            }
            i += 1;
        }
        proof {
            lemma_first_missing_mesh_at(self.nodes@, *database, self.nodes@.len() as int);
        }
        Ok(GltfSceneRenderables { renderables })
    }
}

} // verus!
