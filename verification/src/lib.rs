//! Skeletal scene instancing and animation-blending engine.
//!
//! Given an immutable hierarchical scene description (nodes, meshes, skins,
//! animation clips), the library produces, per frame, a fully posed, skinned,
//! render-ready mesh set: a blend tree maps named clips to scalar weights,
//! each playing clip is sampled per channel, weighted pose deltas are
//! composed onto bind poses, matrices are recomputed top-down and final bone
//! matrices drive vertex skinning.
//!
//! All scalar quantities use a fixed-point type so that every arithmetic
//! step has an exact, machine-checkable meaning.

pub mod blend;
pub mod editable;
pub mod fixed;
pub mod math;
pub mod playback;
pub mod render;
pub mod scene;
pub mod tag;

use vstd::prelude::*;

verus! {

} // verus!
