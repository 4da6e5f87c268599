//! Loaded assets: a model's vertex data with its vertex layout.
use vstd::prelude::*;

pub mod animation;
pub mod model;
pub mod skeleton;

use crate::asset::model::Model;

verus! {

/// A model together with the layout of its vertices.
pub struct Asset {
    pub model: Model,
    pub mesh_type: MeshType,
}

impl Asset {
    pub fn new(model: Model, mesh_type: MeshType) -> (r: Asset)
        ensures
            r.model == model,
            r.mesh_type == mesh_type,
    {
        Asset { model, mesh_type }
    }
}

/// The vertex layout of a mesh.
#[derive(Debug, Clone, Copy, PartialEq, Eq, PartialOrd, Ord, Structural)]
pub enum MeshType {
    /// position: 3 floats, normal: 3 floats, tex_coords: 2 floats, color: 4 floats.
    Standard,
    /// The `Standard` layout, then joint_set: 4 u16 and weights: 4 floats.
    Skeletal,
}

} // verus!
