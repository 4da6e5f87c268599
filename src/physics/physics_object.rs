//! A shape together with the rule that decides who moves on contact.
use vstd::prelude::*;
use crate::physics::shapes::Shape;

verus! {

/// Whether an object absorbs positional correction (`Dynamic`) or never moves (`Static`).
#[derive(Clone, Copy, Debug, PartialEq, Eq, Structural)]
pub enum ColliderType {
    Static,
    Dynamic,
}

/// A shape registered with the simulation, with its collider classification.
#[derive(Clone, Copy, Debug, PartialEq, Eq, Structural)]
pub struct PhysicsObject {
    pub shape: Shape,
    pub collider_type: ColliderType,
}

impl PhysicsObject {
    pub open spec fn wf(self) -> bool {
        self.shape.wf()
    }

    pub fn new(shape: Shape, collider_type: ColliderType) -> (r: PhysicsObject)
        ensures
            r.shape == shape && r.collider_type == collider_type,
    {
        PhysicsObject { shape, collider_type }
    }
}

} // verus!
