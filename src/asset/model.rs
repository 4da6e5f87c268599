//! A model's vertex buffer contents.
use vstd::prelude::*;

verus! {

/// The vertex buffer of a model, as the bytes handed to the renderer.
pub struct Model {
    vbo: Vec<u8>,
}

impl Model {
    /// The buffer's bytes.
    pub closed spec fn bytes(&self) -> Seq<u8> {
        self.vbo@
    }

    pub fn new(vbo: Vec<u8>) -> (r: Model)
        ensures
            r.bytes() == vbo@,
    {
        Model { vbo }
    }

    pub fn get_vbo(&self) -> (r: &Vec<u8>)
        ensures
            r@ == self.bytes(),
    {
        &self.vbo
    }
}

} // verus!
