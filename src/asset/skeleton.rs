//! Joint hierarchies and the matrices handed to the GPU for skinning.
use vstd::prelude::*;
use crate::error::EngineError;
use crate::math::{mat_product, Mat4};

verus! {

/// Where a joint stands in its skeleton: its own position, its parent's,
/// and its children's, all as positions in the skeleton's joint list.
#[derive(Debug)]
pub struct JointIndices {
    pub index: usize,
    pub parent: Option<usize>,
    pub children: Vec<usize>,
}

/// A joint with its inverse bind matrix.
pub struct SkeletonJoint {
    pub inverse_bind_matrix: Mat4,
    pub indices: JointIndices,
}

/// The joints of a skeleton are well formed: each knows its own position,
/// parent and child positions are in range, no joint is its own parent,
/// its matrix is valid, and exactly one joint (the root) has no parent.
pub open spec fn joints_wf(joints: Seq<SkeletonJoint>) -> bool {
    &&& forall|i: int| 0 <= i < joints.len() ==> joint_wf(#[trigger] joints[i], i, joints.len() as int)
    &&& exists|r: int| is_only_root(joints, r)
}

pub open spec fn joint_wf(j: SkeletonJoint, i: int, n: int) -> bool {
    &&& j.indices.index == i
    &&& j.inverse_bind_matrix.wf()
    &&& (j.indices.parent matches Some(p) ==> p < n && p != i)
    &&& forall|k: int| 0 <= k < j.indices.children@.len() ==> #[trigger] j.indices.children@[k] < n
}

/// `r` is the one joint without a parent.
pub open spec fn is_only_root(joints: Seq<SkeletonJoint>, r: int) -> bool {
    &&& 0 <= r < joints.len()
    &&& joints[r].indices.parent is None
    &&& forall|i: int| 0 <= i < joints.len() && i != r ==> (#[trigger] joints[i]).indices.parent is Some
}

/// All matrices of the sequence are valid.
pub open spec fn all_wf(ms: Seq<Mat4>) -> bool {
    forall|i: int| 0 <= i < ms.len() ==> (#[trigger] ms[i]).wf()
}

/// A skeleton: joints in a fixed order, and per joint its rest (origin)
/// matrix, its current bone matrix and its inverse bind matrix.
pub struct Skeleton {
    /// For each joint, the index of the scene node it was loaded from.
    pub joint_index_map: Vec<usize>,
    pub joints: Vec<SkeletonJoint>,
    pub origin_bone_matrices: Vec<Mat4>,
    pub bone_matrices: Vec<Mat4>,
    pub inverse_bind_matrices: Vec<Mat4>,
}

impl Skeleton {
    pub open spec fn wf(&self) -> bool {
        let n = self.joints@.len();
        &&& joints_wf(self.joints@)
        &&& self.joint_index_map@.len() == n
        &&& self.origin_bone_matrices@.len() == n
        &&& self.bone_matrices@.len() == n
        &&& self.inverse_bind_matrices@.len() == n
        &&& all_wf(self.origin_bone_matrices@)
        &&& all_wf(self.bone_matrices@)
        &&& all_wf(self.inverse_bind_matrices@)
    }

    /// Builds a skeleton whose bone matrices start at the origin matrices.
    /// Fails with `DataIntegrity` unless the three lists have one entry per
    /// joint, the joints are well formed, and every origin matrix is valid.
    pub fn new(
        joint_index_map: Vec<usize>,
        joints: Vec<SkeletonJoint>,
        origin_bone_matrices: Vec<Mat4>,
    ) -> (r: Result<Skeleton, EngineError>)
        ensures
            r.is_ok() <==> (joint_index_map@.len() == joints@.len() && origin_bone_matrices@.len()
                == joints@.len() && joints_wf(joints@) && all_wf(origin_bone_matrices@)),
            r.is_err() ==> r->Err_0 is DataIntegrity,
            r matches Ok(s) ==> {
                &&& s.wf()
                &&& s.joint_index_map@ == joint_index_map@
                &&& s.joints@ == joints@
                &&& s.origin_bone_matrices@ == origin_bone_matrices@
                &&& forall|i: int|
                    0 <= i < joints@.len() ==> (#[trigger] s.bone_matrices@[i]).cols@
                        == origin_bone_matrices@[i].cols@
                &&& forall|i: int|
                    0 <= i < joints@.len() ==> (#[trigger] s.inverse_bind_matrices@[i]).cols@
                        == joints@[i].inverse_bind_matrix.cols@
            },
    {
        let n = joints.len();
        if joint_index_map.len() != n || origin_bone_matrices.len() != n {
            return Err(EngineError::DataIntegrity("skeleton lists differ in length".to_owned()));
        }
        if !check_joints(&joints) {
            return Err(EngineError::DataIntegrity("malformed joint hierarchy".to_owned()));
        }
        let mut bone_matrices: Vec<Mat4> = Vec::new();
        let mut inverse_bind_matrices: Vec<Mat4> = Vec::new();
        let mut i: usize = 0;
        while i < n
            invariant
                i <= n,
                n == joints@.len(),
                n == origin_bone_matrices@.len(),
                joints_wf(joints@),
                bone_matrices@.len() == i,
                inverse_bind_matrices@.len() == i,
                forall|j: int| 0 <= j < i ==> (#[trigger] origin_bone_matrices@[j]).wf(),
                forall|j: int|
                    0 <= j < i ==> (#[trigger] bone_matrices@[j]).cols@
                        == origin_bone_matrices@[j].cols@,
                forall|j: int|
                    0 <= j < i ==> (#[trigger] inverse_bind_matrices@[j]).cols@
                        == joints@[j].inverse_bind_matrix.cols@,
                all_wf(bone_matrices@),
                all_wf(inverse_bind_matrices@),
            decreases n - i,
        {
            if !origin_bone_matrices[i].is_valid() {
                return Err(EngineError::DataIntegrity("matrix entry out of range".to_owned()));
            }
            assert(joint_wf(joints@[i as int], i as int, n as int));
            bone_matrices.push(origin_bone_matrices[i].copy());
            inverse_bind_matrices.push(joints[i].inverse_bind_matrix.copy());
            i += 1;
        }
        Ok(Skeleton {
            joint_index_map,
            joints,
            origin_bone_matrices,
            bone_matrices,
            inverse_bind_matrices,
        })
    }

    /// Sets each joint's bone matrix to `animated_transforms[i] * origin_bone_matrices[i]`.
    pub fn update_bone_matrices(&mut self, animated_transforms: &Vec<Mat4>)
        requires
            old(self).wf(),
            animated_transforms@.len() >= old(self).joints@.len(),
            all_wf(animated_transforms@),
        ensures
            final(self).wf(),
            final(self).joints@ == old(self).joints@,
            final(self).joint_index_map@ == old(self).joint_index_map@,
            final(self).origin_bone_matrices@ == old(self).origin_bone_matrices@,
            final(self).inverse_bind_matrices@ == old(self).inverse_bind_matrices@,
            forall|i: int|
                0 <= i < old(self).joints@.len() ==> (#[trigger] final(self).bone_matrices@[i]).cols@
                    == mat_product(
                    animated_transforms@[i].cols@,
                    old(self).origin_bone_matrices@[i].cols@,
                ),
    {
        let n = self.joints.len();
        let mut i: usize = 0;
        while i < n
            invariant
                i <= n,
                n == self.joints@.len(),
                self.wf(),
                animated_transforms@.len() >= n,
                all_wf(animated_transforms@),
                self.joints@ == old(self).joints@,
                self.joint_index_map@ == old(self).joint_index_map@,
                self.origin_bone_matrices@ == old(self).origin_bone_matrices@,
                self.inverse_bind_matrices@ == old(self).inverse_bind_matrices@,
                forall|j: int|
                    0 <= j < i ==> (#[trigger] self.bone_matrices@[j]).cols@ == mat_product(
                        animated_transforms@[j].cols@,
                        old(self).origin_bone_matrices@[j].cols@,
                    ),
            decreases n - i,
        {
            let m = animated_transforms[i].mul(&self.origin_bone_matrices[i]);
            self.bone_matrices.set(i, m);
            i += 1;
        }
    }
}

/// Whether the joints are well formed, as `joints_wf` states.
fn check_joints(joints: &Vec<SkeletonJoint>) -> (r: bool)
    ensures
        r == joints_wf(joints@),
{
    let n = joints.len();
    let mut root: Option<usize> = None;
    let mut i: usize = 0;
    while i < n
        invariant
            i <= n,
            n == joints@.len(),
            forall|j: int| 0 <= j < i ==> joint_wf(#[trigger] joints@[j], j, n as int),
            root matches Some(r) ==> r < i && joints@[r as int].indices.parent is None && forall|
                j: int,
            |
                0 <= j < i && j != r ==> (#[trigger] joints@[j]).indices.parent is Some,
            root is None ==> forall|j: int|
                0 <= j < i ==> (#[trigger] joints@[j]).indices.parent is Some,
        decreases n - i,
    {
        let j = &joints[i];
        if j.indices.index != i || !j.inverse_bind_matrix.is_valid() {
            return false;
        }
        match j.indices.parent {
            Some(p) => {
                if p >= n || p == i {
                    return false;
                }
            },
            None => {
                if root.is_some() {
                    proof {
                        let r = root.unwrap() as int;
                        assert(!is_only_root(joints@, r));
                        assert forall|x: int| !is_only_root(joints@, x) by {
                            if x != i && 0 <= x < n {
                                assert(joints@[i as int].indices.parent is None);
                            }
                            if x == i {
                                assert(joints@[r].indices.parent is None);
                            }
                        }
                    }
                    return false;
                }
                root = Some(i);
            },
        }
        let cs = &j.indices.children;
        let mut k: usize = 0;
        while k < cs.len()
            invariant
                k <= cs@.len(),
                i < n,
                n == joints@.len(),
                cs@ == joints@[i as int].indices.children@,
                forall|m: int| 0 <= m < k ==> #[trigger] cs@[m] < n,
            decreases cs@.len() - k,
        {
            if cs[k] >= n {
                assert(joints@[i as int].indices.children@[k as int] >= n);
                assert(!joint_wf(joints@[i as int], i as int, n as int));
                return false;
            }
            k += 1;
        }
        i += 1;
    }
    match root {
        Some(r) => {
            assert(is_only_root(joints@, r as int));
            true
        },
        None => {
            assert forall|x: int| !is_only_root(joints@, x) by {
                if 0 <= x < n {
                    assert(joints@[x].indices.parent is Some);
                }
            }
            false
        },
    }
}

} // verus!
