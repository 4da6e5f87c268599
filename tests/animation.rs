use bugsyth_engine::asset::animation::keyframe::KeyFrameData;
use bugsyth_engine::asset::animation::{Animation, AnimationData, Animations, Property};
use bugsyth_engine::asset::skeleton::{JointIndices, Skeleton, SkeletonJoint};
use bugsyth_engine::error::EngineError;
use bugsyth_engine::math::{Mat4, FIXED_ONE};

fn identity() -> Mat4 {
    Mat4::identity()
}

fn mat(entries: [i64; 16]) -> Mat4 {
    Mat4::from_col_entries(entries.to_vec()).unwrap()
}

fn joint(index: usize, parent: Option<usize>, children: Vec<usize>) -> SkeletonJoint {
    SkeletonJoint { inverse_bind_matrix: identity(), indices: JointIndices { index, parent, children } }
}

fn two_joint_skeleton() -> Skeleton {
    Skeleton::new(
        vec![7, 9],
        vec![joint(0, None, vec![1]), joint(1, Some(0), vec![])],
        vec![identity(), identity()],
    )
    .unwrap()
}

#[test]
fn keyframe_interpolates_midpoint() {
    let times = vec![0, 1000];
    let values = vec![0, 0, 0, 10, 10, 10];
    assert_eq!(KeyFrameData::interpolate_keyframe(&times, &values, 500, 3), vec![5, 5, 5]);
}

#[test]
fn keyframe_clamps_outside_range() {
    let times = vec![0, 1000];
    let values = vec![0, 0, 0, 10, 10, 10];
    assert_eq!(KeyFrameData::interpolate_keyframe(&times, &values, -1000, 3), vec![0, 0, 0]);
    assert_eq!(KeyFrameData::interpolate_keyframe(&times, &values, 2000, 3), vec![10, 10, 10]);
    assert_eq!(KeyFrameData::interpolate_keyframe(&times, &values, 1000, 3), vec![10, 10, 10]);
}

#[test]
fn keyframe_empty_gives_zeros() {
    assert_eq!(KeyFrameData::interpolate_keyframe(&vec![], &vec![], 5, 4), vec![0, 0, 0, 0]);
}

#[test]
fn keyframe_picks_bracketing_pair_and_rounds_toward_start() {
    let times = vec![0, 10, 20, 40];
    let values = vec![0, 100, 50, -50];
    assert_eq!(KeyFrameData::interpolate_keyframe(&times, &values, 15, 1), vec![75]);
    assert_eq!(KeyFrameData::interpolate_keyframe(&times, &values, 30, 1), vec![0]);
    assert_eq!(KeyFrameData::interpolate_keyframe(&times, &values, 21, 1), vec![45]);
    assert_eq!(KeyFrameData::interpolate_keyframe(&times, &values, 10, 1), vec![100]);
}

#[test]
fn identity_times_matrix_is_unchanged() {
    let m = mat([
        2 * FIXED_ONE, 3, 0, 0,
        -7, FIXED_ONE, 5, 0,
        0, 11, FIXED_ONE / 2, 0,
        40 * FIXED_ONE, -3 * FIXED_ONE, 9, FIXED_ONE,
    ]);
    assert_eq!(identity().mul(&m), m);
}

#[test]
fn fixed_point_product() {
    let a = mat([
        2 * FIXED_ONE, 0, 0, 0,
        0, 2 * FIXED_ONE, 0, 0,
        0, 0, 2 * FIXED_ONE, 0,
        FIXED_ONE, 0, 0, FIXED_ONE,
    ]);
    let b = mat([
        FIXED_ONE, 0, 0, 0,
        0, FIXED_ONE, 0, 0,
        0, 0, FIXED_ONE, 0,
        0, 3 * FIXED_ONE, 0, FIXED_ONE,
    ]);
    let p = a.mul(&b);
    assert_eq!(p.cols[13], 6 * FIXED_ONE);
    assert_eq!(p.cols[12], FIXED_ONE);
    assert_eq!(p.cols[0], 2 * FIXED_ONE);
}

#[test]
fn bone_matrices_compose_animated_with_origin() {
    let origin = mat([
        FIXED_ONE, 0, 0, 0,
        0, FIXED_ONE, 0, 0,
        0, 0, FIXED_ONE, 0,
        5 * FIXED_ONE, 6 * FIXED_ONE, 7 * FIXED_ONE, FIXED_ONE,
    ]);
    let mut s = Skeleton::new(
        vec![0],
        vec![joint(0, None, vec![])],
        vec![Mat4::from_col_entries(origin.cols.clone()).unwrap()],
    )
    .unwrap();
    assert_eq!(s.bone_matrices[0], origin);
    s.update_bone_matrices(&vec![identity()]);
    assert_eq!(s.bone_matrices[0], origin);
    let double = mat([
        2 * FIXED_ONE, 0, 0, 0,
        0, 2 * FIXED_ONE, 0, 0,
        0, 0, 2 * FIXED_ONE, 0,
        0, 0, 0, FIXED_ONE,
    ]);
    s.update_bone_matrices(&vec![double]);
    assert_eq!(s.bone_matrices[0].cols[12], 10 * FIXED_ONE);
    assert_eq!(s.bone_matrices[0].cols[0], 2 * FIXED_ONE);
}

#[test]
fn skeleton_rejects_bad_data() {
    let mismatched = Skeleton::new(vec![0], vec![joint(0, None, vec![])], vec![]);
    assert!(matches!(mismatched, Err(EngineError::DataIntegrity(_))));
    let two_roots = Skeleton::new(
        vec![0, 1],
        vec![joint(0, None, vec![]), joint(1, None, vec![])],
        vec![identity(), identity()],
    );
    assert!(matches!(two_roots, Err(EngineError::DataIntegrity(_))));
    let wrong_index = Skeleton::new(vec![0], vec![joint(3, None, vec![])], vec![identity()]);
    assert!(matches!(wrong_index, Err(EngineError::DataIntegrity(_))));
    let bad_child = Skeleton::new(vec![0], vec![joint(0, None, vec![4])], vec![identity()]);
    assert!(matches!(bad_child, Err(EngineError::DataIntegrity(_))));
    let no_root = Skeleton::new(
        vec![0, 1],
        vec![joint(0, Some(1), vec![]), joint(1, Some(0), vec![])],
        vec![identity(), identity()],
    );
    assert!(matches!(no_root, Err(EngineError::DataIntegrity(_))));
    let bad_matrix = Skeleton::new(vec![0], vec![joint(0, None, vec![])], vec![Mat4 { cols: vec![0; 15] }]);
    assert!(matches!(bad_matrix, Err(EngineError::DataIntegrity(_))));
}

#[test]
fn channel_rejects_mismatched_values() {
    let kf = KeyFrameData { times: vec![0, 1], values: vec![1, 2, 3] };
    let r = AnimationData::new(0, Property::Rotation, kf);
    assert!(matches!(r, Err(EngineError::DataIntegrity(_))));
    let kf = KeyFrameData { times: vec![0, 1], values: vec![1, 2, 3, 4, 5, 6] };
    assert!(AnimationData::new(0, Property::Translation, kf).is_ok());
}

#[test]
fn animated_transforms_compose_trs_per_joint() {
    let skeleton = two_joint_skeleton();
    let translate = AnimationData::new(
        9,
        Property::Translation,
        KeyFrameData { times: vec![0, 1000], values: vec![0, 0, 0, 10 * FIXED_ONE as i32, 0, 0] },
    )
    .unwrap();
    let scale = AnimationData::new(
        9,
        Property::Scale,
        KeyFrameData { times: vec![0], values: vec![2 * FIXED_ONE as i32, 2 * FIXED_ONE as i32, 2 * FIXED_ONE as i32] },
    )
    .unwrap();
    let anims = Animations::new(vec![Animation::new(vec![translate, scale])]);
    let out = anims.get_animatied_transforms(&skeleton, 500);
    assert_eq!(out.len(), 2);
    assert_eq!(out[0], identity());
    let expected = mat([
        2 * FIXED_ONE, 0, 0, 0,
        0, 2 * FIXED_ONE, 0, 0,
        0, 0, 2 * FIXED_ONE, 0,
        5 * FIXED_ONE, 0, 0, FIXED_ONE,
    ]);
    assert_eq!(out[1], expected);
}

#[test]
fn animated_rotation_quarter_turn_about_z() {
    let skeleton = two_joint_skeleton();
    // (0, 0, sin 45°, cos 45°) in 16.16 fixed point
    let rot = AnimationData::new(
        7,
        Property::Rotation,
        KeyFrameData { times: vec![0], values: vec![0, 0, 46341, 46341] },
    )
    .unwrap();
    let anims = Animations::new(vec![Animation::new(vec![rot])]);
    let out = anims.get_animatied_transforms(&skeleton, 0);
    assert_eq!(out[1], identity());
    let m = &out[0].cols;
    // x axis goes to +y, y axis goes to -x (within rounding)
    assert!(m[0].abs() <= 2);
    assert!((m[1] - FIXED_ONE).abs() <= 2);
    assert!((m[4] + FIXED_ONE).abs() <= 2);
    assert!(m[5].abs() <= 2);
    assert_eq!(m[10], FIXED_ONE);
    assert_eq!(m[15], FIXED_ONE);
}

#[test]
fn later_channel_wins_and_unknown_nodes_are_skipped() {
    let skeleton = two_joint_skeleton();
    let t1 = AnimationData::new(7, Property::Translation, KeyFrameData { times: vec![0], values: vec![1, 2, 3] }).unwrap();
    let t2 = AnimationData::new(7, Property::Translation, KeyFrameData { times: vec![0], values: vec![4, 5, 6] }).unwrap();
    let stray = AnimationData::new(42, Property::Translation, KeyFrameData { times: vec![0], values: vec![9, 9, 9] }).unwrap();
    let weights = AnimationData::new(9, Property::MorphTargetWeights, KeyFrameData { times: vec![0], values: vec![1] }).unwrap();
    let anims = Animations::new(vec![Animation::new(vec![t1, stray]), Animation::new(vec![t2, weights])]);
    let out = anims.get_animatied_transforms(&skeleton, 0);
    assert_eq!(&out[0].cols[12..15], &[4, 5, 6]);
    assert_eq!(out[1], identity());
}

#[test]
fn error_message_is_kept() {
    let e = EngineError::GltfError("missing buffer".to_string());
    assert_eq!(e.message(), "missing buffer");
}
