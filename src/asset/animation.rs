//! Animation channels and the per-joint transforms they produce at a given time.
use vstd::prelude::*;

pub mod keyframe;

use crate::asset::animation::keyframe::{interpolated, KeyFrameData};
use crate::asset::skeleton::{all_wf, Skeleton};
use crate::error::EngineError;
use crate::math::{div_trunc, identity_entries, mat_product, saturate, Mat4, FIXED_ONE, MAT_LIMIT};

verus! {

/// The joint property a channel drives.
#[derive(Clone, Copy, Debug, PartialEq, Eq, Structural)]
pub enum Property {
    Translation,
    Rotation,
    Scale,
    /// Morph-target weights; not supported by the sampler, which skips them.
    MorphTargetWeights,
}

/// Values per keyframe for a property: 3 for translation and scale, 4 for a
/// rotation quaternion `(x, y, z, w)`.
pub open spec fn dims(p: Property) -> int {
    match p {
        Property::Rotation => 4,
        _ => 3,
    }
}

/// One channel: the scene node it targets, the property, and its keyframes.
pub struct AnimationData {
    pub target_node_index: usize,
    pub target_property: Property,
    pub keyframes: KeyFrameData,
}

/// A channel's keyframes hold one value tuple per key time (weights
/// channels are never sampled, so anything goes there).
pub open spec fn channel_wf(ch: AnimationData) -> bool {
    ch.target_property is MorphTargetWeights || ch.keyframes.values@.len()
        == ch.keyframes.times@.len() * dims(ch.target_property)
}

impl AnimationData {
    /// Builds a channel; fails with `DataIntegrity` when the number of values
    /// is not the number of key times times the property's dimension.
    pub fn new(target_node_index: usize, target_property: Property, keyframes: KeyFrameData) -> (r:
        Result<AnimationData, EngineError>)
        ensures
            r.is_ok() <==> channel_wf(
                AnimationData { target_node_index, target_property, keyframes },
            ),
            r matches Ok(c) ==> c == (AnimationData { target_node_index, target_property, keyframes }),
            r.is_err() ==> r->Err_0 is DataIntegrity,
    {
        let d: u128 = match target_property {
            Property::Rotation => 4,
            _ => 3,
        };
        let ok = match target_property {
            Property::MorphTargetWeights => true,
            _ => keyframes.values.len() as u128 == keyframes.times.len() as u128 * d,
        };
        if ok {
            Ok(AnimationData { target_node_index, target_property, keyframes })
        } else {
            Err(EngineError::DataIntegrity("keyframe values do not match key times".to_owned()))
        }
    }
}

/// A set of channels played together.
pub struct Animation {
    pub channels: Vec<AnimationData>,
}

impl Animation {
    pub fn new(channels: Vec<AnimationData>) -> (r: Animation)
        ensures
            r.channels@ == channels@,
    {
        Animation { channels }
    }
}

/// All animations of a model.
pub struct Animations {
    pub animations: Vec<Animation>,
}

/// The channels of all animations, in order.
pub open spec fn flat(anims: Seq<Animation>) -> Seq<AnimationData>
    decreases anims.len(),
{
    if anims.len() == 0 {
        Seq::empty()
    } else {
        flat(anims.drop_last()) + anims.last().channels@
    }
}

/// The joint fed by scene node `node`: the last position holding it in
/// `map`, or -1 when no joint comes from that node.
pub open spec fn slot(map: Seq<usize>, node: usize) -> int
    decreases map.len(),
{
    if map.len() == 0 {
        -1
    } else if map.last() == node {
        map.len() - 1
    } else {
        slot(map.drop_last(), node)
    }
}

/// The last channel driving property `p` of joint `j`.
pub open spec fn last_channel(chs: Seq<AnimationData>, map: Seq<usize>, j: int, p: Property) -> Option<
    AnimationData,
>
    decreases chs.len(),
{
    if chs.len() == 0 {
        None
    } else if slot(map, chs.last().target_node_index) == j && chs.last().target_property == p {
        Some(chs.last())
    } else {
        last_channel(chs.drop_last(), map, j, p)
    }
}

/// Fixed-point product of two values.
pub open spec fn fx(a: int, b: int) -> int {
    div_trunc(a * b, FIXED_ONE as int)
}

pub open spec fn translation_entries(v: Seq<i32>) -> Seq<i64> {
    Seq::new(
        16,
        |i: int|
            if i == 12 {
                v[0] as i64
            } else if i == 13 {
                v[1] as i64
            } else if i == 14 {
                v[2] as i64
            } else if i % 5 == 0 {
                FIXED_ONE
            } else {
                0i64
            },
    )
}

pub open spec fn scale_entries(v: Seq<i32>) -> Seq<i64> {
    Seq::new(
        16,
        |i: int|
            if i == 0 {
                v[0] as i64
            } else if i == 5 {
                v[1] as i64
            } else if i == 10 {
                v[2] as i64
            } else if i == 15 {
                FIXED_ONE
            } else {
                0i64
            },
    )
}

/// The rotation matrix of the quaternion `(x, y, z, w) = (v[0], v[1], v[2], v[3])`,
/// column-major, each entry saturated.
pub open spec fn rotation_entries(v: Seq<i32>) -> Seq<i64> {
    let (x, y, z, w) = (v[0] as int, v[1] as int, v[2] as int, v[3] as int);
    let one = FIXED_ONE as int;
    seq![
        saturate(one - 2 * (fx(y, y) + fx(z, z))) as i64,
        saturate(2 * (fx(x, y) + fx(z, w))) as i64,
        saturate(2 * (fx(x, z) - fx(y, w))) as i64,
        0i64,
        saturate(2 * (fx(x, y) - fx(z, w))) as i64,
        saturate(one - 2 * (fx(x, x) + fx(z, z))) as i64,
        saturate(2 * (fx(y, z) + fx(x, w))) as i64,
        0i64,
        saturate(2 * (fx(x, z) + fx(y, w))) as i64,
        saturate(2 * (fx(y, z) - fx(x, w))) as i64,
        saturate(one - 2 * (fx(x, x) + fx(y, y))) as i64,
        0i64,
        0i64,
        0i64,
        0i64,
        FIXED_ONE,
    ]
}

/// The matrix a channel contributes at `time`.
pub open spec fn channel_matrix(ch: AnimationData, time: int) -> Seq<i64> {
    let v = interpolated(
        ch.keyframes.times@,
        ch.keyframes.values@,
        time,
        dims(ch.target_property),
    );
    match ch.target_property {
        Property::Translation => translation_entries(v),
        Property::Rotation => rotation_entries(v),
        Property::Scale => scale_entries(v),
        Property::MorphTargetWeights => identity_entries(),
    }
}

/// Property `p` of joint `j` at `time`: the matrix of the last channel
/// driving it, or the identity.
pub open spec fn property_matrix(
    chs: Seq<AnimationData>,
    map: Seq<usize>,
    j: int,
    p: Property,
    time: int,
) -> Seq<i64> {
    match last_channel(chs, map, j, p) {
        Some(ch) => channel_matrix(ch, time),
        None => identity_entries(),
    }
}

/// The local transform of joint `j` at `time`: translation * rotation * scale.
pub open spec fn joint_transform(chs: Seq<AnimationData>, map: Seq<usize>, j: int, time: int) -> Seq<
    i64,
> {
    mat_product(
        mat_product(
            property_matrix(chs, map, j, Property::Translation, time),
            property_matrix(chs, map, j, Property::Rotation, time),
        ),
        property_matrix(chs, map, j, Property::Scale, time),
    )
}

fn fx_exec(a: i32, b: i32) -> (r: i64)
    ensures
        r == fx(a as int, b as int),
        -70368744177664 <= r <= 70368744177664,
{
    assert(-4611686018427387904 <= (a as i64) * (b as i64) <= 4611686018427387904) by (nonlinear_arith)
        requires
            -2147483648 <= a <= 2147483647,
            -2147483648 <= b <= 2147483647,
    ;
    let p: i64 = a as i64 * b as i64;
    let q: i64 = if p >= 0 {
        p / FIXED_ONE
    } else {
        -((-p) / FIXED_ONE)
    };
    q
}

fn sat(v: i64) -> (r: i64)
    ensures
        r == saturate(v as int),
{
    if v < -MAT_LIMIT {
        -MAT_LIMIT
    } else if v > MAT_LIMIT {
        MAT_LIMIT
    } else {
        v
    }
}

fn translation_matrix(v: &Vec<i32>) -> (r: Mat4)
    requires
        v@.len() == 3,
    ensures
        r.cols@ == translation_entries(v@),
        r.wf(),
{
    let mut cols: Vec<i64> = Vec::new();
    let mut i: usize = 0;
    while i < 16
        invariant
            i <= 16,
            v@.len() == 3,
            cols@.len() == i,
            forall|j: int| 0 <= j < i ==> cols@[j] == translation_entries(v@)[j],
        decreases 16 - i,
    {
        let e: i64 = if i == 12 {
            v[0] as i64
        } else if i == 13 {
            v[1] as i64
        } else if i == 14 {
            v[2] as i64
        } else if i % 5 == 0 {
            FIXED_ONE
        } else {
            0
        };
        cols.push(e);
        i += 1;
    }
    assert(cols@ =~= translation_entries(v@));
    Mat4 { cols }
}

fn scale_matrix(v: &Vec<i32>) -> (r: Mat4)
    requires
        v@.len() == 3,
    ensures
        r.cols@ == scale_entries(v@),
        r.wf(),
{
    let mut cols: Vec<i64> = Vec::new();
    let mut i: usize = 0;
    while i < 16
        invariant
            i <= 16,
            v@.len() == 3,
            cols@.len() == i,
            forall|j: int| 0 <= j < i ==> cols@[j] == scale_entries(v@)[j],
        decreases 16 - i,
    {
        let e: i64 = if i == 0 {
            v[0] as i64
        } else if i == 5 {
            v[1] as i64
        } else if i == 10 {
            v[2] as i64
        } else if i == 15 {
            FIXED_ONE
        } else {
            0
        };
        cols.push(e);
        i += 1;
    }
    assert(cols@ =~= scale_entries(v@));
    Mat4 { cols }
}

fn rotation_matrix(v: &Vec<i32>) -> (r: Mat4)
    requires
        v@.len() == 4,
    ensures
        r.cols@ == rotation_entries(v@),
        r.wf(),
{
    let (x, y, z, w) = (v[0], v[1], v[2], v[3]);
    let (xx, yy, zz) = (fx_exec(x, x), fx_exec(y, y), fx_exec(z, z));
    let (xy, xz, yz) = (fx_exec(x, y), fx_exec(x, z), fx_exec(y, z));
    let (xw, yw, zw) = (fx_exec(x, w), fx_exec(y, w), fx_exec(z, w));
    let e0 = sat(FIXED_ONE - 2 * (yy + zz));
    let e1 = sat(2 * (xy + zw));
    let e2 = sat(2 * (xz - yw));
    let e4 = sat(2 * (xy - zw));
    let e5 = sat(FIXED_ONE - 2 * (xx + zz));
    let e6 = sat(2 * (yz + xw));
    let e8 = sat(2 * (xz + yw));
    let e9 = sat(2 * (yz - xw));
    let e10 = sat(FIXED_ONE - 2 * (xx + yy));
    let cols: Vec<i64> = vec![e0, e1, e2, 0, e4, e5, e6, 0, e8, e9, e10, 0, 0, 0, 0, FIXED_ONE];
    assert(cols@ =~= rotation_entries(v@));
    Mat4 { cols }
}

/// The matrix a translation, rotation or scale channel contributes at `time`.
fn channel_matrix_exec(ch: &AnimationData, time: i64) -> (r: Mat4)
    requires
        channel_wf(*ch),
        !(ch.target_property is MorphTargetWeights),
    ensures
        r.cols@ == channel_matrix(*ch, time as int),
        r.wf(),
{
    let k = &ch.keyframes;
    match ch.target_property {
        Property::Rotation => {
            let v = KeyFrameData::interpolate_keyframe(&k.times, &k.values, time, 4);
            rotation_matrix(&v)
        },
        Property::Translation => {
            let v = KeyFrameData::interpolate_keyframe(&k.times, &k.values, time, 3);
            translation_matrix(&v)
        },
        _ => {
            let v = KeyFrameData::interpolate_keyframe(&k.times, &k.values, time, 3);
            scale_matrix(&v)
        },
    }
}

/// The joint fed by scene node `node`, as `slot` states (`None` for -1).
fn find_slot(map: &Vec<usize>, node: usize) -> (r: Option<usize>)
    ensures
        match r {
            Some(k) => k as int,
            None => -1,
        } == slot(map@, node),
        r matches Some(k) ==> k < map@.len(),
{
    let mut found: Option<usize> = None;
    let mut i: usize = 0;
    while i < map.len()
        invariant
            i <= map@.len(),
            match found {
                Some(k) => k as int,
                None => -1,
            } == slot(map@.take(i as int), node),
            found matches Some(k) ==> k < i,
        decreases map@.len() - i,
    {
        assert(map@.take(i as int + 1).drop_last() =~= map@.take(i as int));
        if map[i] == node {
            found = Some(i);
        }
        i += 1;
    }
    assert(map@.take(i as int) =~= map@);
    found
}

/// `n` identity matrices.
fn identities(n: usize) -> (r: Vec<Mat4>)
    ensures
        r@.len() == n,
        forall|j: int| 0 <= j < n ==> (#[trigger] r@[j]).cols@ == identity_entries(),
        all_wf(r@),
{
    let mut r: Vec<Mat4> = Vec::new();
    let mut i: usize = 0;
    while i < n
        invariant
            i <= n,
            r@.len() == i,
            forall|j: int| 0 <= j < i ==> (#[trigger] r@[j]).cols@ == identity_entries(),
            all_wf(r@),
        decreases n - i,
    {
        r.push(Mat4::identity());
        i += 1;
    }
    r
}

/// The translation, rotation and scale matrices of every joint after the
/// channels `chs`.
pub open spec fn trs_matches(
    ts: Seq<Mat4>,
    rs: Seq<Mat4>,
    ss: Seq<Mat4>,
    chs: Seq<AnimationData>,
    map: Seq<usize>,
    n: int,
    time: int,
) -> bool {
    &&& ts.len() == n && rs.len() == n && ss.len() == n
    &&& all_wf(ts) && all_wf(rs) && all_wf(ss)
    &&& forall|j: int|
        0 <= j < n ==> (#[trigger] ts[j]).cols@ == property_matrix(
            chs,
            map,
            j,
            Property::Translation,
            time,
        )
    &&& forall|j: int|
        0 <= j < n ==> (#[trigger] rs[j]).cols@ == property_matrix(chs, map, j, Property::Rotation, time)
    &&& forall|j: int|
        0 <= j < n ==> (#[trigger] ss[j]).cols@ == property_matrix(chs, map, j, Property::Scale, time)
}

impl Animations {
    pub fn new(animations: Vec<Animation>) -> (r: Animations)
        ensures
            r.animations@ == animations@,
    {
        Animations { animations }
    }

    /// Every channel's keyframes are well formed.
    pub open spec fn wf(&self) -> bool {
        forall|a: int, c: int|
            0 <= a < self.animations@.len() && 0 <= c < self.animations@[a].channels@.len()
                ==> channel_wf(#[trigger] self.animations@[a].channels@[c])
    }

    /// The local transform of each joint at `time`: for each of translation,
    /// rotation and scale, the last channel driving it (identity if none) is
    /// sampled, and the three are composed as translation * rotation * scale.
    pub fn get_animatied_transforms(&self, skeleton: &Skeleton, time: i64) -> (r: Vec<Mat4>)
        requires
            self.wf(),
        ensures
            r@.len() == skeleton.joints@.len(),
            all_wf(r@),
            forall|j: int|
                0 <= j < skeleton.joints@.len() ==> (#[trigger] r@[j]).cols@ == joint_transform(
                    flat(self.animations@),
                    skeleton.joint_index_map@,
                    j,
                    time as int,
                ),
    {
        let n = skeleton.joints.len();
        let map = &skeleton.joint_index_map;
        let ghost anims = self.animations@;
        let mut ts = identities(n);
        let mut rs = identities(n);
        let mut ss = identities(n);
        let mut a: usize = 0;
        while a < self.animations.len()
            invariant
                a <= anims.len(),
                anims == self.animations@,
                self.wf(),
                trs_matches(ts@, rs@, ss@, flat(anims.take(a as int)), map@, n as int, time as int),
            decreases anims.len() - a,
        {
            let chs = &self.animations[a].channels;
            let ghost before = flat(anims.take(a as int));
            assert(before + chs@.take(0) =~= before);
            let mut c: usize = 0;
            while c < chs.len()
                invariant
                    a < anims.len(),
                    anims == self.animations@,
                    chs@ == anims[a as int].channels@,
                    self.wf(),
                    c <= chs@.len(),
                    trs_matches(ts@, rs@, ss@, before + chs@.take(c as int), map@, n as int, time as int),
                decreases chs@.len() - c,
            {
                let ch = &chs[c];
                let ghost pre = before + chs@.take(c as int);
                let ghost post = before + chs@.take(c as int + 1);
                assert(post.drop_last() =~= pre);
                assert(post.last() == *ch);
                assert(channel_wf(anims[a as int].channels@[c as int]));
                match find_slot(map, ch.target_node_index) {
                    Some(k) => {
                        if k < n {
                            match ch.target_property {
                                Property::Translation => {
                                    let m = channel_matrix_exec(ch, time);
                                    ts.set(k, m);
                                },
                                Property::Rotation => {
                                    let m = channel_matrix_exec(ch, time);
                                    rs.set(k, m);
                                },
                                Property::Scale => {
                                    let m = channel_matrix_exec(ch, time);
                                    ss.set(k, m);
                                },
                                Property::MorphTargetWeights => {},
                            }
                        }
                    },
                    None => {},
                }
                c += 1;
            }
            proof {
                assert(chs@.take(chs@.len() as int) =~= chs@);
                assert(anims.take(a as int + 1).drop_last() =~= anims.take(a as int));
                assert(anims.take(a as int + 1).last() == anims[a as int]);
            }
            a += 1;
        }
        assert(anims.take(anims.len() as int) =~= anims);
        let mut out: Vec<Mat4> = Vec::new();
        let mut j: usize = 0;
        while j < n
            invariant
                j <= n,
                anims == self.animations@,
                trs_matches(ts@, rs@, ss@, flat(anims), map@, n as int, time as int),
                out@.len() == j,
                all_wf(out@),
                forall|i: int|
                    0 <= i < j ==> (#[trigger] out@[i]).cols@ == joint_transform(
                        flat(anims),
                        map@,
                        i,
                        time as int,
                    ),
            decreases n - j,
        {
            let tr = ts[j].mul(&rs[j]);
            out.push(tr.mul(&ss[j]));
            j += 1;
        }
        out
    }
}

} // verus!
