//! Animation channel sampling: keyframe times, padded for spline modes,
//! paired one for one with the decoded values of the animated property.
use vstd::prelude::*;

use crate::accessor::{
    firsts, normalizable, normalized, normalized_row, read_scalars_f32, read_scalars_norm,
    read_vec3_f32, read_vec4_norm, typed_outcome, Accessor, Buffers, ComponentType, Dimensions,
    Value,
};
use crate::error::ConvertError;
use crate::skin::{joint_index_in, Skin};

verus! {

/// How values are interpolated between keyframes.
#[derive(Debug, Clone, Copy, PartialEq, Eq, Structural)]
pub enum Interpolation {
    CatmullRom,
    Cubic,
    Linear,
    Step,
}

/// The property of a joint that a channel animates.
#[derive(Debug, Clone, Copy, PartialEq, Eq, Structural)]
pub enum Property {
    Translation,
    Rotation,
    Scale,
    Weights,
}

/// A channel as the scene description gives it.
pub struct ChannelDesc {
    /// Global index of the animated node.
    pub target_node: usize,
    pub property: Property,
    pub interpolation: Interpolation,
    /// Keyframe times: scalar `F32`.
    pub input: Accessor,
    /// Keyframe values of the animated property.
    pub output: Accessor,
}

/// An animation as the scene description gives it.
pub struct AnimationDesc {
    pub name: Option<String>,
    pub channels: Vec<ChannelDesc>,
}

/// A keyframe of a translation or scale channel.
#[derive(Debug, Clone, Copy)]
pub struct Vector3Data {
    /// Float bit pattern of the time.
    pub time_stamp: u32,
    /// Float bit patterns of x, y and z.
    pub vector: [u32; 3],
}

/// A keyframe of a rotation channel.
#[derive(Debug, Clone, Copy)]
pub struct QuaternionData {
    /// Float bit pattern of the time.
    pub time_stamp: u32,
    /// x, y, z and w.
    pub quaternion: [Value; 4],
}

/// A keyframe of a morph-weight channel.
#[derive(Debug, Clone, Copy)]
pub struct ScalarData {
    /// Float bit pattern of the time.
    pub time_stamp: u32,
    pub scalar: Value,
}

/// One animated property of one joint.
pub enum Channel {
    Translation { joint_index: u16, interpolation: Interpolation, translations: Vec<Vector3Data> },
    Rotation { joint_index: u16, interpolation: Interpolation, rotations: Vec<QuaternionData> },
    Scale { joint_index: u16, interpolation: Interpolation, scales: Vec<Vector3Data> },
    Weights { joint_index: u16, interpolation: Interpolation, weights: Vec<ScalarData> },
}

/// A named set of channels.
pub struct Animation {
    pub name: String,
    pub channels: Vec<Channel>,
}

/// Spline modes carry a tangent stub at each end of the curve.
pub open spec fn needs_tangent_stubs(interp: Interpolation) -> bool {
    interp == Interpolation::CatmullRom || interp == Interpolation::Cubic
}

/// The keyframe times after padding: spline modes append a copy of the first
/// and a copy of the last time; other modes leave the times as they are.
pub open spec fn padded_times(interp: Interpolation, t: Seq<u32>) -> Seq<u32> {
    if needs_tangent_stubs(interp) && t.len() > 0 {
        t.push(t[0]).push(t[t.len() - 1])
    } else {
        t
    }
}

/// The joint index of a node in the first skin that has it as a joint.
pub open spec fn skins_joint_index(skins: Seq<Skin>, node: usize) -> Option<u16>
    decreases skins.len(),
{
    if skins.len() == 0 {
        None
    } else {
        match joint_index_in(skins[0], node) {
            Some(j) => Some(j),
            None => skins_joint_index(skins.drop_first(), node),
        }
    }
}

/// What decoding a channel's keyframe times gives.
pub open spec fn times_outcome(c: ChannelDesc, bufs: Seq<Seq<u8>>) -> Result<
    Seq<Seq<u32>>,
    ConvertError,
> {
    typed_outcome(
        c.input,
        bufs,
        Dimensions::Scalar,
        c.input.component_type == ComponentType::F32,
    )
}

/// What decoding a channel's keyframe values gives.
pub open spec fn values_outcome(c: ChannelDesc, bufs: Seq<Seq<u8>>) -> Result<
    Seq<Seq<u32>>,
    ConvertError,
> {
    let out = c.output;
    match c.property {
        Property::Translation | Property::Scale => typed_outcome(
            out,
            bufs,
            Dimensions::Vec3,
            out.component_type == ComponentType::F32,
        ),
        Property::Rotation => typed_outcome(
            out,
            bufs,
            Dimensions::Vec4,
            normalizable(out.component_type),
        ),
        Property::Weights => typed_outcome(
            out,
            bufs,
            Dimensions::Scalar,
            normalizable(out.component_type),
        ),
    }
}

/// Why a channel cannot be sampled, if it cannot; checked in this order. A
/// spline channel without keyframes has no times to copy into its boundary
/// stubs and is malformed.
pub open spec fn channel_error(c: ChannelDesc, skins: Seq<Skin>, bufs: Seq<Seq<u8>>) -> Option<
    ConvertError,
> {
    if skins_joint_index(skins, c.target_node) is None {
        Some(ConvertError::InvalidJoint)
    } else {
        match times_outcome(c, bufs) {
            Err(e) => Some(e),
            Ok(t) => if needs_tangent_stubs(c.interpolation) && t.len() == 0 {
                Some(ConvertError::Other)
            } else {
                match values_outcome(c, bufs) {
                Err(e) => Some(e),
                    Ok(v) => if padded_times(c.interpolation, firsts(t)).len() != v.len() {
                        Some(ConvertError::Other)
                    } else {
                        None
                    },
                }
            },
        }
    }
}

/// A sampled channel pairs the i-th padded time with the i-th value.
pub open spec fn channel_built(ch: Channel, c: ChannelDesc, skins: Seq<Skin>, bufs: Seq<Seq<u8>>) -> bool {
    let times = padded_times(c.interpolation, firsts(times_outcome(c, bufs)->Ok_0));
    let vals = values_outcome(c, bufs)->Ok_0;
    let joint = skins_joint_index(skins, c.target_node)->Some_0;
    let ct = c.output.component_type;
    match ch {
        Channel::Translation { joint_index, interpolation, translations } => {
            &&& c.property == Property::Translation
            &&& joint_index == joint
            &&& interpolation == c.interpolation
            &&& translations@.len() == times.len()
            &&& forall|i: int|
                0 <= i < times.len() ==> (#[trigger] translations@[i]).time_stamp == times[i]
                    && translations@[i].vector@ == vals[i]
        },
        Channel::Rotation { joint_index, interpolation, rotations } => {
            &&& c.property == Property::Rotation
            &&& joint_index == joint
            &&& interpolation == c.interpolation
            &&& rotations@.len() == times.len()
            &&& forall|i: int|
                0 <= i < times.len() ==> (#[trigger] rotations@[i]).time_stamp == times[i]
                    && rotations@[i].quaternion@ == normalized_row(ct, vals[i])
        },
        Channel::Scale { joint_index, interpolation, scales } => {
            &&& c.property == Property::Scale
            &&& joint_index == joint
            &&& interpolation == c.interpolation
            &&& scales@.len() == times.len()
            &&& forall|i: int|
                0 <= i < times.len() ==> (#[trigger] scales@[i]).time_stamp == times[i]
                    && scales@[i].vector@ == vals[i]
        },
        Channel::Weights { joint_index, interpolation, weights } => {
            &&& c.property == Property::Weights
            &&& joint_index == joint
            &&& interpolation == c.interpolation
            &&& weights@.len() == times.len()
            &&& forall|i: int|
                0 <= i < times.len() ==> (#[trigger] weights@[i]).time_stamp == times[i]
                    && weights@[i].scalar == normalized(ct, vals[i][0])
        },
    }
}

/// Pads keyframe times for the interpolation mode (see `padded_times`).
pub fn pad_times(interp: Interpolation, times: Vec<u32>) -> (r: Vec<u32>)
    ensures
        r@ == padded_times(interp, times@),
{
    let mut times = times;
    let stubs = match interp {
        Interpolation::CatmullRom | Interpolation::Cubic => true,
        Interpolation::Linear | Interpolation::Step => false,
    };
    if stubs && times.len() > 0 {
        let first = times[0];
        let last = times[times.len() - 1];
        times.push(first);
        times.push(last);
    }
    times
}

/// The joint index of a node in the first skin that has it as a joint.
pub fn find_joint_index(skins: &Vec<Skin>, node: usize) -> (r: Option<u16>)
    requires
        forall|i: int| 0 <= i < skins@.len() ==> (#[trigger] skins@[i]).wf(),
    ensures
        r == skins_joint_index(skins@, node),
{
    let mut i: usize = 0;
    assert(skins@.skip(0) =~= skins@);
    while i < skins.len()
        invariant
            0 <= i <= skins@.len(),
            forall|k: int| 0 <= k < skins@.len() ==> (#[trigger] skins@[k]).wf(),
            skins_joint_index(skins@, node) == skins_joint_index(skins@.skip(i as int), node),
        decreases skins@.len() - i,
    {
        let found = skins[i].get_joint_index(node);
        assert(skins@.skip(i as int)[0] == skins@[i as int]);
        assert(skins@.skip(i as int).drop_first() =~= skins@.skip(i + 1));
        if found.is_some() {
            return found;
        }
        i += 1;
    }
    None
}

/// Samples one channel: resolves its joint, decodes and pads its times,
/// decodes its values and pairs both, which must be equally many.
pub fn get_channel(c: &ChannelDesc, skins: &Vec<Skin>, bufs: &Buffers) -> (r: Result<
    Channel,
    ConvertError,
>)
    requires
        forall|i: int| 0 <= i < skins@.len() ==> (#[trigger] skins@[i]).wf(),
    ensures
        match r {
            Ok(ch) => channel_error(*c, skins@, bufs@) is None && channel_built(
                ch,
                *c,
                skins@,
                bufs@,
            ),
            Err(e) => channel_error(*c, skins@, bufs@) == Some(e),
        },
{
    let joint_index = match find_joint_index(skins, c.target_node) {
        Some(j) => j,
        None => {
            return Err(ConvertError::InvalidJoint);
        },
    };
    let times = match read_scalars_f32(&c.input, bufs) {
        Ok(t) => {
            let stubs = match c.interpolation {
                Interpolation::CatmullRom | Interpolation::Cubic => true,
                Interpolation::Linear | Interpolation::Step => false,
            };
            if stubs && t.len() == 0 {
                return Err(ConvertError::Other);
            }
            pad_times(c.interpolation, t)
        },
        Err(e) => {
            return Err(e);
        },
    };
    let interpolation = c.interpolation;
    match c.property {
        Property::Translation | Property::Scale => {
            let vals = match read_vec3_f32(&c.output, bufs) {
                Ok(v) => v,
                Err(e) => {
                    return Err(e);
                },
            };
            if vals.len() != times.len() {
                return Err(ConvertError::Other);
            }
            let mut out: Vec<Vector3Data> = Vec::new();
            let mut i: usize = 0;
            while i < times.len()
                invariant
                    0 <= i <= times@.len(),
                    vals@.len() == times@.len(),
                    out@.len() == i,
                    forall|k: int|
                        0 <= k < i ==> (#[trigger] out@[k]).time_stamp == times@[k]
                            && out@[k].vector == vals@[k],
                decreases times@.len() - i,
            {
                out.push(Vector3Data { time_stamp: times[i], vector: vals[i] });
                i += 1;
            }
            if c.property == Property::Translation {
                Ok(Channel::Translation { joint_index, interpolation, translations: out })
            } else {
                Ok(Channel::Scale { joint_index, interpolation, scales: out })
            }
        },
        Property::Rotation => {
            let vals = match read_vec4_norm(&c.output, bufs) {
                Ok(v) => v,
                Err(e) => {
                    return Err(e);
                },
            };
            if vals.len() != times.len() {
                return Err(ConvertError::Other);
            }
            let mut out: Vec<QuaternionData> = Vec::new();
            let mut i: usize = 0;
            while i < times.len()
                invariant
                    0 <= i <= times@.len(),
                    vals@.len() == times@.len(),
                    out@.len() == i,
                    forall|k: int|
                        0 <= k < i ==> (#[trigger] out@[k]).time_stamp == times@[k]
                            && out@[k].quaternion == vals@[k],
                decreases times@.len() - i,
            {
                out.push(QuaternionData { time_stamp: times[i], quaternion: vals[i] });
                i += 1;
            }
            Ok(Channel::Rotation { joint_index, interpolation, rotations: out })
        },
        Property::Weights => {
            let vals = match read_scalars_norm(&c.output, bufs) {
                Ok(v) => v,
                Err(e) => {
                    return Err(e);
                },
            };
            if vals.len() != times.len() {
                return Err(ConvertError::Other);
            }
            let mut out: Vec<ScalarData> = Vec::new();
            let mut i: usize = 0;
            while i < times.len()
                invariant
                    0 <= i <= times@.len(),
                    vals@.len() == times@.len(),
                    out@.len() == i,
                    forall|k: int|
                        0 <= k < i ==> (#[trigger] out@[k]).time_stamp == times@[k]
                            && out@[k].scalar == vals@[k],
                decreases times@.len() - i,
            {
                out.push(ScalarData { time_stamp: times[i], scalar: vals[i] });
                i += 1;
            }
            Ok(Channel::Weights { joint_index, interpolation, weights: out })
        },
    }
}

/// The error of the first channel that cannot be sampled, if any.
pub open spec fn channels_error(cs: Seq<ChannelDesc>, skins: Seq<Skin>, bufs: Seq<Seq<u8>>) -> Option<
    ConvertError,
>
    decreases cs.len(),
{
    if cs.len() == 0 {
        None
    } else {
        match channels_error(cs.drop_last(), skins, bufs) {
            Some(e) => Some(e),
            None => channel_error(cs[cs.len() - 1], skins, bufs),
        }
    }
}

/// Why an animation cannot be sampled, if it cannot.
pub open spec fn animation_error(a: AnimationDesc, skins: Seq<Skin>, bufs: Seq<Seq<u8>>) -> Option<
    ConvertError,
> {
    if a.name is None {
        Some(ConvertError::NoName)
    } else {
        channels_error(a.channels@, skins, bufs)
    }
}

proof fn lemma_channels_error(cs: Seq<ChannelDesc>, skins: Seq<Skin>, bufs: Seq<Seq<u8>>)
    ensures
        (forall|k: int| 0 <= k < cs.len() ==> channel_error(#[trigger] cs[k], skins, bufs) is None)
            ==> channels_error(cs, skins, bufs) is None,
        forall|i: int|
            0 <= i < cs.len() && channel_error(#[trigger] cs[i], skins, bufs) is Some && (forall|k: int|
                0 <= k < i ==> channel_error(#[trigger] cs[k], skins, bufs) is None)
                ==> channels_error(cs, skins, bufs) == channel_error(cs[i], skins, bufs),
    decreases cs.len(),
{
    if cs.len() > 0 {
        let init = cs.drop_last();
        lemma_channels_error(init, skins, bufs);
        assert forall|k: int| 0 <= k < init.len() implies init[k] == cs[k] by {}
    }
}

/// Samples every channel of an animation, in order; the first failure aborts.
pub fn get_channels(anim: &AnimationDesc, skins: &Vec<Skin>, bufs: &Buffers) -> (r: Result<
    Vec<Channel>,
    ConvertError,
>)
    requires
        forall|i: int| 0 <= i < skins@.len() ==> (#[trigger] skins@[i]).wf(),
    ensures
        match r {
            Ok(_) => channels_error(anim.channels@, skins@, bufs@) is None,
            Err(e) => channels_error(anim.channels@, skins@, bufs@) == Some(e),
        },
        match r {
            Ok(v) => v@.len() == anim.channels@.len() && forall|i: int|
                0 <= i < v@.len() ==> channel_error(#[trigger] anim.channels@[i], skins@, bufs@)
                    is None && channel_built(v@[i], anim.channels@[i], skins@, bufs@),
            Err(e) => exists|i: int|
                0 <= i < anim.channels@.len() && channel_error(
                    #[trigger] anim.channels@[i],
                    skins@,
                    bufs@,
                ) == Some(e) && forall|k: int|
                    0 <= k < i ==> channel_error(#[trigger] anim.channels@[k], skins@, bufs@)
                        is None,
        },
{
    proof {
        lemma_channels_error(anim.channels@, skins@, bufs@);
    }
    let mut out: Vec<Channel> = Vec::new();
    let mut i: usize = 0;
    while i < anim.channels.len()
        invariant
            0 <= i <= anim.channels@.len(),
            forall|k: int| 0 <= k < skins@.len() ==> (#[trigger] skins@[k]).wf(),
            out@.len() == i,
            forall|k: int|
                0 <= k < i ==> channel_error(#[trigger] anim.channels@[k], skins@, bufs@) is None
                    && channel_built(out@[k], anim.channels@[k], skins@, bufs@),
        decreases anim.channels@.len() - i,
    {
        match get_channel(&anim.channels[i], skins, bufs) {
            Ok(ch) => out.push(ch),
            Err(e) => {
                proof {
                    lemma_channels_error(anim.channels@, skins@, bufs@);
                    assert(channel_error(anim.channels@[i as int], skins@, bufs@) == Some(e));
                }
                return Err(e);
            },
        }
        i += 1;
    }
    Ok(out)
}

/// A sampled animation keeps its name and samples each channel in order.
pub open spec fn animation_built(
    a: Animation,
    d: AnimationDesc,
    skins: Seq<Skin>,
    bufs: Seq<Seq<u8>>,
) -> bool {
    &&& a.name@ == d.name->Some_0@
    &&& a.channels@.len() == d.channels@.len()
    &&& forall|i: int|
        0 <= i < a.channels@.len() ==> channel_built(
            #[trigger] a.channels@[i],
            d.channels@[i],
            skins,
            bufs,
        )
}

/// Samples a named animation.
pub fn get_animation(anim: &AnimationDesc, skins: &Vec<Skin>, bufs: &Buffers) -> (r: Result<
    Animation,
    ConvertError,
>)
    requires
        forall|i: int| 0 <= i < skins@.len() ==> (#[trigger] skins@[i]).wf(),
    ensures
        match r {
            Ok(a) => animation_error(*anim, skins@, bufs@) is None && animation_built(
                a,
                *anim,
                skins@,
                bufs@,
            ),
            Err(e) => animation_error(*anim, skins@, bufs@) == Some(e),
        },
{
    let name = match &anim.name {
        Some(s) => s.clone(),
        None => {
            return Err(ConvertError::NoName);
        },
    };
    match get_channels(anim, skins, bufs) {
        Ok(channels) => Ok(Animation { name, channels }),
        Err(e) => Err(e),
    }
}

/// Samples every animation, in order; the first failure aborts.
pub fn get(anims: &Vec<AnimationDesc>, skins: &Vec<Skin>, bufs: &Buffers) -> (r: Result<
    Vec<Animation>,
    ConvertError,
>)
    requires
        forall|i: int| 0 <= i < skins@.len() ==> (#[trigger] skins@[i]).wf(),
    ensures
        match r {
            Ok(v) => v@.len() == anims@.len() && forall|i: int|
                0 <= i < anims@.len() ==> animation_error(#[trigger] anims@[i], skins@, bufs@) is None
                    && animation_built(v@[i], anims@[i], skins@, bufs@),
            Err(e) => exists|i: int|
                0 <= i < anims@.len() && animation_error(#[trigger] anims@[i], skins@, bufs@) == Some(e)
                    && forall|k: int|
                    0 <= k < i ==> animation_error(#[trigger] anims@[k], skins@, bufs@) is None,
        },
{
    let mut out: Vec<Animation> = Vec::new();
    let mut i: usize = 0;
    while i < anims.len()
        invariant
            0 <= i <= anims@.len(),
            forall|k: int| 0 <= k < skins@.len() ==> (#[trigger] skins@[k]).wf(),
            out@.len() == i,
            forall|k: int|
                0 <= k < i ==> animation_error(#[trigger] anims@[k], skins@, bufs@) is None
                    && animation_built(out@[k], anims@[k], skins@, bufs@),
        decreases anims@.len() - i,
    {
        match get_animation(&anims[i], skins, bufs) {
            Ok(a) => out.push(a),
            Err(e) => {
                return Err(e);
            },
        }
        i += 1;
    }
    Ok(out)
}

} // verus!
