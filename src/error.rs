use vstd::prelude::*;

verus! {

/// What can go wrong while turning a scene description into the engine model.
#[derive(Debug, Clone, Copy, PartialEq, Eq, Structural)]
pub enum ConvertError {
    /// A primitive lacks an attribute stream that it must have.
    MissingAttributes,
    /// The bytes of an image are not present.
    MissingImageBuffer,
    /// A skin names no skeleton root, or names one that is not among its joints.
    NoSkeleton,
    /// The scene description has no default scene.
    NoDefaultScene,
    /// A mesh, skin, joint, animation, material or texture has no name.
    NoName,
    /// An animation targets a node that belongs to no skeleton.
    InvalidJoint,
    /// A skeleton has more joints than a 16-bit joint index can tell apart.
    TooManyJoints,
    /// A buffer that an accessor refers to is absent or too short.
    MissingBuffer,
    /// A buffer's contents do not have the length that the description declares.
    InvalidBufferLength,
    /// A primitive has no material.
    NoMaterial,
    /// An accessor's component type is not the one the caller can read.
    UnsupportedDataType,
    /// An accessor's shape is not the one the caller can read.
    UnsupportedDimensions,
    /// Anything else: streams of unequal length, a bad stride, an index out of
    /// range, a spline channel without keyframes, a cyclic scene graph.
    Other,
}

/// The human-readable description of each error.
pub open spec fn description_of(e: ConvertError) -> Seq<char> {
    match e {
        ConvertError::MissingAttributes => "Primitive missing required attributes"@,
        ConvertError::MissingImageBuffer => "Missing image buffer"@,
        ConvertError::NoSkeleton => "No specified root node of skeleton for a skin"@,
        ConvertError::NoDefaultScene => "No default scene present"@,
        ConvertError::NoName => "No name for a mesh, skin, or animation"@,
        ConvertError::InvalidJoint => "Invalid skeleton joint index"@,
        ConvertError::TooManyJoints => "Too many joints"@,
        ConvertError::MissingBuffer => "Buffer region missing or too short"@,
        ConvertError::InvalidBufferLength => "Buffer length differs from its declaration"@,
        ConvertError::NoMaterial => "Primitive has no material"@,
        ConvertError::UnsupportedDataType => "Unsupported accessor component type"@,
        ConvertError::UnsupportedDimensions => "Unsupported accessor shape"@,
        ConvertError::Other => "Something weird happened"@,
    }
}

impl ConvertError {
    /// A human-readable description of the error.
    pub fn description(&self) -> (r: &'static str)
        ensures
            r@ == description_of(*self),
    {
        match self {
            ConvertError::MissingAttributes => "Primitive missing required attributes",
            ConvertError::MissingImageBuffer => "Missing image buffer",
            ConvertError::NoSkeleton => "No specified root node of skeleton for a skin",
            ConvertError::NoDefaultScene => "No default scene present",
            ConvertError::NoName => "No name for a mesh, skin, or animation",
            ConvertError::InvalidJoint => "Invalid skeleton joint index",
            ConvertError::TooManyJoints => "Too many joints",
            ConvertError::MissingBuffer => "Buffer region missing or too short",
            ConvertError::InvalidBufferLength => "Buffer length differs from its declaration",
            ConvertError::NoMaterial => "Primitive has no material",
            ConvertError::UnsupportedDataType => "Unsupported accessor component type",
            ConvertError::UnsupportedDimensions => "Unsupported accessor shape",
            ConvertError::Other => "Something weird happened",
        }
    }
}

} // verus!
