//! The codes by which the shader compiler names its enumerated values.
//! The library carries them and compares them; it gives them no meaning
//! beyond the few it has to tell apart.

use vstd::prelude::*;

verus! {

/// The code of a parameter category: the kind of resource a parameter
/// consumes.
#[derive(Clone, Copy, Debug, PartialEq, Eq, Hash, Structural)]
pub struct ParameterCategory(pub u32);

impl ParameterCategory {
    /// The category of a parameter that consumes nothing.
    pub fn none() -> (c: Self)
        ensures
            c == ParameterCategory(0),
    {
        ParameterCategory(0)
    }
}

/// The code of a pipeline stage.
#[derive(Clone, Copy, Debug, PartialEq, Eq, Hash, Structural)]
pub struct Stage(pub u32);

/// The code of a scalar type.
#[derive(Clone, Copy, Debug, PartialEq, Eq, Hash, Structural)]
pub struct ScalarType(pub u32);

/// The code of a resource's shape.
#[derive(Clone, Copy, Debug, PartialEq, Eq, Hash, Structural)]
pub struct ResourceShape(pub u32);

/// The code of the access a resource allows.
#[derive(Clone, Copy, Debug, PartialEq, Eq, Hash, Structural)]
pub struct ResourceAccess(pub u32);

/// The code of a matrix layout: row major or column major.
#[derive(Clone, Copy, Debug, PartialEq, Eq, Hash, Structural)]
pub struct MatrixLayoutMode(pub u32);

/// The code of a compilation target.
#[derive(Clone, Copy, Debug, PartialEq, Eq, Hash, Structural)]
pub struct CompileTarget(pub i32);

/// The code of a target profile.
#[derive(Clone, Copy, Debug, PartialEq, Eq, Hash, Structural)]
pub struct ProfileId(pub u32);

impl ProfileId {
    /// The profile that stands for no known profile.
    pub fn unknown() -> (p: Self)
        ensures
            p == ProfileId(0),
    {
        ProfileId(0)
    }

    /// Whether this is the profile that stands for no known profile.
    pub fn is_unknown(&self) -> (b: bool)
        ensures
            b == (*self == ProfileId(0)),
    {
        self.0 == 0
    }
}

/// The kind of a type, as far as layouts tell kinds apart.
#[derive(Clone, Copy, Debug, PartialEq, Eq, Hash, Structural)]
pub enum TypeKind {
    Struct,
    Array,
    Matrix,
    Vector,
    Scalar,
    Resource,
    ConstantBuffer,
    ParameterBlock,
    TextureBuffer,
    ShaderStorageBuffer,
    SamplerState,
    GenericTypeParameter,
    Interface,
    OutputStream,
    MeshOutput,
    Specialized,
    Feedback,
    Pointer,
    DynamicResource,
    /// Any other kind; layouts say nothing of it.
    Other,
}

} // verus!
