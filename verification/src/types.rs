//! Enumerations shared by color spaces and processors, with the names that
//! their `Debug` form prints.
use vstd::prelude::*;

verus! {

/// Pixel bit depth of an image buffer.
#[derive(Clone, Copy, Debug, PartialEq, Eq, Structural)]
pub enum BitDepth {
    Unknown,
    UInt8,
    UInt10,
    UInt12,
    UInt14,
    UInt16,
    UInt32,
    F16,
    F32,
}

impl BitDepth {
    /// The variant's name, as `{:?}` prints it.
    pub open spec fn name_chars(self) -> Seq<char> {
        match self {
            BitDepth::Unknown => "Unknown"@,
            BitDepth::UInt8 => "UInt8"@,
            BitDepth::UInt10 => "UInt10"@,
            BitDepth::UInt12 => "UInt12"@,
            BitDepth::UInt14 => "UInt14"@,
            BitDepth::UInt16 => "UInt16"@,
            BitDepth::UInt32 => "UInt32"@,
            BitDepth::F16 => "F16"@,
            BitDepth::F32 => "F32"@,
        }
    }

    pub fn name(&self) -> (r: &'static str)
        ensures
            r@ == self.name_chars(),
    {
        match self {
            BitDepth::Unknown => "Unknown",
            BitDepth::UInt8 => "UInt8",
            BitDepth::UInt10 => "UInt10",
            BitDepth::UInt12 => "UInt12",
            BitDepth::UInt14 => "UInt14",
            BitDepth::UInt16 => "UInt16",
            BitDepth::UInt32 => "UInt32",
            BitDepth::F16 => "F16",
            BitDepth::F32 => "F32",
        }
    }
}

/// How the values of a color space are distributed, for GPU allocation.
#[derive(Clone, Copy, Debug, PartialEq, Eq, Structural)]
pub enum Allocation {
    Unknown,
    Uniform,
    Lg2,
}

impl Allocation {
    /// The variant's name, as `{:?}` prints it.
    pub open spec fn name_chars(self) -> Seq<char> {
        match self {
            Allocation::Unknown => "Unknown"@,
            Allocation::Uniform => "Uniform"@,
            Allocation::Lg2 => "Lg2"@,
        }
    }

    pub fn name(&self) -> (r: &'static str)
        ensures
            r@ == self.name_chars(),
    {
        match self {
            Allocation::Unknown => "Unknown",
            Allocation::Uniform => "Uniform",
            Allocation::Lg2 => "Lg2",
        }
    }
}

/// The reference space a color space is defined against.
#[derive(Clone, Copy, Debug, PartialEq, Eq, Structural)]
pub enum ReferenceSpaceType {
    Scene,
    Display,
}

impl ReferenceSpaceType {
    /// The variant's name, as `{:?}` prints it.
    pub open spec fn name_chars(self) -> Seq<char> {
        match self {
            ReferenceSpaceType::Scene => "Scene"@,
            ReferenceSpaceType::Display => "Display"@,
        }
    }

    pub fn name(&self) -> (r: &'static str)
        ensures
            r@ == self.name_chars(),
    {
        match self {
            ReferenceSpaceType::Scene => "Scene",
            ReferenceSpaceType::Display => "Display",
        }
    }
}

/// Direction of a color space's transform relative to the reference space.
#[derive(Clone, Copy, Debug, PartialEq, Eq, Structural)]
pub enum ColorSpaceDirection {
    ToReference,
    FromReference,
}

/// Kinds of parameters that can be changed on a finalized processor.
#[derive(Clone, Copy, Debug, PartialEq, Eq, Structural)]
pub enum DynamicPropertyType {
    Exposure,
    Contrast,
    Gamma,
    GradingPrimary,
    GradingRgbCurve,
    GradingTone,
}

/// Bit set of optimizations that were asked for when a processor was
/// finalized; `{:?}` prints it as a decimal number.
pub type OptimizationFlags = u32;

/// What a processor reads of its op list once the list has been finalized
/// and optimized: whether it does nothing, whether a channel's output
/// depends on other channels, and the list's cache identifier.
pub struct OpsSummary {
    pub is_no_op: bool,
    pub has_channel_crosstalk: bool,
    pub cache_id: String,
}

} // verus!
