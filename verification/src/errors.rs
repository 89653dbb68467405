//! The error taxonomy of the blur pipeline. Every variant is fatal to the
//! run that raised it: there is no retry policy anywhere in this system,
//! because a compute dispatch is not safe to repeat without re-validating
//! device state.

use vstd::prelude::*;

verus! {

#[derive(Debug, Clone, PartialEq, Eq)]
pub enum BlurError {
    /// A parameter outside its documented domain (e.g. a negative radius).
    InvalidParameter,
    /// The external decoder could not produce an RGBA buffer.
    ImageDecodeError,
    /// The external encoder could not write a result buffer.
    ImageEncodeError,
    /// No accelerator-class compute device exists.
    DeviceUnavailable,
    /// The kernel program failed to compile; carries the compiler diagnostics.
    ProgramBuildError(String),
    /// A device-resident buffer could not be created or staged.
    DeviceAllocationError,
    /// Binding a program argument failed.
    KernelArgumentError,
    /// Enqueueing the parallel execution, or reading the result back, failed.
    DeviceExecutionError,
}

impl BlurError {
    /// A short stable name for the variant, for reporting.
    pub fn name(&self) -> (r: &'static str)
        ensures
            r@ == self.spec_name(),
    {
        match self {
            BlurError::InvalidParameter => "InvalidParameter",
            BlurError::ImageDecodeError => "ImageDecodeError",
            BlurError::ImageEncodeError => "ImageEncodeError",
            BlurError::DeviceUnavailable => "DeviceUnavailable",
            BlurError::ProgramBuildError(_) => "ProgramBuildError",
            BlurError::DeviceAllocationError => "DeviceAllocationError",
            BlurError::KernelArgumentError => "KernelArgumentError",
            BlurError::DeviceExecutionError => "DeviceExecutionError",
        }
    }

    pub open spec fn spec_name(&self) -> Seq<char> {
        match self {
            BlurError::InvalidParameter => "InvalidParameter"@,
            BlurError::ImageDecodeError => "ImageDecodeError"@,
            BlurError::ImageEncodeError => "ImageEncodeError"@,
            BlurError::DeviceUnavailable => "DeviceUnavailable"@,
            BlurError::ProgramBuildError(_) => "ProgramBuildError"@,
            BlurError::DeviceAllocationError => "DeviceAllocationError"@,
            BlurError::KernelArgumentError => "KernelArgumentError"@,
            BlurError::DeviceExecutionError => "DeviceExecutionError"@,
        }
    }
}

} // verus!
