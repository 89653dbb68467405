//! The Orchestrator's sequencing: one run decodes the source, generates
//! the kernel, runs the device dispatch, saves its result, runs the host
//! reference, and saves that result — in that order, each stage timed by
//! the caller and every failure fatal. The stages that talk to the outside
//! world (decoding, the device, encoding) are performed by the caller; this
//! module fixes the order and the error a failing stage of the
//! orchestrator's own raises.

use vstd::prelude::*;
use crate::errors::BlurError;

verus! {

/// The stages of one comparison run, in the only order they may run.
#[derive(Clone, Copy, Debug, PartialEq, Eq, Structural)]
pub enum RunStage {
    /// Decode the source file to an RGBA raster (external collaborator).
    DecodeSource,
    /// Generate the normalized kernel matrix for the configured radius.
    GenerateKernel,
    /// Run the Device Dispatch Layer, timing it.
    DeviceRun,
    /// Encode and save the device result (external collaborator).
    SaveDeviceResult,
    /// Run the Reference Convolver on the same source and kernel, timing it.
    ReferenceRun,
    /// Encode and save the reference result (external collaborator).
    SaveReferenceResult,
    /// Both artifacts exist; the run is over.
    Done,
}

pub open spec fn spec_next_stage(s: RunStage) -> RunStage {
    match s {
        RunStage::DecodeSource => RunStage::GenerateKernel,
        RunStage::GenerateKernel => RunStage::DeviceRun,
        RunStage::DeviceRun => RunStage::SaveDeviceResult,
        RunStage::SaveDeviceResult => RunStage::ReferenceRun,
        RunStage::ReferenceRun => RunStage::SaveReferenceResult,
        RunStage::SaveReferenceResult => RunStage::Done,
        RunStage::Done => RunStage::Done,
    }
}

/// The stage that follows a successfully completed stage.
pub fn advance_stage(s: RunStage) -> (next: RunStage)
    ensures
        next == spec_next_stage(s),
{
    match s {
        RunStage::DecodeSource => RunStage::GenerateKernel,
        RunStage::GenerateKernel => RunStage::DeviceRun,
        RunStage::DeviceRun => RunStage::SaveDeviceResult,
        RunStage::SaveDeviceResult => RunStage::ReferenceRun,
        RunStage::ReferenceRun => RunStage::SaveReferenceResult,
        RunStage::SaveReferenceResult => RunStage::Done,
        RunStage::Done => RunStage::Done,
    }
}

/// The error raised when a stage the orchestrator itself owns fails.
/// `DeviceRun` failures carry the Dispatch Layer's own error instead and
/// are not mapped here.
pub fn stage_failure(s: RunStage) -> (e: BlurError)
    requires
        s != RunStage::DeviceRun,
        s != RunStage::Done,
    ensures
        s == RunStage::DecodeSource ==> e == BlurError::ImageDecodeError,
        s == RunStage::GenerateKernel ==> e == BlurError::InvalidParameter,
        (s == RunStage::SaveDeviceResult || s == RunStage::SaveReferenceResult) ==> e
            == BlurError::ImageEncodeError,
        s == RunStage::ReferenceRun ==> e == BlurError::InvalidParameter,
{
    match s {
        RunStage::DecodeSource => BlurError::ImageDecodeError,
        RunStage::GenerateKernel => BlurError::InvalidParameter,
        RunStage::SaveDeviceResult => BlurError::ImageEncodeError,
        RunStage::SaveReferenceResult => BlurError::ImageEncodeError,
        _ => BlurError::InvalidParameter,
    }
}

} // verus!
