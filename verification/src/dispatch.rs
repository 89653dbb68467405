//! The Device Dispatch Layer's protocol, as checkable host-side logic:
//! the fixed order of the dispatch steps, the error each failing step
//! raises, the format match every staging step must assert, and the
//! global work size of the enqueue. The device calls themselves — device
//! selection, program build, buffer staging, enqueue and readback — are
//! performed by the caller that owns the device handles; this module
//! decides and validates, so the unchecked host/device boundary stays
//! isolated to narrow call sites.

use vstd::prelude::*;
use crate::errors::BlurError;
use crate::image_buffer::ImageBuffer;
use crate::kernel::KernelMatrix;

verus! {

/// The steps of one dispatch, in the only order they may run.
#[derive(Clone, Copy, Debug, PartialEq, Eq, Structural)]
pub enum DispatchPhase {
    /// Pick a compute-capable accelerator-class device.
    SelectDevice,
    /// Compile and link the kernel program against the device.
    BuildProgram,
    /// Create the read-only device image holding the source pixels.
    StageSource,
    /// Create the write-only device image the result lands in.
    StageDestination,
    /// Create the device buffer holding the flattened kernel weights.
    StageKernel,
    /// Bind the three buffers and the scalar radius as program arguments.
    BindArgs,
    /// Enqueue one unit of parallel work per output pixel.
    Enqueue,
    /// Blocking read of the destination buffer back to the host.
    ReadBack,
    /// The dispatch is complete.
    Done,
}

pub open spec fn spec_next_phase(p: DispatchPhase) -> DispatchPhase {
    match p {
        DispatchPhase::SelectDevice => DispatchPhase::BuildProgram,
        DispatchPhase::BuildProgram => DispatchPhase::StageSource,
        DispatchPhase::StageSource => DispatchPhase::StageDestination,
        DispatchPhase::StageDestination => DispatchPhase::StageKernel,
        DispatchPhase::StageKernel => DispatchPhase::BindArgs,
        DispatchPhase::BindArgs => DispatchPhase::Enqueue,
        DispatchPhase::Enqueue => DispatchPhase::ReadBack,
        DispatchPhase::ReadBack => DispatchPhase::Done,
        DispatchPhase::Done => DispatchPhase::Done,
    }
}

/// The phase that follows a successfully completed step.
pub fn advance_phase(p: DispatchPhase) -> (next: DispatchPhase)
    ensures
        next == spec_next_phase(p),
{
    match p {
        DispatchPhase::SelectDevice => DispatchPhase::BuildProgram,
        DispatchPhase::BuildProgram => DispatchPhase::StageSource,
        DispatchPhase::StageSource => DispatchPhase::StageDestination,
        DispatchPhase::StageDestination => DispatchPhase::StageKernel,
        DispatchPhase::StageKernel => DispatchPhase::BindArgs,
        DispatchPhase::BindArgs => DispatchPhase::Enqueue,
        DispatchPhase::Enqueue => DispatchPhase::ReadBack,
        DispatchPhase::ReadBack => DispatchPhase::Done,
        DispatchPhase::Done => DispatchPhase::Done,
    }
}

pub open spec fn spec_phase_error(p: DispatchPhase, diagnostics: String) -> BlurError {
    match p {
        DispatchPhase::SelectDevice => BlurError::DeviceUnavailable,
        DispatchPhase::BuildProgram => BlurError::ProgramBuildError(diagnostics),
        DispatchPhase::StageSource => BlurError::DeviceAllocationError,
        DispatchPhase::StageDestination => BlurError::DeviceAllocationError,
        DispatchPhase::StageKernel => BlurError::DeviceAllocationError,
        DispatchPhase::BindArgs => BlurError::KernelArgumentError,
        DispatchPhase::Enqueue => BlurError::DeviceExecutionError,
        DispatchPhase::ReadBack => BlurError::DeviceExecutionError,
        DispatchPhase::Done => BlurError::DeviceExecutionError,
    }
}

/// The error a failing step raises. Every failure is fatal to the run:
/// a compute dispatch is never silently retried. `diagnostics` carries the
/// compiler output and is used only by a program-build failure.
pub fn phase_failure(p: DispatchPhase, diagnostics: String) -> (e: BlurError)
    requires
        p != DispatchPhase::Done,
    ensures
        e == spec_phase_error(p, diagnostics),
{
    match p {
        DispatchPhase::SelectDevice => BlurError::DeviceUnavailable,
        DispatchPhase::BuildProgram => BlurError::ProgramBuildError(diagnostics),
        DispatchPhase::StageSource => BlurError::DeviceAllocationError,
        DispatchPhase::StageDestination => BlurError::DeviceAllocationError,
        DispatchPhase::StageKernel => BlurError::DeviceAllocationError,
        DispatchPhase::BindArgs => BlurError::KernelArgumentError,
        DispatchPhase::Enqueue => BlurError::DeviceExecutionError,
        DispatchPhase::ReadBack => BlurError::DeviceExecutionError,
        DispatchPhase::Done => BlurError::DeviceExecutionError,
    }
}

/// The declared format of a device-resident image: what the staging call
/// promises the device about the host raster it mirrors.
#[derive(Clone, Copy, Debug, PartialEq, Eq, Structural)]
pub struct DeviceImageDesc {
    pub width: u32,
    pub height: u32,
    /// Channels per pixel; the host raster always carries R, G, B, A.
    pub channels: u32,
    /// Bytes per channel; the host raster is 8 bits per channel.
    pub bytes_per_channel: u32,
}

impl DeviceImageDesc {
    /// The declared layout, data type and dimensions match the host buffer.
    pub open spec fn spec_matches(&self, host: &ImageBuffer) -> bool {
        &&& self.width == host.spec_width()
        &&& self.height == host.spec_height()
        &&& self.channels == 4
        &&& self.bytes_per_channel == 1
    }

    /// The descriptor under which a host raster is staged.
    pub fn for_host(host: &ImageBuffer) -> (d: DeviceImageDesc)
        ensures
            d.spec_matches(host),
    {
        DeviceImageDesc { width: host.width(), height: host.height(), channels: 4, bytes_per_channel: 1 }
    }
}

/// Assert, before staging, that a device image's declared format matches
/// the host buffer it is to mirror; a mismatch fails the staging step.
pub fn validate_image_staging(desc: &DeviceImageDesc, host: &ImageBuffer) -> (r: Result<
    (),
    BlurError,
>)
    ensures
        r is Ok <==> desc.spec_matches(host),
        r matches Err(e) ==> e == BlurError::DeviceAllocationError,
{
    if desc.width == host.width() && desc.height == host.height() && desc.channels == 4
        && desc.bytes_per_channel == 1 {
        Ok(())
    } else {
        Err(BlurError::DeviceAllocationError)
    }
}

/// Assert, before staging, that the kernel-weight buffer's declared
/// element count matches the flattened matrix exactly.
pub fn validate_kernel_staging(declared_len: usize, kernel: &KernelMatrix) -> (r: Result<
    (),
    BlurError,
>)
    ensures
        r is Ok <==> declared_len == kernel.view_weights().len(),
        r matches Err(e) ==> e == BlurError::DeviceAllocationError,
{
    if declared_len == kernel.len() {
        Ok(())
    } else {
        Err(BlurError::DeviceAllocationError)
    }
}

/// The global work size of the enqueue: one logical unit of parallel work
/// per output pixel.
pub fn global_work_size(width: u32, height: u32) -> (n: u64)
    ensures
        n == width * height,
{
    proof {
        assert((width as int) * (height as int) <= 0xFFFF_FFFF * 0xFFFF_FFFF)
            by (nonlinear_arith)
            requires
                0 <= (width as int) <= 0xFFFF_FFFF,
                0 <= (height as int) <= 0xFFFF_FFFF;
    }
    (width as u64) * (height as u64)
}

} // verus!
