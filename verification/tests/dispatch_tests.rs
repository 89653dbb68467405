use gaussian_blur::dispatch::{
    advance_phase, global_work_size, phase_failure, validate_image_staging,
    validate_kernel_staging, DeviceImageDesc, DispatchPhase,
};
use gaussian_blur::errors::BlurError;
use gaussian_blur::image_buffer::ImageBuffer;
use gaussian_blur::kernel::generate;
use gaussian_blur::pipeline::{advance_stage, stage_failure, RunStage};

#[test]
fn dispatch_phases_run_in_fixed_order() {
    let order = [
        DispatchPhase::SelectDevice,
        DispatchPhase::BuildProgram,
        DispatchPhase::StageSource,
        DispatchPhase::StageDestination,
        DispatchPhase::StageKernel,
        DispatchPhase::BindArgs,
        DispatchPhase::Enqueue,
        DispatchPhase::ReadBack,
        DispatchPhase::Done,
    ];
    for pair in order.windows(2) {
        assert_eq!(advance_phase(pair[0]), pair[1]);
    }
    assert_eq!(advance_phase(DispatchPhase::Done), DispatchPhase::Done);
}

#[test]
fn each_failing_phase_maps_to_its_error() {
    let none = String::new();
    assert_eq!(
        phase_failure(DispatchPhase::SelectDevice, none.clone()),
        BlurError::DeviceUnavailable
    );
    assert_eq!(
        phase_failure(DispatchPhase::BuildProgram, String::from("line 3: parse error")),
        BlurError::ProgramBuildError(String::from("line 3: parse error"))
    );
    assert_eq!(
        phase_failure(DispatchPhase::StageSource, none.clone()),
        BlurError::DeviceAllocationError
    );
    assert_eq!(
        phase_failure(DispatchPhase::StageDestination, none.clone()),
        BlurError::DeviceAllocationError
    );
    assert_eq!(
        phase_failure(DispatchPhase::StageKernel, none.clone()),
        BlurError::DeviceAllocationError
    );
    assert_eq!(
        phase_failure(DispatchPhase::BindArgs, none.clone()),
        BlurError::KernelArgumentError
    );
    assert_eq!(
        phase_failure(DispatchPhase::Enqueue, none.clone()),
        BlurError::DeviceExecutionError
    );
    assert_eq!(
        phase_failure(DispatchPhase::ReadBack, none),
        BlurError::DeviceExecutionError
    );
}

#[test]
fn staging_requires_exact_format_match() {
    let host = ImageBuffer::from_raw(4, 2, vec![0u8; 32]).unwrap();
    let good = DeviceImageDesc::for_host(&host);
    assert!(validate_image_staging(&good, &host).is_ok());

    let bad_dims = DeviceImageDesc { width: 2, height: 4, channels: 4, bytes_per_channel: 1 };
    assert_eq!(
        validate_image_staging(&bad_dims, &host).err().unwrap(),
        BlurError::DeviceAllocationError
    );
    let bad_layout = DeviceImageDesc { width: 4, height: 2, channels: 3, bytes_per_channel: 1 };
    assert_eq!(
        validate_image_staging(&bad_layout, &host).err().unwrap(),
        BlurError::DeviceAllocationError
    );
}

#[test]
fn kernel_staging_requires_exact_length() {
    let kernel = generate(1).unwrap();
    assert!(validate_kernel_staging(9, &kernel).is_ok());
    assert_eq!(
        validate_kernel_staging(8, &kernel).err().unwrap(),
        BlurError::DeviceAllocationError
    );
}

#[test]
fn work_size_is_one_unit_per_pixel() {
    assert_eq!(global_work_size(4, 3), 12);
    assert_eq!(global_work_size(0, 7), 0);
    assert_eq!(global_work_size(0xFFFF_FFFF, 0xFFFF_FFFF), 0xFFFF_FFFE_0000_0001);
}

#[test]
fn run_stages_follow_the_comparison_workflow() {
    let order = [
        RunStage::DecodeSource,
        RunStage::GenerateKernel,
        RunStage::DeviceRun,
        RunStage::SaveDeviceResult,
        RunStage::ReferenceRun,
        RunStage::SaveReferenceResult,
        RunStage::Done,
    ];
    for pair in order.windows(2) {
        assert_eq!(advance_stage(pair[0]), pair[1]);
    }
    assert_eq!(advance_stage(RunStage::Done), RunStage::Done);
}

#[test]
fn orchestrator_stage_failures_map_to_errors() {
    assert_eq!(stage_failure(RunStage::DecodeSource), BlurError::ImageDecodeError);
    assert_eq!(stage_failure(RunStage::GenerateKernel), BlurError::InvalidParameter);
    assert_eq!(stage_failure(RunStage::SaveDeviceResult), BlurError::ImageEncodeError);
    assert_eq!(stage_failure(RunStage::SaveReferenceResult), BlurError::ImageEncodeError);
}
