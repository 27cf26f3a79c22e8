//! Device selection policy, the strategy facade, and the pipeline's
//! planning and accounting steps.

use matmul::args::{DeviceType, Mode};
use matmul::device::{get_device, DeviceClass, DeviceDesc};
use matmul::easy::EasyMultiplier;
use matmul::error::MulError;
use matmul::hard::HardMultiplier;
use matmul::matrix::Matrix;
use matmul::medium::MediumMultiplier;
use matmul::multiplier::{implementation, Multiplier, MultiplierInfo};
use matmul::timing::{PipelineTimes, StageSpan};

fn dev(class: DeviceClass, unified: bool, name: &str) -> DeviceDesc {
    DeviceDesc {
        class,
        unified_memory: unified,
        name: name.to_string(),
        platform_name: format!("{name}-platform"),
    }
}

fn sample_devices() -> Vec<DeviceDesc> {
    vec![
        dev(DeviceClass::Cpu, true, "cpu0"),
        dev(DeviceClass::Gpu, true, "igpu-style"),
        dev(DeviceClass::Gpu, false, "dgpu-style"),
        dev(DeviceClass::Gpu, true, "apu"),
    ]
}

#[test]
fn any_class_indexes_the_unfiltered_list() {
    let devices = sample_devices();
    for i in 0..devices.len() {
        let d = get_device(&devices, DeviceType::All, i).unwrap();
        assert_eq!(d.name, devices[i].name);
    }
}

#[test]
fn any_class_out_of_range_reports_the_counts() {
    let devices = sample_devices();
    let err = get_device(&devices, DeviceType::All, 4).unwrap_err();
    assert_eq!(err, MulError::DeviceNotFound { index: 4, available: 4 });
}

#[test]
fn cpu_and_gpu_filter_on_the_broad_class() {
    let devices = sample_devices();
    let cpu = get_device(&devices, DeviceType::Cpu, 0).unwrap();
    assert_eq!(cpu.name, "cpu0");
    assert!(matches!(
        get_device(&devices, DeviceType::Cpu, 1),
        Err(MulError::DeviceNotFound { index: 1, available: 1 })
    ));

    let gpu0 = get_device(&devices, DeviceType::Gpu, 0).unwrap();
    let gpu2 = get_device(&devices, DeviceType::Gpu, 2).unwrap();
    assert_eq!(gpu0.name, "igpu-style");
    assert_eq!(gpu2.name, "apu");
}

#[test]
fn dedicated_keeps_gpus_reporting_unified_memory() {
    // The policy keeps unified-memory gpus for the dedicated class and the
    // others for the integrated class.
    let devices = sample_devices();
    let d0 = get_device(&devices, DeviceType::DGpu, 0).unwrap();
    let d1 = get_device(&devices, DeviceType::DGpu, 1).unwrap();
    assert_eq!(d0.name, "igpu-style");
    assert_eq!(d1.name, "apu");
    assert!(matches!(
        get_device(&devices, DeviceType::DGpu, 2),
        Err(MulError::DeviceNotFound { index: 2, available: 2 })
    ));

    let i0 = get_device(&devices, DeviceType::IGpu, 0).unwrap();
    assert_eq!(i0.name, "dgpu-style");
    assert!(matches!(
        get_device(&devices, DeviceType::IGpu, 1),
        Err(MulError::DeviceNotFound { index: 1, available: 1 })
    ));
}

#[test]
fn empty_enumeration_never_selects() {
    let devices: Vec<DeviceDesc> = vec![];
    assert!(matches!(
        get_device(&devices, DeviceType::All, 0),
        Err(MulError::DeviceNotFound { index: 0, available: 0 })
    ));
}

#[test]
fn dispatcher_builds_the_requested_strategy() {
    let devices = sample_devices();

    let basic = implementation(Mode::Basic, &devices).unwrap();
    assert!(matches!(basic, Multiplier::Basic(_)));
    assert!(basic.stat().is_none());
    assert!(matches!(
        basic.info().unwrap(),
        MultiplierInfo::OnDeviceMultiplier
    ));

    let easy = implementation(
        Mode::Easy { device_type: None, index: None },
        &devices,
    )
    .unwrap();
    assert!(matches!(easy, Multiplier::Easy(_)));
    assert!(easy.stat().is_none());
    match easy.info().unwrap() {
        MultiplierInfo::OpenClMultiplier { device_name, platform_name } => {
            // Defaults: any device, index zero.
            assert_eq!(device_name, "cpu0");
            assert_eq!(platform_name, "cpu0-platform");
        }
        other => panic!("expected an accelerator info, got {:?}", other),
    }

    let medium = implementation(
        Mode::Medium { device_type: Some(DeviceType::Gpu), index: Some(1) },
        &devices,
    )
    .unwrap();
    assert!(matches!(medium, Multiplier::Medium(_)));

    let hard = implementation(
        Mode::Hard { device_type: Some(DeviceType::Cpu), index: Some(3) },
        &devices,
    );
    assert!(matches!(
        hard,
        Err(MulError::DeviceNotFound { index: 3, available: 1 })
    ));
}

#[test]
fn naive_plan_uploads_operands_unchanged() {
    let devices = sample_devices();
    let easy = EasyMultiplier::new(DeviceType::All, 0, &devices).unwrap();
    let m1 = Matrix::create(2, 3, &vec![1.0f32; 6]).unwrap();
    let m2 = Matrix::create(3, 4, &vec![2.0f32; 12]).unwrap();
    let plan = easy.prepare(&m1, &m2).unwrap();
    assert_eq!((plan.a.rows, plan.a.cols), (2, 3));
    assert_eq!((plan.b.rows, plan.b.cols), (3, 4));
    assert_eq!((plan.out_rows, plan.out_cols), (2, 4));
    assert_eq!((plan.arg_n, plan.arg_m, plan.arg_k), (4, 2, 3));
    assert_eq!((plan.global_x, plan.global_y), (4, 2));
    assert_eq!((plan.local_x, plan.local_y), (0, 0));

    let bad = Matrix::create(2, 2, &vec![0.0f32; 4]).unwrap();
    assert!(matches!(
        easy.prepare(&bad, &m2),
        Err(MulError::DimensionMismatch)
    ));
}

#[test]
fn tiled_plan_pads_to_tile_multiples() {
    let devices = sample_devices();
    let medium = MediumMultiplier::new(DeviceType::All, 0, &devices).unwrap();
    let m1 = Matrix::create(2, 3, &vec![5.0f32; 6]).unwrap();
    let m2 = Matrix::create(3, 4, &vec![6.0f32; 12]).unwrap();
    let plan = medium.prepare(&m1, &m2, 0.0f32).unwrap();
    assert_eq!((plan.a.rows, plan.a.cols), (16, 16));
    assert_eq!((plan.b.rows, plan.b.cols), (16, 16));
    assert_eq!((plan.out_rows, plan.out_cols), (16, 16));
    assert_eq!((plan.arg_n, plan.arg_m, plan.arg_k), (16, 16, 16));
    assert_eq!((plan.global_x, plan.global_y), (16, 16));
    assert_eq!((plan.local_x, plan.local_y), (16, 16));
    // Padded content: data in the top-left corner, zero elsewhere.
    assert_eq!(plan.a.get(0, 0), 5.0);
    assert_eq!(plan.a.get(1, 2), 5.0);
    assert_eq!(plan.a.get(2, 0), 0.0);
    assert_eq!(plan.a.get(0, 3), 0.0);
}

#[test]
fn coarsened_plan_halves_the_row_grid() {
    let devices = sample_devices();
    let hard = HardMultiplier::new(DeviceType::All, 0, &devices).unwrap();
    let m1 = Matrix::create(17, 16, &vec![1.0f32; 272]).unwrap();
    let m2 = Matrix::create(16, 16, &vec![1.0f32; 256]).unwrap();
    let plan = hard.prepare(&m1, &m2, 0.0f32).unwrap();
    assert_eq!((plan.a.rows, plan.a.cols), (32, 16));
    assert_eq!((plan.out_rows, plan.out_cols), (32, 16));
    assert_eq!((plan.global_x, plan.global_y), (16, 16));
    assert_eq!((plan.local_x, plan.local_y), (16, 8));
}

#[test]
fn completion_records_truncated_stage_times() {
    let devices = sample_devices();
    let mut easy = EasyMultiplier::new(DeviceType::All, 0, &devices).unwrap();
    assert!(easy.stat().is_none());

    // Raw device output padded to 4 columns; the true result is 2 x 3.
    let raw = Matrix::create(2, 4, &vec![1.0f32, 2.0, 3.0, 0.0, 4.0, 5.0, 6.0, 0.0]).unwrap();
    let spans = PipelineTimes {
        write_a: StageSpan { start: 0, end: 2_000_000 },
        write_b: StageSpan { start: 0, end: 1_999_999 },
        write_out: StageSpan { start: 5, end: 5 },
        kernel: StageSpan { start: 1_000_000, end: 8_500_000 },
        read: StageSpan { start: 0, end: 3_000_000 },
    };
    let out = easy.complete(&raw, 2, 3, &spans);
    assert_eq!(out.rows, 2);
    assert_eq!(out.cols, 3);
    assert_eq!(out.data, vec![1.0f32, 2.0, 3.0, 4.0, 5.0, 6.0]);

    // 2 + 1 + 0 + 7 + 3 milliseconds, each stage truncated on its own.
    let stat = easy.stat().unwrap();
    assert_eq!(stat.total_time, 13);
    assert_eq!(stat.gpu_time, 7);
}

#[test]
fn each_strategy_carries_its_own_kernel() {
    let devices = sample_devices();
    let easy = EasyMultiplier::new(DeviceType::All, 0, &devices).unwrap();
    let medium = MediumMultiplier::new(DeviceType::All, 0, &devices).unwrap();
    let hard = HardMultiplier::new(DeviceType::All, 0, &devices).unwrap();
    assert!(easy.kernel_source().contains("get_global_id"));
    assert!(medium.kernel_source().contains("barrier"));
    assert!(hard.kernel_source().contains("ELEM_PER_THREAD"));
    assert_ne!(easy.kernel_source(), medium.kernel_source());
    assert_ne!(medium.kernel_source(), hard.kernel_source());
}

#[test]
fn basic_multiplication_test() {
    let devices = vec![dev(DeviceClass::Gpu, false, "fixture")];
    let multiplier = EasyMultiplier::new(DeviceType::All, 0, &devices)
        .expect("unable to create multiplier");
    let _multiplier = multiplier;
}
