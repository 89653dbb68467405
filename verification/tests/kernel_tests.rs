use gaussian_blur::errors::BlurError;
use gaussian_blur::kernel::generate;
use gaussian_blur::WEIGHT_ONE;

fn weights_of(radius: i32) -> Vec<u32> {
    let k = generate(radius).unwrap();
    let mut out: Vec<u32> = Vec::new();
    let mut i = 0;
    while i < k.len() {
        out.push(k.weight_at(i));
        i += 1;
    }
    out
}

#[test]
fn kernel_sums_to_weight_one_exactly() {
    for radius in [0i32, 1, 2, 3, 7, 20] {
        let w = weights_of(radius);
        let side = (2 * radius + 1) as usize;
        assert_eq!(w.len(), side * side);
        let total: u64 = w.iter().map(|&v| v as u64).sum();
        assert_eq!(total, WEIGHT_ONE as u64);
    }
}

#[test]
fn kernel_sums_to_one_within_float_tolerance() {
    for radius in [0i32, 1, 4, 11] {
        let w = weights_of(radius);
        let total: f64 = w.iter().map(|&v| v as f64 / 65536.0).sum();
        assert!((total - 1.0).abs() <= 1e-5);
    }
}

#[test]
fn kernel_radius_one_exact_weights() {
    let w = weights_of(1);
    assert_eq!(w, vec![4914, 8117, 4914, 8117, 13412, 8117, 4914, 8117, 4914]);
}

#[test]
fn kernel_radius_zero_is_identity_weight() {
    let w = weights_of(0);
    assert_eq!(w, vec![WEIGHT_ONE]);
}

#[test]
fn kernel_symmetric_under_rotation() {
    for radius in [1i32, 2, 3, 6] {
        let w = weights_of(radius);
        let side = (2 * radius + 1) as usize;
        for a in 0..side {
            for b in 0..side {
                let mirrored = (side - 1 - a) * side + (side - 1 - b);
                assert_eq!(w[a * side + b], w[mirrored]);
            }
        }
    }
}

#[test]
fn kernel_generation_deterministic() {
    for radius in [0i32, 1, 4, 9] {
        let first = weights_of(radius);
        let second = weights_of(radius);
        assert_eq!(first, second);
    }
}

#[test]
fn kernel_center_weight_is_largest() {
    let w = weights_of(2);
    let side = 5usize;
    let center = w[2 * side + 2];
    for &v in &w {
        assert!(v <= center);
    }
}

#[test]
fn negative_radius_rejected() {
    assert_eq!(generate(-1).err().unwrap(), BlurError::InvalidParameter);
    assert_eq!(generate(-20).err().unwrap(), BlurError::InvalidParameter);
    assert!(generate(-1).is_err());
}

#[test]
fn error_names_are_stable() {
    assert_eq!(BlurError::InvalidParameter.name(), "InvalidParameter");
    assert_eq!(BlurError::DeviceUnavailable.name(), "DeviceUnavailable");
    assert_eq!(
        BlurError::ProgramBuildError(String::from("bad token")).name(),
        "ProgramBuildError"
    );
}
