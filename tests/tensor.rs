use latent_diffusion::error::DiffusionError;
use latent_diffusion::tensor::{element_count, TensorData};

#[test]
fn element_counts() {
    assert_eq!(element_count(&vec![]), Some(1));
    assert_eq!(element_count(&vec![2, 3, 4]), Some(24));
    assert_eq!(element_count(&vec![5, 0, usize::MAX]), Some(0));
    assert_eq!(element_count(&vec![usize::MAX, 2]), None);
}

#[test]
fn new_checks_size() {
    assert!(TensorData::new(vec![2, 2], vec![1u8, 2, 3, 4]).is_ok());
    assert_eq!(
        TensorData::new(vec![2, 3], vec![1u8, 2, 3, 4]).err(),
        Some(DiffusionError::ShapeMismatch)
    );
}

#[test]
fn convert_preserves_shape_and_order() {
    let x = TensorData::new(vec![1, 2, 3], vec![0.5f32, -1.25, 3.0, 7.75, 0.0, -2.5]).unwrap();
    let y = x.convert(|v: f32| v as f64);
    assert_eq!(y.shape, vec![1, 2, 3]);
    assert_eq!(y.values, vec![0.5f64, -1.25, 3.0, 7.75, 0.0, -2.5]);
}

#[test]
fn convert_applies_mapping() {
    let x = TensorData::new(vec![3], vec![1u8, 2, 250]).unwrap();
    let y = x.convert(|v: u8| (v as u32) * 2);
    assert_eq!(y.shape, vec![3]);
    assert_eq!(y.values, vec![2, 4, 500]);
}

#[test]
fn round_trip_narrow_then_widen_within_tolerance() {
    let orig: Vec<f64> = (0..24).map(|i| (i as f64).sin() * 3.7).collect();
    let x = TensorData::new(vec![2, 3, 4], orig.clone()).unwrap();
    let narrow = x.convert(|v: f64| v as f32);
    assert_eq!(narrow.shape, vec![2, 3, 4]);
    let wide = narrow.convert(|v: f32| v as f64);
    assert_eq!(wide.shape, vec![2, 3, 4]);
    for (a, b) in orig.iter().zip(wide.values.iter()) {
        assert!((a - b).abs() <= a.abs() * (f32::EPSILON as f64));
    }
}

#[test]
fn round_trip_widen_then_narrow_is_exact() {
    let orig: Vec<f32> = vec![0.1, -3.5, 1.0e-7, 65504.0];
    let x = TensorData::new(vec![4], orig.clone()).unwrap();
    let back = x.convert(|v: f32| v as f64).convert(|v: f64| v as f32);
    assert_eq!(back.values, orig);
}
