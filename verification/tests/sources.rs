use vexo::ui_core::geometry::{
    KeyboardInsetSource, MediaQueryDataSource, SafeAreaSource, ScaleSource,
};

fn b(v: f32) -> u32 {
    v.to_bits()
}

fn insets(s: &SafeAreaSource) -> (f32, f32, f32, f32) {
    let e = s.get();
    (
        f32::from_bits(e.left),
        f32::from_bits(e.right),
        f32::from_bits(e.top),
        f32::from_bits(e.bottom),
    )
}

#[test]
fn test_scale_source_get_returns_initial_value() {
    let source = ScaleSource::new(2.0f64.to_bits());
    assert_eq!(f64::from_bits(source.get()), 2.0);
}

#[test]
fn test_scale_source_set_updates_value() {
    let source = ScaleSource::new(1.0f64.to_bits());
    source.set(3.0f64.to_bits());
    assert_eq!(f64::from_bits(source.get()), 3.0);
}

#[test]
fn test_scale_source_clones_share_state() {
    let source = ScaleSource::new(1.0f64.to_bits());
    let clone = source.clone();
    source.set(2.5f64.to_bits());
    assert_eq!(f64::from_bits(clone.get()), 2.5);
}

#[test]
fn test_scale_source_default() {
    let source = ScaleSource::default();
    assert_eq!(f64::from_bits(source.get()), 1.0);
}

#[test]
fn test_scale_source_multi_holder_propagation() {
    let backend_source = ScaleSource::new(1.0f64.to_bits());
    let window_source = backend_source.clone();
    let context_source = backend_source.clone();
    backend_source.set(2.0f64.to_bits());
    assert_eq!(f64::from_bits(window_source.get()), 2.0);
    assert_eq!(f64::from_bits(context_source.get()), 2.0);
    window_source.set(3.0f64.to_bits());
    assert_eq!(f64::from_bits(backend_source.get()), 3.0);
    assert_eq!(f64::from_bits(context_source.get()), 3.0);
}

#[test]
fn test_safe_area_source_get_returns_initial_values() {
    let source = SafeAreaSource::new(b(10.0), b(20.0), b(30.0), b(40.0));
    assert_eq!(insets(&source), (10.0, 20.0, 30.0, 40.0));
}

#[test]
fn test_safe_area_source_set_updates_values() {
    let source = SafeAreaSource::new(b(0.0), b(0.0), b(0.0), b(0.0));
    source.set(b(5.0), b(15.0), b(25.0), b(35.0));
    assert_eq!(insets(&source), (5.0, 15.0, 25.0, 35.0));
}

#[test]
fn test_safe_area_source_clones_share_state() {
    let source = SafeAreaSource::new(b(0.0), b(0.0), b(0.0), b(0.0));
    let clone = source.clone();
    source.set(b(1.0), b(2.0), b(3.0), b(4.0));
    assert_eq!(insets(&clone), (1.0, 2.0, 3.0, 4.0));
}

#[test]
fn test_safe_area_source_default_is_zero() {
    let source = SafeAreaSource::default();
    assert_eq!(insets(&source), (0.0, 0.0, 0.0, 0.0));
}

#[test]
fn test_safe_area_source_multi_holder_propagation() {
    let window_source = SafeAreaSource::new(b(0.0), b(0.0), b(0.0), b(0.0));
    let build_owner_source = window_source.clone();
    window_source.set(b(44.0), b(0.0), b(44.0), b(34.0));
    assert_eq!(insets(&build_owner_source), (44.0, 0.0, 44.0, 34.0));
}

#[test]
fn default_is_zero() {
    let src = KeyboardInsetSource::new();
    assert_eq!(f32::from_bits(src.get()), 0.0);
}

#[test]
fn set_updates_value() {
    let src = KeyboardInsetSource::new();
    src.set(b(300.0));
    assert_eq!(f32::from_bits(src.get()), 300.0);
}

#[test]
fn clones_share_state() {
    let src = KeyboardInsetSource::default();
    let clone = src.clone();
    src.set(b(250.0));
    assert_eq!(f32::from_bits(clone.get()), 250.0);
}

#[test]
fn default_is_all_zero() {
    let src = MediaQueryDataSource::new();
    let snap = src.get();
    assert_eq!((f32::from_bits(snap.width), f32::from_bits(snap.height)), (0.0, 0.0));
    assert_eq!(f32::from_bits(snap.device_pixel_ratio), 1.0);
    assert!(!snap.is_dark);
}

#[test]
fn set_updates_values() {
    let src = MediaQueryDataSource::new();
    src.set(b(400.0), b(800.0), b(2.0), true);
    let snap = src.get();
    assert_eq!((f32::from_bits(snap.width), f32::from_bits(snap.height)), (400.0, 800.0));
    assert_eq!(f32::from_bits(snap.device_pixel_ratio), 2.0);
    assert!(snap.is_dark);
}

#[test]
fn geometry_clones_share_state() {
    let src = MediaQueryDataSource::default();
    let clone = src.clone();
    src.set(b(100.0), b(200.0), b(3.0), false);
    let snap = clone.get();
    assert_eq!((f32::from_bits(snap.width), f32::from_bits(snap.height)), (100.0, 200.0));
    assert_eq!(f32::from_bits(snap.device_pixel_ratio), 3.0);
    assert!(!snap.is_dark);
}
