use vr_harness::eye::{EyePair, EyeTarget};

#[test]
fn eye_target_keeps_its_dimensions() {
    let t = EyeTarget::new(1512, 1680);
    assert_eq!(t.width, 1512);
    assert_eq!(t.height, 1680);
}

#[test]
fn both_eyes_share_the_recommended_dimensions() {
    let p = EyePair::allocate(1512, 1680);
    assert_eq!(p.left.width, p.right.width);
    assert_eq!(p.left.height, p.right.height);
    assert_eq!(p.left.width, 1512);
    assert_eq!(p.left.height, 1680);
    assert_eq!(p.recommended_width, 1512);
    assert_eq!(p.recommended_height, 1680);
}

#[test]
fn eye_pair_dimensions_hold_for_degenerate_sizes() {
    let p = EyePair::allocate(0, 0);
    assert_eq!(p.left, p.right);
    assert_eq!(p.left.width, 0);
    assert_eq!(p.left.height, 0);
}
