use camloc_server::MotionHint;

#[test]
fn motion_hints_compare_by_variant() {
    let h = MotionHint::MovingForwards;
    let copy = h;
    assert_eq!(h, copy);
    assert_ne!(MotionHint::MovingBackwards, MotionHint::Stationary);
}
