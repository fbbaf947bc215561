use slik::binding::{
    absorb_target, active_mask, retarget_action, MotionValues, ReducedMotionConfig, RetargetAction,
};
use slik::style::{owns_prop, prop_bit, MotionProp, MotionStyle};

#[test]
fn reduced_motion_policy() {
    assert!(ReducedMotionConfig::Auto.reduces_motion(true));
    assert!(!ReducedMotionConfig::Auto.reduces_motion(false));
    assert!(ReducedMotionConfig::Always.reduces_motion(false));
    assert!(!ReducedMotionConfig::Never.reduces_motion(true));
    assert_eq!(ReducedMotionConfig::default(), ReducedMotionConfig::Auto);
}

#[test]
fn ownership_only_grows() {
    let seeded = MotionStyle::new().opacity(0.0).y(20.0);
    let mut owned = seeded.mask();
    owned = absorb_target(owned, &MotionStyle::new().x(4.0));
    owned = absorb_target(owned, &MotionStyle::<f64>::new());
    for prop in MotionProp::all() {
        assert_eq!(
            owns_prop(owned, prop),
            matches!(prop, MotionProp::Opacity | MotionProp::Y | MotionProp::X)
        );
    }
}

#[test]
fn active_mask_requires_ownership_and_animation() {
    let owned = prop_bit(MotionProp::Opacity) | prop_bit(MotionProp::X);
    let animating = vec![true, false, true, false, false, false, false];
    let active = active_mask(owned, &animating);
    assert_eq!(active, prop_bit(MotionProp::Opacity));
}

#[test]
fn retarget_policy() {
    assert_eq!(retarget_action(true, false, false), RetargetAction::Nothing);
    assert_eq!(retarget_action(true, false, true), RetargetAction::Nothing);
    assert_eq!(retarget_action(true, true, true), RetargetAction::Jump);
    assert_eq!(retarget_action(false, false, true), RetargetAction::Jump);
    assert_eq!(retarget_action(true, true, false), RetargetAction::Animate);
    assert_eq!(retarget_action(false, false, false), RetargetAction::Animate);
}

#[test]
fn motion_values_are_dense() {
    let values = MotionValues::new([10, 11, 12, 13, 14, 15, 16]);
    assert_eq!(values.get(MotionProp::Opacity), 10);
    assert_eq!(values.get(MotionProp::ScaleX), 14);
    assert_eq!(values.get(MotionProp::Rotate), 16);
}

#[test]
fn ownership_is_exactly_what_targets_named() {
    let mut owned: u16 = 0;
    owned = absorb_target(owned, &MotionStyle::new().opacity(0.0).y(20.0));
    owned = absorb_target(owned, &MotionStyle::new().x(4.0));
    owned = absorb_target(owned, &MotionStyle::<f64>::new());
    assert_eq!(
        owned,
        prop_bit(MotionProp::Opacity) | prop_bit(MotionProp::X) | prop_bit(MotionProp::Y)
    );
}

#[test]
fn masks_keep_spare_bits() {
    let spare: u16 = 0x8000;
    let owned = absorb_target(spare | prop_bit(MotionProp::Rotate), &MotionStyle::new().x(1.0));
    assert_eq!(owned, spare | prop_bit(MotionProp::Rotate) | prop_bit(MotionProp::X));
    let animating = vec![true; 7];
    assert_eq!(active_mask(0xffff, &animating), 127);
}
