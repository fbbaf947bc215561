use slik::props::AnimProps;
use slik::style::MotionProp;

#[test]
fn anim_props_builders_and_lookup() {
    let props = AnimProps::new().opacity(0.0).x(-20.0).scale(0.9);
    assert_eq!(props.value_for(MotionProp::Opacity), Some(0.0));
    assert_eq!(props.value_for(MotionProp::X), Some(-20.0));
    assert_eq!(props.value_for(MotionProp::Scale), Some(0.9));
    assert_eq!(props.value_for(MotionProp::Y), None);
    assert_eq!(props.rotate, None);
    assert_eq!(AnimProps::<f64>::default(), AnimProps::new());
}

#[test]
fn anim_props_merge_prefers_other() {
    let base = AnimProps::new().opacity(0.0).x(5.0).rotate(10.0);
    let over = AnimProps::new().x(7.0).scale_y(2.0);
    let merged = base.merge(&over);
    assert_eq!(merged, AnimProps::new().opacity(0.0).x(7.0).scale_y(2.0).rotate(10.0));
    assert_eq!(base.merge(&AnimProps::new()), base);
}

#[test]
fn anim_props_defined_props_in_order() {
    let props = AnimProps::new().rotate(1.0).y(2.0).scale_x(3.0).opacity(4.0);
    assert_eq!(
        props.defined_props(),
        vec![("opacity", 4.0), ("y", 2.0), ("scale_x", 3.0), ("rotate", 1.0)]
    );
    assert!(AnimProps::<f64>::new().defined_props().is_empty());
}
