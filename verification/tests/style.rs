use slik::style::{
    compose_plan, owns_prop, prop_bit, transform_group_active, MotionProp, MotionStyle,
    TransformPart, Unit, WillChange, PROP_COUNT,
};

#[test]
fn style_builders_write_dense_storage() {
    let style = MotionStyle::new().opacity(0.5).x(12.0).rotate(45.0);
    assert_eq!(style.get(MotionProp::Opacity), Some(0.5));
    assert_eq!(style.get(MotionProp::X), Some(12.0));
    assert_eq!(style.get(MotionProp::Rotate), Some(45.0));
    assert!(!style.contains(MotionProp::Scale));
}

#[test]
fn mask_tracks_owned_props() {
    let style = MotionStyle::new().opacity(0.5).scale(1.2);
    let mask = style.mask();
    assert!(owns_prop(mask, MotionProp::Opacity));
    assert!(owns_prop(mask, MotionProp::Scale));
    assert!(!owns_prop(mask, MotionProp::Rotate));
}

#[test]
fn motion_style_builder_and_contains_work() {
    let style = MotionStyle::new().opacity(0.4).x(12.0).rotate(90.0);

    assert_eq!(style.get(MotionProp::Opacity), Some(0.4));
    assert_eq!(style.get(MotionProp::X), Some(12.0));
    assert_eq!(style.get(MotionProp::Rotate), Some(90.0));
    assert!(style.contains(MotionProp::Opacity));
    assert!(!style.contains(MotionProp::Scale));
}

#[test]
fn index_and_from_index_round_trip() {
    let all = MotionProp::all();
    assert_eq!(all.len(), PROP_COUNT);
    for (i, prop) in all.iter().enumerate() {
        assert_eq!(prop.index(), i);
        assert_eq!(MotionProp::from_index(i), Some(*prop));
    }
    assert_eq!(MotionProp::from_index(PROP_COUNT), None);
    assert_eq!(MotionProp::Rotate.index(), 6);
}

#[test]
fn css_names_and_units() {
    assert_eq!(MotionProp::Opacity.css_name(), "opacity");
    assert_eq!(MotionProp::X.css_name(), "translateX");
    assert_eq!(MotionProp::Y.css_name(), "translateY");
    assert_eq!(MotionProp::ScaleX.css_name(), "scaleX");
    assert_eq!(MotionProp::Rotate.css_name(), "rotate");
    assert_eq!(MotionProp::X.unit(), Unit::Px);
    assert_eq!(MotionProp::Rotate.unit(), Unit::Deg);
    assert_eq!(MotionProp::Scale.unit(), Unit::Plain);
    assert_eq!(Unit::Px.suffix(), "px");
    assert_eq!(Unit::Deg.suffix(), "deg");
    assert_eq!(Unit::Plain.suffix(), "");
}

#[test]
fn prop_bits_are_distinct_single_bits() {
    assert_eq!(prop_bit(MotionProp::Opacity), 1);
    assert_eq!(prop_bit(MotionProp::X), 2);
    assert_eq!(prop_bit(MotionProp::Rotate), 64);
    let mask = prop_bit(MotionProp::Y) | prop_bit(MotionProp::ScaleY);
    for prop in MotionProp::all() {
        assert_eq!(
            owns_prop(mask, prop),
            prop == MotionProp::Y || prop == MotionProp::ScaleY
        );
    }
    assert!(transform_group_active(mask));
    assert!(!transform_group_active(prop_bit(MotionProp::Opacity)));
    assert!(!transform_group_active(0));
}

#[test]
fn compose_plan_uses_fixed_transform_order() {
    let mask = prop_bit(MotionProp::Opacity)
        | prop_bit(MotionProp::X)
        | prop_bit(MotionProp::Y)
        | prop_bit(MotionProp::Scale)
        | prop_bit(MotionProp::ScaleX)
        | prop_bit(MotionProp::Rotate);

    let plan = compose_plan(mask, mask);

    assert!(plan.opacity);
    assert_eq!(
        plan.transform,
        vec![
            TransformPart::TranslateX,
            TransformPart::TranslateY,
            TransformPart::Scale {
                with_scale_x: true,
                with_scale_y: false
            },
            TransformPart::Rotate,
        ]
    );
    assert_eq!(plan.will_change, Some(WillChange::OpacityAndTransform));
    assert_eq!(WillChange::OpacityAndTransform.text(), "opacity, transform");
}

#[test]
fn compose_plan_only_marks_active_groups_for_will_change() {
    let owned = prop_bit(MotionProp::Opacity) | prop_bit(MotionProp::X);
    let active = prop_bit(MotionProp::X);

    let plan = compose_plan(owned, active);

    assert!(plan.opacity);
    assert_eq!(plan.transform, vec![TransformPart::TranslateX]);
    assert_eq!(plan.will_change, Some(WillChange::Transform));
    assert_eq!(plan.will_change.unwrap().text(), "transform");
}

#[test]
fn compose_plan_settled_binding_has_no_will_change() {
    let owned = prop_bit(MotionProp::Opacity) | prop_bit(MotionProp::ScaleY);
    let plan = compose_plan(owned, 0);
    assert_eq!(plan.will_change, None);
    assert_eq!(
        plan.transform,
        vec![TransformPart::Scale {
            with_scale_x: false,
            with_scale_y: true
        }]
    );

    let only_opacity = compose_plan(prop_bit(MotionProp::Opacity), prop_bit(MotionProp::Opacity));
    assert!(only_opacity.transform.is_empty());
    assert_eq!(only_opacity.will_change, Some(WillChange::Opacity));
    assert_eq!(WillChange::Opacity.text(), "opacity");

    let nothing = compose_plan(0, 0);
    assert!(!nothing.opacity);
    assert!(nothing.transform.is_empty());
}

#[test]
fn iter_present_lists_values_in_storage_order() {
    let style = MotionStyle::new().rotate(3.0).opacity(0.2).y(-4.0).set(MotionProp::Opacity, 0.7);
    assert_eq!(
        style.iter_present(),
        vec![
            (MotionProp::Opacity, 0.7),
            (MotionProp::Y, -4.0),
            (MotionProp::Rotate, 3.0)
        ]
    );
    assert_eq!(style.get_ref(MotionProp::Y), Some(&-4.0));
    assert_eq!(style.get_ref(MotionProp::X), None);
    let empty: MotionStyle<f64> = MotionStyle::default();
    assert!(empty.iter_present().is_empty());
    assert_eq!(empty.mask(), 0);
}

#[test]
fn style_mask_sets_only_property_bits() {
    let style = MotionStyle::new().opacity(0.5).scale(1.2);
    assert_eq!(style.mask(), 9);
    assert_eq!(MotionStyle::<f64>::new().mask(), 0);
    let full = MotionStyle::new()
        .opacity(1.0)
        .x(1.0)
        .y(1.0)
        .scale(1.0)
        .scale_x(1.0)
        .scale_y(1.0)
        .rotate(1.0);
    assert_eq!(full.mask(), 127);
}
