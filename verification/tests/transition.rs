use slik::style::MotionProp;
use slik::transition::{
    prop_from_name, validate_spring, validate_tween, TransitionConfig, TransitionError,
    TransitionMap,
};

#[derive(Debug, Clone, PartialEq)]
enum Easing {
    EaseOut,
}

#[derive(Debug, Clone, PartialEq)]
enum Transition {
    Spring { stiffness: f64, damping: f64, mass: f64 },
    Tween { duration: f64, easing: Easing },
}

impl Transition {
    fn spring() -> Self {
        Transition::Spring {
            stiffness: 170.0,
            damping: 26.0,
            mass: 1.0,
        }
    }

    fn tween(duration: f64, easing: Easing) -> Self {
        Transition::Tween { duration, easing }
    }
}

impl Default for Transition {
    fn default() -> Self {
        Transition::spring()
    }
}

fn key(x: f64) -> i64 {
    let bits = x.to_bits() as i64;
    bits ^ ((((bits >> 63) as u64) >> 1) as i64)
}

#[test]
fn transition_map_uses_default_and_override() {
    let map = TransitionMap::new(Transition::spring())
        .with(MotionProp::Opacity, Transition::tween(0.2, Easing::EaseOut));

    match map.for_prop(MotionProp::Opacity) {
        Transition::Tween { duration, .. } => assert_eq!(duration, 0.2),
        _ => panic!("expected tween"),
    }

    match map.for_prop(MotionProp::X) {
        Transition::Spring { .. } => {}
        _ => panic!("expected spring"),
    }
}

#[test]
fn transition_map_resolves_override_and_default() {
    let map = TransitionMap::new(Transition::spring())
        .with(MotionProp::Opacity, Transition::tween(0.2, Easing::EaseOut));

    match map.for_prop(MotionProp::Opacity) {
        Transition::Tween { duration, .. } => assert_eq!(duration, 0.2),
        other => panic!("expected opacity tween, got {other:?}"),
    }

    match map.for_prop(MotionProp::Rotate) {
        Transition::Spring { .. } => {}
        other => panic!("expected default spring, got {other:?}"),
    }
}

#[test]
fn transition_map_later_override_wins_and_default_applies() {
    let map: TransitionMap<u32> = TransitionMap::new(1).with(MotionProp::X, 2).with(MotionProp::X, 3);
    assert_eq!(*map.resolve(MotionProp::X), 3);
    assert_eq!(*map.resolve(MotionProp::Y), 1);
    let defaulted: TransitionMap<Transition> = TransitionMap::default();
    assert_eq!(defaulted.for_prop(MotionProp::Scale), Transition::spring());
}

#[test]
fn prop_names_parse_with_aliases() {
    assert_eq!(prop_from_name("opacity"), Some(MotionProp::Opacity));
    assert_eq!(prop_from_name("x"), Some(MotionProp::X));
    assert_eq!(prop_from_name("y"), Some(MotionProp::Y));
    assert_eq!(prop_from_name("scale"), Some(MotionProp::Scale));
    assert_eq!(prop_from_name("scale_x"), Some(MotionProp::ScaleX));
    assert_eq!(prop_from_name("scaleX"), Some(MotionProp::ScaleX));
    assert_eq!(prop_from_name("scale_y"), Some(MotionProp::ScaleY));
    assert_eq!(prop_from_name("scaleY"), Some(MotionProp::ScaleY));
    assert_eq!(prop_from_name("rotate"), Some(MotionProp::Rotate));
    assert_eq!(prop_from_name("Rotate"), None);
    assert_eq!(prop_from_name(""), None);
    assert_eq!(prop_from_name("opacityy"), None);
}

#[test]
fn transition_config_overrides_by_name() {
    let config = TransitionConfig::new(Transition::spring())
        .with("opacity", Transition::tween(0.3, Easing::EaseOut))
        .with("scaleX", Transition::tween(0.5, Easing::EaseOut))
        .with("color", Transition::tween(9.0, Easing::EaseOut));

    assert_eq!(config.for_prop("opacity"), Transition::tween(0.3, Easing::EaseOut));
    assert_eq!(config.for_prop("scale_x"), Transition::tween(0.5, Easing::EaseOut));
    assert_eq!(config.scale_x, Some(Transition::tween(0.5, Easing::EaseOut)));
    assert_eq!(config.for_prop("x"), Transition::spring());
    assert_eq!(config.for_prop("color"), Transition::spring());
    assert_eq!(config.x, None);

    let defaulted: TransitionConfig<Transition> = TransitionConfig::default();
    assert_eq!(defaulted.default, Transition::spring());
    assert_eq!(defaulted.opacity, None);
}

#[test]
fn spring_validation_checks_each_parameter() {
    assert_eq!(validate_spring(key(170.0), key(26.0), key(1.0)), Ok(()));
    assert_eq!(validate_spring(key(0.0), key(-0.0), key(1e-300)), Ok(()));
    assert_eq!(
        validate_spring(key(-1.0), key(26.0), key(1.0)),
        Err(TransitionError::InvalidStiffness)
    );
    assert_eq!(
        validate_spring(key(f64::INFINITY), key(26.0), key(1.0)),
        Err(TransitionError::InvalidStiffness)
    );
    assert_eq!(
        validate_spring(key(170.0), key(f64::NAN), key(1.0)),
        Err(TransitionError::InvalidDamping)
    );
    assert_eq!(
        validate_spring(key(170.0), key(26.0), key(0.0)),
        Err(TransitionError::InvalidMass)
    );
    assert_eq!(
        validate_spring(key(170.0), key(26.0), key(-0.0)),
        Err(TransitionError::InvalidMass)
    );
    assert_eq!(
        validate_spring(key(-5.0), key(-5.0), key(-5.0)),
        Err(TransitionError::InvalidStiffness)
    );
    assert_eq!(
        TransitionError::InvalidMass.message(),
        "spring mass must be finite and positive"
    );
}

#[test]
fn tween_validation_requires_finite_non_negative_duration() {
    assert_eq!(validate_tween(key(0.35)), Ok(()));
    assert_eq!(validate_tween(key(0.0)), Ok(()));
    assert_eq!(validate_tween(key(-0.0)), Ok(()));
    assert_eq!(validate_tween(key(-0.1)), Err(TransitionError::InvalidDuration));
    assert_eq!(validate_tween(key(f64::NAN)), Err(TransitionError::InvalidDuration));
    assert_eq!(validate_tween(key(f64::INFINITY)), Err(TransitionError::InvalidDuration));
    assert_eq!(
        TransitionError::InvalidDuration.message(),
        "tween duration must be finite and non-negative"
    );
}
