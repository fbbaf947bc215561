use slik::keyframe::{
    stable_offset_order, validate_keyframes, KeyframeError, KeyframeKey, KeyframeValueKey,
    INFINITY_KEY, NEG_INFINITY_KEY, ONE_KEY,
};

fn key(x: f64) -> i64 {
    let bits = x.to_bits() as i64;
    bits ^ ((((bits >> 63) as u64) >> 1) as i64)
}

fn current(offset: f64) -> KeyframeKey {
    KeyframeKey {
        offset: key(offset),
        value: KeyframeValueKey::Current,
    }
}

fn target(offset: f64) -> KeyframeKey {
    KeyframeKey {
        offset: key(offset),
        value: KeyframeValueKey::Target,
    }
}

fn absolute(offset: f64, value: f64) -> KeyframeKey {
    KeyframeKey {
        offset: key(offset),
        value: KeyframeValueKey::Absolute(key(value)),
    }
}

#[test]
fn keyframes_require_target_at_end() {
    let err = validate_keyframes(&vec![current(0.0), absolute(1.0, 1.0)], key(0.2)).unwrap_err();
    assert_eq!(err, KeyframeError::FinalKeyframeMustTarget);
}

#[test]
fn keys_of_landmark_floats() {
    assert_eq!(key(0.0), 0);
    assert_eq!(key(-0.0), -1);
    assert_eq!(key(1.0), ONE_KEY);
    assert_eq!(key(f64::INFINITY), INFINITY_KEY);
    assert_eq!(key(f64::NEG_INFINITY), NEG_INFINITY_KEY);
}

#[test]
fn valid_keyframes_come_back_sorted() {
    let keyframes = vec![target(1.0), absolute(0.35, 1.24), current(0.0), absolute(0.7, 1.06)];
    let order = validate_keyframes(&keyframes, key(0.55)).unwrap();
    assert_eq!(order, vec![2, 1, 3, 0]);
}

#[test]
fn stable_order_keeps_equal_offsets_in_place() {
    let keyframes = vec![
        absolute(0.5, 3.0),
        current(0.0),
        absolute(0.5, 2.0),
        target(1.0),
        absolute(0.5, 1.0),
    ];
    assert_eq!(stable_offset_order(&keyframes), vec![1, 0, 2, 4, 3]);
    assert_eq!(stable_offset_order(&vec![]), Vec::<usize>::new());
}

#[test]
fn keyframe_error_for_each_rule() {
    assert_eq!(validate_keyframes(&vec![], key(1.0)), Err(KeyframeError::Empty));
    assert_eq!(
        validate_keyframes(&vec![target(1.0)], key(1.0)),
        Err(KeyframeError::NeedsAtLeastTwo)
    );
    assert_eq!(
        validate_keyframes(&vec![current(0.0), target(1.0)], key(-1.0)),
        Err(KeyframeError::DurationMustBeFinite)
    );
    assert_eq!(
        validate_keyframes(&vec![current(0.0), target(1.0)], key(f64::NAN)),
        Err(KeyframeError::DurationMustBeFinite)
    );
    assert_eq!(
        validate_keyframes(&vec![current(0.1), target(1.0)], key(1.0)),
        Err(KeyframeError::OffsetsMustStartAtZero)
    );
    assert_eq!(
        validate_keyframes(&vec![current(0.0), target(0.9)], key(1.0)),
        Err(KeyframeError::OffsetsMustEndAtOne)
    );
    assert_eq!(
        validate_keyframes(&vec![current(0.0), target(1.0), absolute(1.2, 5.0)], key(1.0)),
        Err(KeyframeError::OffsetsMustEndAtOne)
    );
    assert_eq!(
        validate_keyframes(&vec![current(0.0), absolute(0.5, 1.0), absolute(0.5, 2.0), target(1.0)], key(1.0)),
        Err(KeyframeError::OffsetsMustIncrease)
    );
    assert_eq!(
        validate_keyframes(&vec![current(-0.0), absolute(0.0, 1.0), target(1.0)], key(1.0)),
        Err(KeyframeError::OffsetsMustIncrease)
    );
    assert_eq!(
        validate_keyframes(&vec![current(0.0), absolute(0.5, f64::INFINITY), target(1.0)], key(1.0)),
        Err(KeyframeError::AbsoluteValueNotFinite)
    );
    assert_eq!(
        validate_keyframes(
            &vec![current(0.0), absolute(0.25, f64::NAN), absolute(0.5, 1.0), absolute(0.5, 2.0), target(1.0)],
            key(1.0)
        ),
        Err(KeyframeError::AbsoluteValueNotFinite)
    );
    assert_eq!(
        validate_keyframes(&vec![current(0.0), absolute(1.0, 1.0), target(1.0)], key(0.0)),
        Err(KeyframeError::OffsetsMustIncrease)
    );
    assert_eq!(
        validate_keyframes(&vec![current(f64::NAN), target(1.0)], key(1.0)),
        Err(KeyframeError::OffsetsMustStartAtZero)
    );
    assert_eq!(
        validate_keyframes(&vec![current(-0.0), target(1.0)], key(-0.0)),
        Ok(vec![0, 1])
    );
}

#[test]
fn keyframe_error_messages() {
    assert_eq!(KeyframeError::Empty.message(), "keyframes cannot be empty");
    assert_eq!(
        KeyframeError::FinalKeyframeMustTarget.message(),
        "the final keyframe must use KeyframeValue::Target"
    );
    assert_eq!(
        KeyframeError::OffsetsMustIncrease.message(),
        "keyframe offsets must be strictly increasing"
    );
    assert_eq!(
        KeyframeError::DurationMustBeFinite.message(),
        "keyframe duration must be finite and non-negative"
    );
}

#[test]
fn segment_lookup_finds_first_segment_ending_at_or_after_time() {
    let offsets = vec![key(0.0), key(0.5), key(1.0)];
    assert_eq!(slik::keyframe::segment_for(&offsets, key(0.0)), 0);
    assert_eq!(slik::keyframe::segment_for(&offsets, key(0.25)), 0);
    assert_eq!(slik::keyframe::segment_for(&offsets, key(0.5)), 0);
    assert_eq!(slik::keyframe::segment_for(&offsets, key(0.75)), 1);
    assert_eq!(slik::keyframe::segment_for(&offsets, key(1.0)), 1);
    assert_eq!(slik::keyframe::segment_for(&offsets, key(1.5)), 1);
    assert_eq!(slik::keyframe::segment_for(&offsets, key(f64::NAN)), 1);
    assert_eq!(slik::keyframe::segment_for(&vec![key(-0.0), key(1.0)], key(0.0)), 0);
    assert_eq!(slik::keyframe::segment_for(&vec![key(0.0)], key(0.5)), 0);
    assert_eq!(slik::keyframe::segment_for(&vec![], key(0.5)), 0);
}
