//! The decisions a motion binding makes: whether motion is reduced, which
//! properties it owns, which of them are animating, and how an animated value
//! reacts to a new target.
use crate::style::{
    lemma_empty_mask, lemma_index_roundtrip, lemma_union_owns, owns, prop_at, prop_bit,
    prop_index, spare_bits, MotionProp, MotionStyle, PROP_COUNT,
};
use vstd::prelude::*;

verus! {

/// Controls how a binding responds to reduced-motion preferences.
#[derive(Debug, Clone, Copy, PartialEq, Eq, Structural)]
pub enum ReducedMotionConfig {
    /// Respect the system's `prefers-reduced-motion` preference.
    Auto,
    /// Always disable animation and snap directly to the latest target.
    Always,
    /// Always animate, ignoring the system preference.
    Never,
}

impl Default for ReducedMotionConfig {
    /// [`ReducedMotionConfig::Auto`].
    fn default() -> (config: Self)
        ensures
            config == ReducedMotionConfig::Auto,
    {
        ReducedMotionConfig::Auto
    }
}

/// Whether motion is reduced under `config` when the system preference is
/// `system_prefers_reduced`.
pub open spec fn motion_reduced(config: ReducedMotionConfig, system_prefers_reduced: bool) -> bool {
    match config {
        ReducedMotionConfig::Auto => system_prefers_reduced,
        ReducedMotionConfig::Always => true,
        ReducedMotionConfig::Never => false,
    }
}

/// The reduced-motion policy: `Never` never reduces motion and `Always`
/// always does, whatever the system preference; only `Auto` depends on it,
/// reducing motion exactly when the system asks for it.
pub proof fn lemma_reduced_motion_policy(config: ReducedMotionConfig, system_prefers_reduced: bool)
    ensures
        !motion_reduced(ReducedMotionConfig::Never, system_prefers_reduced),
        motion_reduced(ReducedMotionConfig::Always, system_prefers_reduced),
        motion_reduced(ReducedMotionConfig::Auto, system_prefers_reduced) == system_prefers_reduced,
        config != ReducedMotionConfig::Auto ==> motion_reduced(config, true) == motion_reduced(
            config,
            false,
        ),
{
}

impl ReducedMotionConfig {
    /// Whether motion is reduced: `Auto` follows the system preference,
    /// `Always` reduces, `Never` does not.
    pub fn reduces_motion(self, system_prefers_reduced: bool) -> (reduced: bool)
        ensures
            reduced == motion_reduced(self, system_prefers_reduced),
            self == ReducedMotionConfig::Never ==> !reduced,
            self == ReducedMotionConfig::Always ==> reduced,
            self == ReducedMotionConfig::Auto ==> reduced == system_prefers_reduced,
    {
        proof {
            lemma_reduced_motion_policy(self, system_prefers_reduced);
        }
        match self {
            ReducedMotionConfig::Auto => system_prefers_reduced,
            ReducedMotionConfig::Always => true,
            ReducedMotionConfig::Never => false,
        }
    }
}

/// The ownership mask after a binding has seen the target `target`: every
/// property owned before stays owned, and every property present in the
/// target becomes owned.
pub fn absorb_target<V>(owned_mask: u16, target: &MotionStyle<V>) -> (mask: u16)
    ensures
        forall|p: MotionProp|
            #![trigger owns(mask, p)]
            owns(mask, p) <==> owns(owned_mask, p) || target.entry(p) is Some,
        spare_bits(mask) == spare_bits(owned_mask),
{
    let present = target.mask();
    assert(spare_bits(owned_mask | present) == spare_bits(owned_mask)) by (bit_vector)
        requires
            present >> 7u16 == 0u16,
    ;
    proof {
        assert forall|p: MotionProp|
            #![trigger owns(owned_mask | present, p)]
            owns(owned_mask | present, p) <==> owns(owned_mask, p) || target.entry(p) is Some by {
            lemma_union_owns(owned_mask, present, p);
        }
    }
    owned_mask | present
}

/// The mask of properties that are owned and currently animating;
/// `animating[i]` tells whether the value at storage position `i` animates.
pub fn active_mask(owned_mask: u16, animating: &Vec<bool>) -> (mask: u16)
    requires
        animating.len() == PROP_COUNT,
    ensures
        forall|p: MotionProp|
            #![trigger owns(mask, p)]
            owns(mask, p) <==> owns(owned_mask, p) && animating@[prop_index(p)],
        spare_bits(mask) == 0,
{
    let props = MotionProp::all();
    let mut mask: u16 = 0;
    let mut i: usize = 0;
    proof {
        assert forall|p: MotionProp| owns(mask, p) <==> false by {
            lemma_empty_mask(p);
        }
        assert(0u16 >> 7u16 == 0u16) by (bit_vector);
    }
    while i < PROP_COUNT
        invariant
            animating.len() == PROP_COUNT,
            props.len() == PROP_COUNT,
            forall|j: int| 0 <= j < PROP_COUNT ==> prop_at(j) == Some(#[trigger] props@[j]),
            0 <= i <= PROP_COUNT,
            forall|p: MotionProp|
                #![trigger owns(mask, p)]
                owns(mask, p) <==> (prop_index(p) < i && owns(owned_mask, p) && animating@[prop_index(p)]),
            spare_bits(mask) == 0,
        decreases PROP_COUNT - i,
    {
        let prop = props[i];
        proof {
            lemma_index_roundtrip(prop, i as int);
        }
        if crate::style::owns_prop(owned_mask, prop) && animating[i] {
            let bit = prop_bit(prop);
            proof {
                assert forall|p: MotionProp|
                    #![trigger owns(mask | bit, p)]
                    owns(mask | bit, p) <==> (prop_index(p) < i + 1 && owns(owned_mask, p)
                        && animating@[prop_index(p)]) by {
                    lemma_union_owns(mask, bit, p);
                    lemma_index_roundtrip(p, i as int);
                }
                assert(spare_bits(mask | bit) == 0) by (bit_vector)
                    requires
                        mask >> 7u16 == 0u16,
                        bit >> 7u16 == 0u16,
                ;
            }
            mask = mask | bit;
        } else {
            proof {
                assert forall|p: MotionProp|
                    #![trigger owns(mask, p)]
                    owns(mask, p) <==> (prop_index(p) < i + 1 && owns(owned_mask, p)
                        && animating@[prop_index(p)]) by {
                    lemma_index_roundtrip(p, i as int);
                }
            }
        }
        i = i + 1;
    }
    mask
}

/// Ownership over a run of targets, where each mask is the previous one after
/// [`absorb_target`] of the next target: a property is owned at a step exactly
/// when it was owned at an earlier step or was present in a target seen since.
/// So ownership is never given back, and a property present in a target is
/// owned from that step on.
pub proof fn lemma_ownership_is_kept<V>(
    masks: Seq<u16>,
    targets: Seq<MotionStyle<V>>,
    k: int,
    l: int,
    p: MotionProp,
)
    requires
        masks.len() == targets.len() + 1,
        forall|i: int, q: MotionProp|
            #![trigger owns(masks[i + 1], q)]
            0 <= i < targets.len() ==> (owns(masks[i + 1], q) <==> owns(masks[i], q)
                || targets[i].entry(q) is Some),
        0 <= k <= l < masks.len(),
    ensures
        owns(masks[k], p) ==> owns(masks[l], p),
        k < targets.len() && targets[k].entry(p) is Some ==> (k + 1 <= l ==> owns(masks[l], p)),
        owns(masks[l], p) <==> owns(masks[k], p) || exists|i: int|
            k <= i < l && (#[trigger] targets[i]).entry(p) is Some,
    decreases l - k,
{
    if k < l {
        assert(owns(masks[k + 1], p) <==> owns(masks[k], p) || targets[k].entry(p) is Some);
        lemma_ownership_is_kept(masks, targets, k + 1, l, p);
        if targets[k].entry(p) is Some {
            assert(k <= k < l && targets[k].entry(p) is Some);
        }
        if exists|i: int| k + 1 <= i < l && (#[trigger] targets[i]).entry(p) is Some {
            let i = choose|i: int| k + 1 <= i < l && (#[trigger] targets[i]).entry(p) is Some;
            assert(k <= i < l && targets[i].entry(p) is Some);
        }
        if exists|i: int| k <= i < l && (#[trigger] targets[i]).entry(p) is Some {
            let i = choose|i: int| k <= i < l && (#[trigger] targets[i]).entry(p) is Some;
            if i > k {
                assert(k + 1 <= i < l && targets[i].entry(p) is Some);
            }
        }
    }
}

/// From a binding's first mask, the empty one, the properties owned after
/// the first `l` targets are exactly those present in one of them.
pub proof fn lemma_owned_exactly_seen<V>(
    masks: Seq<u16>,
    targets: Seq<MotionStyle<V>>,
    l: int,
    p: MotionProp,
)
    requires
        masks.len() == targets.len() + 1,
        masks[0] == 0u16,
        forall|i: int, q: MotionProp|
            #![trigger owns(masks[i + 1], q)]
            0 <= i < targets.len() ==> (owns(masks[i + 1], q) <==> owns(masks[i], q)
                || targets[i].entry(q) is Some),
        0 <= l < masks.len(),
    ensures
        owns(masks[l], p) <==> exists|i: int| 0 <= i < l && (#[trigger] targets[i]).entry(p) is Some,
{
    lemma_ownership_is_kept(masks, targets, 0, l, p);
    lemma_empty_mask(p);
}

/// What an animated value does when it is given a target.
#[derive(Debug, Clone, Copy, PartialEq, Eq, Structural)]
pub enum RetargetAction {
    /// Nothing: the value already rests at the target.
    Nothing,
    /// Snap to the target, clearing any animation in flight.
    Jump,
    /// Start or retarget an animation from the current value.
    Animate,
}

/// The action for a new target: nothing exactly when the value already rests
/// at the target (equal to it and not animating); otherwise a snap when the
/// update is immediate, else an animation.
pub open spec fn retarget(at_target: bool, animating: bool, immediate: bool) -> RetargetAction {
    if at_target && !animating {
        RetargetAction::Nothing
    } else if immediate {
        RetargetAction::Jump
    } else {
        RetargetAction::Animate
    }
}

/// The retarget policy: a value resting at its target (equal to it, no
/// animation in flight) does nothing; otherwise an immediate update snaps,
/// and only an immediate one, and any other update animates from the current
/// value, retargeting an animation in flight.
pub proof fn lemma_retarget_policy(at_target: bool, animating: bool, immediate: bool)
    ensures
        retarget(at_target, animating, immediate) == RetargetAction::Nothing <==> at_target
            && !animating,
        retarget(at_target, animating, immediate) == RetargetAction::Jump <==> immediate && !(
        at_target && !animating),
        retarget(at_target, animating, immediate) == RetargetAction::Animate <==> !immediate && !(
        at_target && !animating),
{
}

/// Decides how an animated value reacts to a new target. `at_target` tells
/// whether its current value equals the target, `animating` whether an
/// animation is in flight, `immediate` whether the update must not animate.
pub fn retarget_action(at_target: bool, animating: bool, immediate: bool) -> (action: RetargetAction)
    ensures
        action == retarget(at_target, animating, immediate),
        action == RetargetAction::Nothing <==> at_target && !animating,
        action == RetargetAction::Jump <==> immediate && !(at_target && !animating),
        action == RetargetAction::Animate <==> !immediate && !(at_target && !animating),
{
    proof {
        lemma_retarget_policy(at_target, animating, immediate);
    }
    if immediate {
        if !at_target || animating {
            return RetargetAction::Jump;
        }
        return RetargetAction::Nothing;
    }
    if at_target && !animating {
        return RetargetAction::Nothing;
    }
    RetargetAction::Animate
}

/// Dense per-property storage of the values of type `T` a binding created,
/// one per property whether or not the property is owned.
#[derive(Debug, Clone, Copy)]
pub struct MotionValues<T> {
    values: [T; 7],
}

impl<T: Copy> MotionValues<T> {
    /// The value for `p`.
    pub closed spec fn value_of(&self, p: MotionProp) -> T {
        self.values@[prop_index(p)]
    }

    /// Wraps values given in dense-storage order.
    pub fn new(values: [T; 7]) -> (all: Self)
        ensures
            forall|i: int| 0 <= i < PROP_COUNT ==> all.value_of(prop_at(i).unwrap()) == values@[i],
    {
        MotionValues { values }
    }

    /// Returns the value for a specific property slot.
    pub fn get(&self, prop: MotionProp) -> (value: T)
        ensures
            value == self.value_of(prop),
    {
        self.values[prop.index()]
    }
}

} // verus!
