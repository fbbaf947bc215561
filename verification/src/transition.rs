//! Per-property transition resolution: a default transition plus optional
//! overrides, keyed by [`MotionProp`] or by property name.
use crate::keyframe::{duration_key_valid, INFINITY_KEY};
use crate::style::{MotionProp, MotionStyle};
use vstd::prelude::*;
use vstd::string::StrSliceExecFns;

verus! {

/// Why a spring or tween transition was rejected.
#[derive(Debug, Clone, Copy, PartialEq, Eq, Structural)]
pub enum TransitionError {
    /// The spring stiffness is not a finite, non-negative number.
    InvalidStiffness,
    /// The spring damping is not a finite, non-negative number.
    InvalidDamping,
    /// The spring mass is not a finite, positive number.
    InvalidMass,
    /// The tween duration is not a finite, non-negative number.
    InvalidDuration,
}

impl TransitionError {
    /// The human-readable description of this error.
    pub fn message(&self) -> (text: &'static str)
        ensures
            *self == TransitionError::InvalidStiffness ==> text@
                == "spring stiffness must be finite and non-negative"@,
            *self == TransitionError::InvalidDamping ==> text@
                == "spring damping must be finite and non-negative"@,
            *self == TransitionError::InvalidMass ==> text@
                == "spring mass must be finite and positive"@,
            *self == TransitionError::InvalidDuration ==> text@
                == "tween duration must be finite and non-negative"@,
    {
        match self {
            TransitionError::InvalidStiffness => "spring stiffness must be finite and non-negative",
            TransitionError::InvalidDamping => "spring damping must be finite and non-negative",
            TransitionError::InvalidMass => "spring mass must be finite and positive",
            TransitionError::InvalidDuration => "tween duration must be finite and non-negative",
        }
    }
}

/// The key (see [`crate::keyframe`]) is that of a finite float greater than
/// `0.0`.
pub open spec fn key_positive_finite(k: i64) -> bool {
    1 <= k < INFINITY_KEY
}

/// The error with which spring parameters, given by their total-order keys,
/// are rejected: stiffness, then damping, then mass.
pub open spec fn spring_error(stiffness: i64, damping: i64, mass: i64) -> Option<TransitionError> {
    if !duration_key_valid(stiffness) {
        Some(TransitionError::InvalidStiffness)
    } else if !duration_key_valid(damping) {
        Some(TransitionError::InvalidDamping)
    } else if !key_positive_finite(mass) {
        Some(TransitionError::InvalidMass)
    } else {
        None
    }
}

/// Validates spring parameters given by their total-order keys (see
/// [`crate::keyframe`]): stiffness and damping must be finite and
/// non-negative, mass finite and positive; they are checked in that order.
pub fn validate_spring(stiffness: i64, damping: i64, mass: i64) -> (result: Result<(), TransitionError>)
    ensures
        result is Ok <==> spring_error(stiffness, damping, mass) is None,
        result matches Err(e) ==> spring_error(stiffness, damping, mass) == Some(e),
        result == Err::<(), TransitionError>(TransitionError::InvalidStiffness) <==> !(-1 <= stiffness
            < INFINITY_KEY),
        result == Err::<(), TransitionError>(TransitionError::InvalidDamping) <==> (-1 <= stiffness
            < INFINITY_KEY && !(-1 <= damping < INFINITY_KEY)),
        result == Err::<(), TransitionError>(TransitionError::InvalidMass) <==> (-1 <= stiffness
            < INFINITY_KEY && -1 <= damping < INFINITY_KEY && !(1 <= mass < INFINITY_KEY)),
        result is Ok <==> (-1 <= stiffness < INFINITY_KEY && -1 <= damping < INFINITY_KEY && 1 <= mass
            < INFINITY_KEY),
{
    if !(-1 <= stiffness && stiffness < INFINITY_KEY) {
        return Err(TransitionError::InvalidStiffness);
    }
    if !(-1 <= damping && damping < INFINITY_KEY) {
        return Err(TransitionError::InvalidDamping);
    }
    if !(1 <= mass && mass < INFINITY_KEY) {
        return Err(TransitionError::InvalidMass);
    }
    Ok(())
}

/// Validates a tween duration given by its total-order key: it must be finite
/// and non-negative.
pub fn validate_tween(duration: i64) -> (result: Result<(), TransitionError>)
    ensures
        result is Ok <==> duration_key_valid(duration),
        result is Err ==> result == Err::<(), TransitionError>(TransitionError::InvalidDuration),
        result is Ok <==> -1 <= duration < INFINITY_KEY,
{
    if -1 <= duration && duration < INFINITY_KEY {
        Ok(())
    } else {
        Err(TransitionError::InvalidDuration)
    }
}

/// Default and per-property transitions over transitions of type `T`.
#[derive(Debug, Clone)]
pub struct TransitionMap<T> {
    default: T,
    per_prop: MotionStyle<T>,
}

impl<T> TransitionMap<T> {
    /// The transition used for properties without an override.
    pub closed spec fn fallback(&self) -> T {
        self.default
    }

    /// The override for `p`, if any.
    pub closed spec fn override_for(&self, p: MotionProp) -> Option<T> {
        self.per_prop.entry(p)
    }

    /// The transition that applies to `p`: its override, else the fallback.
    pub open spec fn resolved(&self, p: MotionProp) -> T {
        match self.override_for(p) {
            Some(t) => t,
            None => self.fallback(),
        }
    }

    /// A map that uses `default` for every property.
    pub fn new(default: T) -> (map: Self)
        ensures
            map.fallback() == default,
            forall|p: MotionProp| (#[trigger] map.override_for(p)) is None,
    {
        TransitionMap { default, per_prop: MotionStyle::new() }
    }

    /// Overrides the transition of `prop`.
    pub fn with(self, prop: MotionProp, transition: T) -> (map: Self)
        ensures
            map.fallback() == self.fallback(),
            forall|q: MotionProp|
                (#[trigger] map.override_for(q)) == if q == prop {
                    Some(transition)
                } else {
                    self.override_for(q)
                },
    {
        TransitionMap { default: self.default, per_prop: self.per_prop.set(prop, transition) }
    }

    /// A reference to the transition that applies to `prop`.
    pub fn resolve(&self, prop: MotionProp) -> (transition: &T)
        ensures
            *transition == self.resolved(prop),
            self.override_for(prop) matches Some(t) ==> *transition == t,
            self.override_for(prop) is None ==> *transition == self.fallback(),
    {
        match self.per_prop.get_ref(prop) {
            Some(t) => t,
            None => &self.default,
        }
    }
}

impl<T: Clone> TransitionMap<T> {
    /// A clone of the transition that applies to `prop`.
    pub fn for_prop(&self, prop: MotionProp) -> (transition: T)
        ensures
            cloned(self.resolved(prop), transition),
            self.override_for(prop) matches Some(t) ==> cloned(t, transition),
            self.override_for(prop) is None ==> cloned(self.fallback(), transition),
    {
        self.resolve(prop).clone()
    }
}

impl<T: Default> Default for TransitionMap<T> {
    /// A map whose fallback is `T::default()`, with no overrides.
    fn default() -> (map: Self)
        ensures
            call_ensures(T::default, (), map.fallback()),
            forall|p: MotionProp| (#[trigger] map.override_for(p)) is None,
    {
        TransitionMap::new(T::default())
    }
}


/// Compares two strings character by character.
fn same_text(a: &str, b: &str) -> (same: bool)
    ensures
        same == (a@ == b@),
{
    let n = a.unicode_len();
    if n != b.unicode_len() {
        return false;
    }
    let mut i: usize = 0;
    while i < n
        invariant
            n == a@.len(),
            n == b@.len(),
            0 <= i <= n,
            forall|j: int| 0 <= j < i ==> a@[j] == b@[j],
        decreases n - i,
    {
        if a.get_char(i) != b.get_char(i) {
            return false;
        }
        i = i + 1;
    }
    assert(a@ == b@);
    true
}

/// The property a name selects: `opacity`, `x`, `y`, `scale`,
/// `scale_x` or `scaleX`, `scale_y` or `scaleY`, `rotate`.
pub open spec fn prop_named(name: Seq<char>) -> Option<MotionProp> {
    if name == "opacity"@ {
        Some(MotionProp::Opacity)
    } else if name == "x"@ {
        Some(MotionProp::X)
    } else if name == "y"@ {
        Some(MotionProp::Y)
    } else if name == "scale"@ {
        Some(MotionProp::Scale)
    } else if name == "scale_x"@ || name == "scaleX"@ {
        Some(MotionProp::ScaleX)
    } else if name == "scale_y"@ || name == "scaleY"@ {
        Some(MotionProp::ScaleY)
    } else if name == "rotate"@ {
        Some(MotionProp::Rotate)
    } else {
        None
    }
}

/// Every property name listed by [`crate::props::AnimProps::defined_props`]
/// selects that property again.
pub proof fn lemma_listed_names_select(p: MotionProp)
    ensures
        prop_named(crate::props::listed_name(p)) == Some(p),
{
    reveal_strlit("opacity");
    reveal_strlit("x");
    reveal_strlit("y");
    reveal_strlit("scale");
    reveal_strlit("scale_x");
    reveal_strlit("scaleX");
    reveal_strlit("scale_y");
    reveal_strlit("scaleY");
    reveal_strlit("rotate");
    assert("opacity"@.len() == 7);
    assert("x"@.len() == 1);
    assert("y"@.len() == 1);
    assert("scale"@.len() == 5);
    assert("scale_x"@.len() == 7);
    assert("scaleX"@.len() == 6);
    assert("scale_y"@.len() == 7);
    assert("scaleY"@.len() == 6);
    assert("rotate"@.len() == 6);
    assert("x"@[0] == 'x' && "y"@[0] == 'y');
    assert("opacity"@[0] == 'o' && "scale_x"@[0] == 's' && "scale_y"@[0] == 's');
    assert("scale_x"@[6] == 'x' && "scale_y"@[6] == 'y');
    assert("rotate"@[0] == 'r' && "scaleX"@[0] == 's' && "scaleY"@[0] == 's');
    assert("x"@ != "opacity"@);
    assert("y"@ != "opacity"@);
    assert("y"@ != "x"@);
    assert("scale"@ != "opacity"@);
    assert("scale_x"@ != "opacity"@);
    assert("scale_x"@ != "scale"@);
    assert("scale_y"@ != "opacity"@);
    assert("scale_y"@ != "scale"@);
    assert("scale_y"@ != "scale_x"@);
    assert("scale_y"@ != "scaleX"@);
    assert("rotate"@ != "opacity"@);
    assert("rotate"@ != "scale_x"@);
    assert("rotate"@ != "scale_y"@);
    assert("rotate"@ != "scale"@);
    assert("rotate"@ != "scaleX"@);
    assert("rotate"@ != "scaleY"@);
}

/// The names a property is selected by: its listed name, and for the axis
/// scales also `scaleX` and `scaleY`; no other name selects anything.
pub proof fn lemma_prop_names(name: Seq<char>, p: MotionProp)
    ensures
        prop_named("scaleX"@) == Some(MotionProp::ScaleX),
        prop_named("scaleY"@) == Some(MotionProp::ScaleY),
        prop_named(crate::props::listed_name(p)) == Some(p),
        prop_named(name) == Some(p) ==> name == crate::props::listed_name(p) || (p
            == MotionProp::ScaleX && name == "scaleX"@) || (p == MotionProp::ScaleY && name
            == "scaleY"@),
{
    lemma_listed_names_select(p);
    reveal_strlit("opacity");
    reveal_strlit("x");
    reveal_strlit("y");
    reveal_strlit("scale");
    reveal_strlit("scale_x");
    reveal_strlit("scaleX");
    reveal_strlit("scaleY");
    assert("opacity"@.len() == 7 && "x"@.len() == 1 && "y"@.len() == 1 && "scale"@.len() == 5);
    assert("scaleX"@.len() == 6 && "scaleY"@.len() == 6 && "scale_x"@.len() == 7);
    assert("scaleX"@ != "opacity"@ && "scaleX"@ != "x"@ && "scaleX"@ != "y"@ && "scaleX"@ != "scale"@);
    assert("scaleY"@ != "opacity"@ && "scaleY"@ != "x"@ && "scaleY"@ != "y"@ && "scaleY"@ != "scale"@);
    assert("scaleY"@ != "scale_x"@);
    assert("scaleY"@[5] == 'Y' && "scaleX"@[5] == 'X');
    assert("scaleY"@ != "scaleX"@);
}

/// Parses a property name: `opacity`, `x`, `y`, `scale`, `scale_x` or
/// `scaleX`, `scale_y` or `scaleY`, `rotate`. Any other name selects nothing.
pub fn prop_from_name(name: &str) -> (prop: Option<MotionProp>)
    ensures
        prop == prop_named(name@),
        prop matches Some(p) ==> name@ == crate::props::listed_name(p) || (p == MotionProp::ScaleX
            && name@ == "scaleX"@) || (p == MotionProp::ScaleY && name@ == "scaleY"@),
        name@ == "scaleX"@ ==> prop == Some(MotionProp::ScaleX),
        name@ == "scaleY"@ ==> prop == Some(MotionProp::ScaleY),
        forall|p: MotionProp| name@ == crate::props::listed_name(p) ==> prop == Some(p),
{
    proof {
        match prop_named(name@) {
            Some(p) => lemma_prop_names(name@, p),
            None => {},
        }
        lemma_prop_names(name@, MotionProp::Opacity);
        assert forall|p: MotionProp| name@ == crate::props::listed_name(p) implies prop_named(name@) == Some(p) by {
            lemma_listed_names_select(p);
        }
    }
    if same_text(name, "opacity") {
        Some(MotionProp::Opacity)
    } else if same_text(name, "x") {
        Some(MotionProp::X)
    } else if same_text(name, "y") {
        Some(MotionProp::Y)
    } else if same_text(name, "scale") {
        Some(MotionProp::Scale)
    } else if same_text(name, "scale_x") || same_text(name, "scaleX") {
        Some(MotionProp::ScaleX)
    } else if same_text(name, "scale_y") || same_text(name, "scaleY") {
        Some(MotionProp::ScaleY)
    } else if same_text(name, "rotate") {
        Some(MotionProp::Rotate)
    } else {
        None
    }
}

/// A default transition with optional overrides for named properties.
///
/// Property names are those of [`prop_from_name`]; overrides and lookups for
/// any other name fall through to `default`.
#[derive(Debug, Clone)]
pub struct TransitionConfig<T> {
    /// Fallback used for any property without an explicit override.
    pub default: T,
    /// Override for `opacity`.
    pub opacity: Option<T>,
    /// Override for `x`.
    pub x: Option<T>,
    /// Override for `y`.
    pub y: Option<T>,
    /// Override for `scale`.
    pub scale: Option<T>,
    /// Override for `scale_x`.
    pub scale_x: Option<T>,
    /// Override for `scale_y`.
    pub scale_y: Option<T>,
    /// Override for `rotate`.
    pub rotate: Option<T>,
}

impl<T> TransitionConfig<T> {
    /// The override stored for `p`.
    pub open spec fn slot(&self, p: MotionProp) -> Option<T> {
        match p {
            MotionProp::Opacity => self.opacity,
            MotionProp::X => self.x,
            MotionProp::Y => self.y,
            MotionProp::Scale => self.scale,
            MotionProp::ScaleX => self.scale_x,
            MotionProp::ScaleY => self.scale_y,
            MotionProp::Rotate => self.rotate,
        }
    }

    /// The transition that applies to the property called `name`.
    pub open spec fn resolved_named(&self, name: Seq<char>) -> T {
        match prop_named(name) {
            Some(p) => match self.slot(p) {
                Some(t) => t,
                None => self.default,
            },
            None => self.default,
        }
    }

    /// A config that uses `default` for every property.
    pub fn new(default: T) -> (config: Self)
        ensures
            config.default == default,
            forall|p: MotionProp| (#[trigger] config.slot(p)) is None,
    {
        TransitionConfig {
            default,
            opacity: None,
            x: None,
            y: None,
            scale: None,
            scale_x: None,
            scale_y: None,
            rotate: None,
        }
    }

    /// Sets an override for the property called `prop`; an unknown name
    /// leaves the config unchanged.
    pub fn with(self, prop: &str, transition: T) -> (config: Self)
        ensures
            config.default == self.default,
            forall|q: MotionProp|
                (#[trigger] config.slot(q)) == if prop_named(prop@) == Some(q) {
                    Some(transition)
                } else {
                    self.slot(q)
                },
    {
        let mut config = self;
        match prop_from_name(prop) {
            Some(MotionProp::Opacity) => config.opacity = Some(transition),
            Some(MotionProp::X) => config.x = Some(transition),
            Some(MotionProp::Y) => config.y = Some(transition),
            Some(MotionProp::Scale) => config.scale = Some(transition),
            Some(MotionProp::ScaleX) => config.scale_x = Some(transition),
            Some(MotionProp::ScaleY) => config.scale_y = Some(transition),
            Some(MotionProp::Rotate) => config.rotate = Some(transition),
            None => {},
        }
        config
    }

    /// A reference to the transition that applies to the property called
    /// `prop`.
    pub fn resolve(&self, prop: &str) -> (transition: &T)
        ensures
            *transition == self.resolved_named(prop@),
            prop_named(prop@) matches Some(p) ==> match self.slot(p) {
                Some(t) => *transition == t,
                None => *transition == self.default,
            },
            prop_named(prop@) is None ==> *transition == self.default,
    {
        let slot = match prop_from_name(prop) {
            Some(MotionProp::Opacity) => &self.opacity,
            Some(MotionProp::X) => &self.x,
            Some(MotionProp::Y) => &self.y,
            Some(MotionProp::Scale) => &self.scale,
            Some(MotionProp::ScaleX) => &self.scale_x,
            Some(MotionProp::ScaleY) => &self.scale_y,
            Some(MotionProp::Rotate) => &self.rotate,
            None => {
                return &self.default;
            },
        };
        match slot {
            Some(t) => t,
            None => &self.default,
        }
    }
}

impl<T: Clone> TransitionConfig<T> {
    /// A clone of the transition that applies to the property called `prop`.
    pub fn for_prop(&self, prop: &str) -> (transition: T)
        ensures
            cloned(self.resolved_named(prop@), transition),
            prop_named(prop@) matches Some(p) ==> match self.slot(p) {
                Some(t) => cloned(t, transition),
                None => cloned(self.default, transition),
            },
            prop_named(prop@) is None ==> cloned(self.default, transition),
    {
        self.resolve(prop).clone()
    }
}

impl<T: Default> Default for TransitionConfig<T> {
    /// A config whose fallback is `T::default()`, with no overrides.
    fn default() -> (config: Self)
        ensures
            call_ensures(T::default, (), config.default),
            forall|p: MotionProp| (#[trigger] config.slot(p)) is None,
    {
        TransitionConfig::new(T::default())
    }
}

} // verus!
