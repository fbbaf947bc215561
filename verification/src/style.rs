//! Motion properties, their metadata, ownership masks, and the plan by which
//! owned and animating properties become inline `opacity`, `transform` and
//! `will-change` styles.
use vstd::prelude::*;

verus! {

/// Supported motion properties, in dense-storage order.
#[derive(Debug, Clone, Copy, PartialEq, Eq, Hash, Structural)]
pub enum MotionProp {
    /// Maps to CSS `opacity`.
    Opacity,
    /// Maps to `translateX(...)`.
    X,
    /// Maps to `translateY(...)`.
    Y,
    /// Maps to uniform scale.
    Scale,
    /// Multiplies the x-axis scale.
    ScaleX,
    /// Multiplies the y-axis scale.
    ScaleY,
    /// Maps to `rotate(...)`.
    Rotate,
}

/// The CSS unit a property's value is written with.
#[derive(Debug, Clone, Copy, PartialEq, Eq, Structural)]
pub enum Unit {
    /// Unitless (opacity and the scales).
    Plain,
    /// Pixels (the translations).
    Px,
    /// Degrees (rotation).
    Deg,
}

/// Number of supported motion properties.
pub const PROP_COUNT: usize = 7;

/// The dense-storage position of a property.
pub open spec fn prop_index(p: MotionProp) -> int {
    match p {
        MotionProp::Opacity => 0,
        MotionProp::X => 1,
        MotionProp::Y => 2,
        MotionProp::Scale => 3,
        MotionProp::ScaleX => 4,
        MotionProp::ScaleY => 5,
        MotionProp::Rotate => 6,
    }
}

/// The property stored at a dense-storage position, if any.
pub open spec fn prop_at(i: int) -> Option<MotionProp> {
    if i == 0 {
        Some(MotionProp::Opacity)
    } else if i == 1 {
        Some(MotionProp::X)
    } else if i == 2 {
        Some(MotionProp::Y)
    } else if i == 3 {
        Some(MotionProp::Scale)
    } else if i == 4 {
        Some(MotionProp::ScaleX)
    } else if i == 5 {
        Some(MotionProp::ScaleY)
    } else if i == 6 {
        Some(MotionProp::Rotate)
    } else {
        None
    }
}

/// The unit each property is written with.
pub open spec fn prop_unit(p: MotionProp) -> Unit {
    match p {
        MotionProp::Opacity => Unit::Plain,
        MotionProp::X => Unit::Px,
        MotionProp::Y => Unit::Px,
        MotionProp::Scale => Unit::Plain,
        MotionProp::ScaleX => Unit::Plain,
        MotionProp::ScaleY => Unit::Plain,
        MotionProp::Rotate => Unit::Deg,
    }
}

/// Storage positions and properties correspond one to one.
pub proof fn lemma_index_roundtrip(p: MotionProp, i: int)
    ensures
        0 <= prop_index(p) < PROP_COUNT,
        prop_at(prop_index(p)) == Some(p),
        prop_at(i) matches Some(q) ==> prop_index(q) == i,
        prop_at(i) is Some <==> 0 <= i < PROP_COUNT,
{
}

impl MotionProp {
    /// Number of supported motion properties.
    pub const COUNT: usize = 7;

    /// Returns this property's dense-storage index.
    pub fn index(self) -> (i: usize)
        ensures
            i == prop_index(self),
            i < PROP_COUNT,
            self == MotionProp::Opacity ==> i == 0,
            self == MotionProp::X ==> i == 1,
            self == MotionProp::Y ==> i == 2,
            self == MotionProp::Scale ==> i == 3,
            self == MotionProp::ScaleX ==> i == 4,
            self == MotionProp::ScaleY ==> i == 5,
            self == MotionProp::Rotate ==> i == 6,
    {
        match self {
            MotionProp::Opacity => 0,
            MotionProp::X => 1,
            MotionProp::Y => 2,
            MotionProp::Scale => 3,
            MotionProp::ScaleX => 4,
            MotionProp::ScaleY => 5,
            MotionProp::Rotate => 6,
        }
    }

    /// Returns the property stored at dense-storage index `i`, if there is one.
    pub fn from_index(i: usize) -> (p: Option<MotionProp>)
        ensures
            p == prop_at(i as int),
    {
        if i == 0 {
            Some(MotionProp::Opacity)
        } else if i == 1 {
            Some(MotionProp::X)
        } else if i == 2 {
            Some(MotionProp::Y)
        } else if i == 3 {
            Some(MotionProp::Scale)
        } else if i == 4 {
            Some(MotionProp::ScaleX)
        } else if i == 5 {
            Some(MotionProp::ScaleY)
        } else if i == 6 {
            Some(MotionProp::Rotate)
        } else {
            None
        }
    }

    /// All supported properties in dense-storage order.
    pub fn all() -> (props: Vec<MotionProp>)
        ensures
            props.len() == PROP_COUNT,
            forall|i: int| 0 <= i < PROP_COUNT ==> prop_at(i) == Some(#[trigger] props@[i]),
    {
        let mut props: Vec<MotionProp> = Vec::new();
        props.push(MotionProp::Opacity);
        props.push(MotionProp::X);
        props.push(MotionProp::Y);
        props.push(MotionProp::Scale);
        props.push(MotionProp::ScaleX);
        props.push(MotionProp::ScaleY);
        props.push(MotionProp::Rotate);
        props
    }

    /// The unit this property's value is written with.
    pub fn unit(self) -> (u: Unit)
        ensures
            u == prop_unit(self),
            self == MotionProp::Opacity ==> u == Unit::Plain,
            self == MotionProp::X || self == MotionProp::Y ==> u == Unit::Px,
            self == MotionProp::Scale || self == MotionProp::ScaleX || self == MotionProp::ScaleY ==> u
                == Unit::Plain,
            self == MotionProp::Rotate ==> u == Unit::Deg,
    {
        match self {
            MotionProp::Opacity => Unit::Plain,
            MotionProp::X | MotionProp::Y => Unit::Px,
            MotionProp::Scale | MotionProp::ScaleX | MotionProp::ScaleY => Unit::Plain,
            MotionProp::Rotate => Unit::Deg,
        }
    }

    /// The CSS name of this property: `opacity`, or the transform function
    /// (`translateX`, `translateY`, `scale`, `scaleX`, `scaleY`, `rotate`).
    pub fn css_name(self) -> (name: &'static str)
        ensures
            self == MotionProp::Opacity ==> name@ == "opacity"@,
            self == MotionProp::X ==> name@ == "translateX"@,
            self == MotionProp::Y ==> name@ == "translateY"@,
            self == MotionProp::Scale ==> name@ == "scale"@,
            self == MotionProp::ScaleX ==> name@ == "scaleX"@,
            self == MotionProp::ScaleY ==> name@ == "scaleY"@,
            self == MotionProp::Rotate ==> name@ == "rotate"@,
    {
        match self {
            MotionProp::Opacity => "opacity",
            MotionProp::X => "translateX",
            MotionProp::Y => "translateY",
            MotionProp::Scale => "scale",
            MotionProp::ScaleX => "scaleX",
            MotionProp::ScaleY => "scaleY",
            MotionProp::Rotate => "rotate",
        }
    }
}

impl Unit {
    /// The suffix written right after a value in this unit.
    pub fn suffix(self) -> (s: &'static str)
        ensures
            self == Unit::Plain ==> s@ == ""@,
            self == Unit::Px ==> s@ == "px"@,
            self == Unit::Deg ==> s@ == "deg"@,
    {
        match self {
            Unit::Plain => "",
            Unit::Px => "px",
            Unit::Deg => "deg",
        }
    }
}


/// The bit position of a property inside an ownership mask.
pub open spec fn prop_shift(p: MotionProp) -> u16 {
    prop_index(p) as u16
}

/// Whether `mask` marks property `p`.
pub open spec fn owns(mask: u16, p: MotionProp) -> bool {
    (mask >> prop_shift(p)) & 1u16 == 1u16
}

/// Whether `mask` marks any property of the transform group
/// (translations, scales, rotation).
pub open spec fn transform_group(mask: u16) -> bool {
    ||| owns(mask, MotionProp::X)
    ||| owns(mask, MotionProp::Y)
    ||| owns(mask, MotionProp::Scale)
    ||| owns(mask, MotionProp::ScaleX)
    ||| owns(mask, MotionProp::ScaleY)
    ||| owns(mask, MotionProp::Rotate)
}

proof fn lemma_single_bit(a: u16, b: u16) by (bit_vector)
    requires
        a < 16,
        b < 16,
    ensures
        ((1u16 << b) >> a) & 1u16 == 1u16 <==> a == b,
{
}

proof fn lemma_and_bit(m: u16, a: u16) by (bit_vector)
    requires
        a < 16,
    ensures
        (m & (1u16 << a)) != 0u16 <==> (m >> a) & 1u16 == 1u16,
{
}

proof fn lemma_or_bits(m: u16, n: u16, a: u16) by (bit_vector)
    requires
        a < 16,
    ensures
        ((m | n) >> a) & 1u16 == 1u16 <==> ((m >> a) & 1u16 == 1u16 || (n >> a) & 1u16 == 1u16),
{
}

proof fn lemma_zero_bits(a: u16) by (bit_vector)
    requires
        a < 16,
    ensures
        !((0u16 >> a) & 1u16 == 1u16),
{
}

proof fn lemma_low_bit(b: u16) by (bit_vector)
    requires
        b < 7,
    ensures
        (1u16 << b) >> 7u16 == 0u16,
{
}

proof fn lemma_or_high(m: u16, n: u16) by (bit_vector)
    requires
        n >> 7u16 == 0u16,
    ensures
        (m | n) >> 7u16 == m >> 7u16,
{
}

proof fn lemma_bits_determine(m: u16, n: u16) by (bit_vector)
    requires
        m >> 7u16 == n >> 7u16,
        ((m >> 0u16) & 1u16 == 1u16) == ((n >> 0u16) & 1u16 == 1u16),
        ((m >> 1u16) & 1u16 == 1u16) == ((n >> 1u16) & 1u16 == 1u16),
        ((m >> 2u16) & 1u16 == 1u16) == ((n >> 2u16) & 1u16 == 1u16),
        ((m >> 3u16) & 1u16 == 1u16) == ((n >> 3u16) & 1u16 == 1u16),
        ((m >> 4u16) & 1u16 == 1u16) == ((n >> 4u16) & 1u16 == 1u16),
        ((m >> 5u16) & 1u16 == 1u16) == ((n >> 5u16) & 1u16 == 1u16),
        ((m >> 6u16) & 1u16 == 1u16) == ((n >> 6u16) & 1u16 == 1u16),
    ensures
        m == n,
{
}

/// The bits of a mask above those of the properties (bits 7 to 15); the
/// masks of this library keep them clear.
pub open spec fn spare_bits(mask: u16) -> u16 {
    mask >> 7u16
}

/// A mask is determined by the properties it marks and its spare bits; in
/// particular two masks with clear spare bits that mark the same properties
/// are equal.
pub proof fn lemma_mask_determined(m: u16, n: u16)
    requires
        spare_bits(m) == spare_bits(n),
        forall|p: MotionProp| #[trigger] owns(m, p) == owns(n, p),
    ensures
        m == n,
{
    assert(owns(m, MotionProp::Opacity) == owns(n, MotionProp::Opacity));
    assert(owns(m, MotionProp::X) == owns(n, MotionProp::X));
    assert(owns(m, MotionProp::Y) == owns(n, MotionProp::Y));
    assert(owns(m, MotionProp::Scale) == owns(n, MotionProp::Scale));
    assert(owns(m, MotionProp::ScaleX) == owns(n, MotionProp::ScaleX));
    assert(owns(m, MotionProp::ScaleY) == owns(n, MotionProp::ScaleY));
    assert(owns(m, MotionProp::Rotate) == owns(n, MotionProp::Rotate));
    lemma_bits_determine(m, n);
}

/// The empty mask owns nothing.
pub proof fn lemma_empty_mask(p: MotionProp)
    ensures
        !owns(0u16, p),
{
    lemma_zero_bits(prop_shift(p));
}

/// A union of masks owns exactly what either mask owns.
pub proof fn lemma_union_owns(m: u16, n: u16, p: MotionProp)
    ensures
        owns(m | n, p) <==> owns(m, p) || owns(n, p),
{
    lemma_or_bits(m, n, prop_shift(p));
}

/// Returns the mask bit that stands for `prop`.
pub fn prop_bit(prop: MotionProp) -> (bit: u16)
    ensures
        bit == 1u16 << prop_shift(prop),
        forall|q: MotionProp| owns(bit, q) <==> q == prop,
        spare_bits(bit) == 0,
{
    proof {
        lemma_low_bit(prop_shift(prop));
    }
    let i = prop.index() as u16;
    assert forall|q: MotionProp| owns(1u16 << i, q) <==> q == prop by {
        lemma_single_bit(prop_shift(q), i);
    }
    1u16 << i
}

/// Returns `true` when `mask` marks `prop`.
pub fn owns_prop(mask: u16, prop: MotionProp) -> (owned: bool)
    ensures
        owned == owns(mask, prop),
{
    let bit = prop_bit(prop);
    proof {
        lemma_and_bit(mask, prop_shift(prop));
    }
    (mask & bit) != 0
}

/// Returns `true` when `mask` marks any property of the transform group.
pub fn transform_group_active(mask: u16) -> (active: bool)
    ensures
        active == transform_group(mask),
{
    owns_prop(mask, MotionProp::X) || owns_prop(mask, MotionProp::Y) || owns_prop(
        mask,
        MotionProp::Scale,
    ) || owns_prop(mask, MotionProp::ScaleX) || owns_prop(mask, MotionProp::ScaleY) || owns_prop(
        mask,
        MotionProp::Rotate,
    )
}


/// One function of a composed `transform` value.
#[derive(Debug, Clone, Copy, PartialEq, Eq, Structural)]
pub enum TransformPart {
    /// `translateX(<x>px)`.
    TranslateX,
    /// `translateY(<y>px)`.
    TranslateY,
    /// `scale(<scale * sx>, <scale * sy>)`, where the axis multiplier `sx`
    /// (`sy`) is the `ScaleX` (`ScaleY`) value when that property is owned and
    /// `1` otherwise.
    Scale { with_scale_x: bool, with_scale_y: bool },
    /// `rotate(<r>deg)`.
    Rotate,
}

/// The groups named by a composed `will-change` value.
#[derive(Debug, Clone, Copy, PartialEq, Eq, Structural)]
pub enum WillChange {
    /// `opacity`
    Opacity,
    /// `transform`
    Transform,
    /// `opacity, transform`
    OpacityAndTransform,
}

impl WillChange {
    /// The CSS text of this `will-change` value.
    pub fn text(self) -> (text: &'static str)
        ensures
            self == WillChange::Opacity ==> text@ == "opacity"@,
            self == WillChange::Transform ==> text@ == "transform"@,
            self == WillChange::OpacityAndTransform ==> text@ == "opacity, transform"@,
    {
        match self {
            WillChange::Opacity => "opacity",
            WillChange::Transform => "transform",
            WillChange::OpacityAndTransform => "opacity, transform",
        }
    }
}

/// What the inline style of a bound node consists of, before any number is
/// written: whether `opacity` is set, the functions of `transform` in order
/// (no `transform` when there are none), and the `will-change` value.
#[derive(Debug, Clone, PartialEq, Eq)]
pub struct StylePlan {
    /// `opacity` is written.
    pub opacity: bool,
    /// The functions of `transform`, in the order they are written.
    pub transform: Vec<TransformPart>,
    /// The `will-change` value, if any.
    pub will_change: Option<WillChange>,
}

/// The transform functions written for an ownership mask, in the fixed order
/// translateX, translateY, scale, rotate.
pub open spec fn planned_transform(owned: u16) -> Seq<TransformPart> {
    (if owns(owned, MotionProp::X) {
        seq![TransformPart::TranslateX]
    } else {
        Seq::empty()
    }) + (if owns(owned, MotionProp::Y) {
        seq![TransformPart::TranslateY]
    } else {
        Seq::empty()
    }) + (if owns(owned, MotionProp::Scale) || owns(owned, MotionProp::ScaleX) || owns(
        owned,
        MotionProp::ScaleY,
    ) {
        seq![
            TransformPart::Scale {
                with_scale_x: owns(owned, MotionProp::ScaleX),
                with_scale_y: owns(owned, MotionProp::ScaleY),
            },
        ]
    } else {
        Seq::empty()
    }) + (if owns(owned, MotionProp::Rotate) {
        seq![TransformPart::Rotate]
    } else {
        Seq::empty()
    })
}

/// The `will-change` value for a mask of actively animating properties:
/// `opacity` when opacity animates, `transform` when any transform property
/// animates.
pub open spec fn planned_will_change(active: u16) -> Option<WillChange> {
    if owns(active, MotionProp::Opacity) && transform_group(active) {
        Some(WillChange::OpacityAndTransform)
    } else if owns(active, MotionProp::Opacity) {
        Some(WillChange::Opacity)
    } else if transform_group(active) {
        Some(WillChange::Transform)
    } else {
        None
    }
}

/// Plans the inline style of a node from the mask of owned properties and the
/// mask of properties that are currently animating.
pub fn compose_plan(owned_mask: u16, active_mask: u16) -> (plan: StylePlan)
    ensures
        plan.opacity == owns(owned_mask, MotionProp::Opacity),
        plan.transform@ == planned_transform(owned_mask),
        plan.will_change == planned_will_change(active_mask),
        forall|k: int|
            0 <= k < plan.transform@.len() ==> match #[trigger] plan.transform@[k] {
                TransformPart::Scale { with_scale_x, with_scale_y } => with_scale_x == owns(
                    owned_mask,
                    MotionProp::ScaleX,
                ) && with_scale_y == owns(owned_mask, MotionProp::ScaleY),
                _ => true,
            },
{
    proof {
        lemma_planned_transform_parts(owned_mask);
    }
    let opacity = owns_prop(owned_mask, MotionProp::Opacity);
    let mut transform: Vec<TransformPart> = Vec::new();
    let ghost empty: Seq<TransformPart> = Seq::empty();
    let ghost mut expected: Seq<TransformPart> = Seq::empty();
    if owns_prop(owned_mask, MotionProp::X) {
        transform.push(TransformPart::TranslateX);
    }
    proof {
        expected = if owns(owned_mask, MotionProp::X) {
            seq![TransformPart::TranslateX]
        } else {
            empty
        };
    }
    assert(transform@ == expected);
    if owns_prop(owned_mask, MotionProp::Y) {
        transform.push(TransformPart::TranslateY);
    }
    proof {
        expected = expected + if owns(owned_mask, MotionProp::Y) {
            seq![TransformPart::TranslateY]
        } else {
            empty
        };
    }
    assert(transform@ == expected);
    let scale = owns_prop(owned_mask, MotionProp::Scale);
    let scale_x = owns_prop(owned_mask, MotionProp::ScaleX);
    let scale_y = owns_prop(owned_mask, MotionProp::ScaleY);
    if scale || scale_x || scale_y {
        transform.push(TransformPart::Scale { with_scale_x: scale_x, with_scale_y: scale_y });
    }
    proof {
        expected = expected + if scale || scale_x || scale_y {
            seq![TransformPart::Scale { with_scale_x: scale_x, with_scale_y: scale_y }]
        } else {
            empty
        };
    }
    assert(transform@ == expected);
    if owns_prop(owned_mask, MotionProp::Rotate) {
        transform.push(TransformPart::Rotate);
    }
    proof {
        expected = expected + if owns(owned_mask, MotionProp::Rotate) {
            seq![TransformPart::Rotate]
        } else {
            empty
        };
    }
    assert(transform@ == expected);
    let active_opacity = owns_prop(active_mask, MotionProp::Opacity);
    let active_transform = transform_group_active(active_mask);
    let will_change = if active_opacity && active_transform {
        Some(WillChange::OpacityAndTransform)
    } else if active_opacity {
        Some(WillChange::Opacity)
    } else if active_transform {
        Some(WillChange::Transform)
    } else {
        None
    };
    StylePlan { opacity, transform, will_change }
}

/// The place of each kind of function in a composed `transform`: translateX,
/// then translateY, then scale, then rotate.
pub open spec fn part_rank(part: TransformPart) -> int {
    match part {
        TransformPart::TranslateX => 0,
        TransformPart::TranslateY => 1,
        TransformPart::Scale { .. } => 2,
        TransformPart::Rotate => 3,
    }
}

/// What a planned `transform` holds: `translateX` exactly when `X` is owned,
/// `translateY` exactly when `Y` is, `rotate` exactly when `Rotate` is, and a
/// `scale` exactly when any of `Scale`, `ScaleX`, `ScaleY` is; that `scale`
/// takes the `ScaleX` (`ScaleY`) value exactly when `ScaleX` (`ScaleY`) is
/// owned, whether or not `Scale` is; and the functions come each at most once,
/// in the order translateX, translateY, scale, rotate.
pub proof fn lemma_planned_transform_parts(owned: u16)
    ensures
        planned_transform(owned).contains(TransformPart::TranslateX) <==> owns(owned, MotionProp::X),
        planned_transform(owned).contains(TransformPart::TranslateY) <==> owns(owned, MotionProp::Y),
        planned_transform(owned).contains(TransformPart::Rotate) <==> owns(owned, MotionProp::Rotate),
        (exists|k: int|
            0 <= k < planned_transform(owned).len() && (#[trigger] planned_transform(owned)[k]) is Scale)
            <==> (owns(owned, MotionProp::Scale) || owns(owned, MotionProp::ScaleX) || owns(
            owned,
            MotionProp::ScaleY,
        )),
        forall|k: int|
            0 <= k < planned_transform(owned).len() ==> match #[trigger] planned_transform(owned)[k] {
                TransformPart::Scale { with_scale_x, with_scale_y } => with_scale_x == owns(
                    owned,
                    MotionProp::ScaleX,
                ) && with_scale_y == owns(owned, MotionProp::ScaleY),
                _ => true,
            },
        forall|i: int, j: int|
            0 <= i < j < planned_transform(owned).len() ==> part_rank(
                #[trigger] planned_transform(owned)[i],
            ) < part_rank(#[trigger] planned_transform(owned)[j]),
{
    let t = planned_transform(owned);
    let a: Seq<TransformPart> = if owns(owned, MotionProp::X) {
        seq![TransformPart::TranslateX]
    } else {
        Seq::empty()
    };
    let b: Seq<TransformPart> = if owns(owned, MotionProp::Y) {
        seq![TransformPart::TranslateY]
    } else {
        Seq::empty()
    };
    let sx = owns(owned, MotionProp::ScaleX);
    let sy = owns(owned, MotionProp::ScaleY);
    let c: Seq<TransformPart> = if owns(owned, MotionProp::Scale) || sx || sy {
        seq![TransformPart::Scale { with_scale_x: sx, with_scale_y: sy }]
    } else {
        Seq::empty()
    };
    let d: Seq<TransformPart> = if owns(owned, MotionProp::Rotate) {
        seq![TransformPart::Rotate]
    } else {
        Seq::empty()
    };
    assert(t == a + b + c + d);
    let ab = a + b;
    let abc = ab + c;
    assert forall|k: int| 0 <= k < t.len() implies {
        &&& (t[k] == TransformPart::TranslateX ==> k < a.len())
        &&& (t[k] == TransformPart::TranslateY ==> a.len() <= k < ab.len())
        &&& (t[k] is Scale ==> ab.len() <= k < abc.len())
        &&& (t[k] == TransformPart::Rotate ==> abc.len() <= k)
        &&& (k < a.len() ==> t[k] == TransformPart::TranslateX)
        &&& (a.len() <= k < ab.len() ==> t[k] == TransformPart::TranslateY)
        &&& (ab.len() <= k < abc.len() ==> t[k] == TransformPart::Scale {
            with_scale_x: sx,
            with_scale_y: sy,
        })
        &&& (abc.len() <= k ==> t[k] == TransformPart::Rotate)
    } by {
        if k < a.len() {
            assert(t[k] == a[k]);
        } else if k < ab.len() {
            assert(t[k] == b[k - a.len()]);
        } else if k < abc.len() {
            assert(t[k] == c[k - ab.len()]);
        } else {
            assert(t[k] == d[k - abc.len()]);
        }
    }
    if owns(owned, MotionProp::X) {
        assert(t[0] == TransformPart::TranslateX);
    }
    if owns(owned, MotionProp::Y) {
        assert(t[a.len() as int] == TransformPart::TranslateY);
    }
    if owns(owned, MotionProp::Scale) || sx || sy {
        assert(t[ab.len() as int] is Scale);
    }
    if owns(owned, MotionProp::Rotate) {
        assert(t[abc.len() as int] == TransformPart::Rotate);
    }
}

/// No `transform` is written exactly when no transform property is owned.
pub proof fn lemma_transform_empty_iff_no_transform_owned(owned: u16)
    ensures
        planned_transform(owned).len() == 0 <==> !transform_group(owned),
{
}

/// The `will-change` of a plan names `opacity` exactly when opacity animates
/// and `transform` exactly when some property other than opacity animates,
/// and is absent when neither does.
pub proof fn lemma_planned_will_change_groups(active: u16)
    ensures
        transform_group(active) <==> exists|p: MotionProp|
            p != MotionProp::Opacity && #[trigger] owns(active, p),
        planned_will_change(active) is None <==> forall|p: MotionProp| !#[trigger] owns(active, p),
        planned_will_change(active) == Some(WillChange::OpacityAndTransform) <==> (owns(
            active,
            MotionProp::Opacity,
        ) && exists|p: MotionProp| p != MotionProp::Opacity && #[trigger] owns(active, p)),
        planned_will_change(active) == Some(WillChange::Opacity) <==> (owns(
            active,
            MotionProp::Opacity,
        ) && forall|p: MotionProp| p != MotionProp::Opacity ==> !#[trigger] owns(active, p)),
        planned_will_change(active) == Some(WillChange::Transform) <==> (!owns(
            active,
            MotionProp::Opacity,
        ) && exists|p: MotionProp| p != MotionProp::Opacity && #[trigger] owns(active, p)),
{
    if exists|p: MotionProp| p != MotionProp::Opacity && #[trigger] owns(active, p) {
        let p = choose|p: MotionProp| p != MotionProp::Opacity && #[trigger] owns(active, p);
        match p {
            MotionProp::Opacity => {},
            _ => {},
        }
    }
    if transform_group(active) {
        if owns(active, MotionProp::X) {
            assert(MotionProp::X != MotionProp::Opacity && owns(active, MotionProp::X));
        } else if owns(active, MotionProp::Y) {
            assert(MotionProp::Y != MotionProp::Opacity && owns(active, MotionProp::Y));
        } else if owns(active, MotionProp::Scale) {
            assert(MotionProp::Scale != MotionProp::Opacity && owns(active, MotionProp::Scale));
        } else if owns(active, MotionProp::ScaleX) {
            assert(MotionProp::ScaleX != MotionProp::Opacity && owns(active, MotionProp::ScaleX));
        } else if owns(active, MotionProp::ScaleY) {
            assert(MotionProp::ScaleY != MotionProp::Opacity && owns(active, MotionProp::ScaleY));
        } else {
            assert(MotionProp::Rotate != MotionProp::Opacity && owns(active, MotionProp::Rotate));
        }
    }
    if !transform_group(active) && !owns(active, MotionProp::Opacity) {
        assert forall|p: MotionProp| !#[trigger] owns(active, p) by {
            match p {
                MotionProp::Opacity => {},
                _ => {},
            }
        }
    }
}

/// Once nothing animates, no `will-change` remains.
pub proof fn lemma_settled_has_no_will_change()
    ensures
        planned_will_change(0u16) is None,
{
    lemma_empty_mask(MotionProp::Opacity);
    lemma_empty_mask(MotionProp::X);
    lemma_empty_mask(MotionProp::Y);
    lemma_empty_mask(MotionProp::Scale);
    lemma_empty_mask(MotionProp::ScaleX);
    lemma_empty_mask(MotionProp::ScaleY);
    lemma_empty_mask(MotionProp::Rotate);
}


/// Sparse, builder-style motion target definition over values of type `V`.
///
/// A `MotionStyle` only stores properties that are explicitly present. Missing
/// properties are treated as absent, not as implicit resets.
#[derive(Debug, Clone, PartialEq)]
pub struct MotionStyle<V> {
    opacity: Option<V>,
    x: Option<V>,
    y: Option<V>,
    scale: Option<V>,
    scale_x: Option<V>,
    scale_y: Option<V>,
    rotate: Option<V>,
}

impl<V> MotionStyle<V> {
    /// The value stored for `p`, if present.
    pub closed spec fn entry(&self, p: MotionProp) -> Option<V> {
        match p {
            MotionProp::Opacity => self.opacity,
            MotionProp::X => self.x,
            MotionProp::Y => self.y,
            MotionProp::Scale => self.scale,
            MotionProp::ScaleX => self.scale_x,
            MotionProp::ScaleY => self.scale_y,
            MotionProp::Rotate => self.rotate,
        }
    }

    /// Creates an empty motion style.
    pub fn new() -> (style: Self)
        ensures
            forall|p: MotionProp| (#[trigger] style.entry(p)) is None,
    {
        MotionStyle {
            opacity: None,
            x: None,
            y: None,
            scale: None,
            scale_x: None,
            scale_y: None,
            rotate: None,
        }
    }

    /// Sets a specific motion property.
    pub fn set(self, prop: MotionProp, value: V) -> (style: Self)
        ensures
            forall|q: MotionProp|
                (#[trigger] style.entry(q)) == if q == prop {
                    Some(value)
                } else {
                    self.entry(q)
                },
    {
        let mut style = self;
        match prop {
            MotionProp::Opacity => style.opacity = Some(value),
            MotionProp::X => style.x = Some(value),
            MotionProp::Y => style.y = Some(value),
            MotionProp::Scale => style.scale = Some(value),
            MotionProp::ScaleX => style.scale_x = Some(value),
            MotionProp::ScaleY => style.scale_y = Some(value),
            MotionProp::Rotate => style.rotate = Some(value),
        }
        style
    }

    /// Returns `true` when `prop` is explicitly present in the style.
    pub fn contains(&self, prop: MotionProp) -> (present: bool)
        ensures
            present == self.entry(prop) is Some,
    {
        match prop {
            MotionProp::Opacity => self.opacity.is_some(),
            MotionProp::X => self.x.is_some(),
            MotionProp::Y => self.y.is_some(),
            MotionProp::Scale => self.scale.is_some(),
            MotionProp::ScaleX => self.scale_x.is_some(),
            MotionProp::ScaleY => self.scale_y.is_some(),
            MotionProp::Rotate => self.rotate.is_some(),
        }
    }

    /// The mask of the properties present in this style.
    pub fn mask(&self) -> (mask: u16)
        ensures
            forall|p: MotionProp| owns(mask, p) <==> (#[trigger] self.entry(p)) is Some,
            spare_bits(mask) == 0,
    {
        let mut mask: u16 = 0;
        let props = MotionProp::all();
        let mut i: usize = 0;
        proof {
            assert forall|p: MotionProp| owns(mask, p) <==> false by {
                lemma_empty_mask(p);
            }
            assert(0u16 >> 7u16 == 0u16) by (bit_vector);
        }
        while i < PROP_COUNT
            invariant
                props.len() == PROP_COUNT,
                forall|j: int| 0 <= j < PROP_COUNT ==> prop_at(j) == Some(#[trigger] props@[j]),
                0 <= i <= PROP_COUNT,
                forall|p: MotionProp|
                    owns(mask, p) <==> (prop_index(p) < i && (#[trigger] self.entry(p)) is Some),
                spare_bits(mask) == 0,
            decreases PROP_COUNT - i,
        {
            let prop = props[i];
            if self.contains(prop) {
                let bit = prop_bit(prop);
                proof {
                    assert forall|p: MotionProp|
                        owns(mask | bit, p) <==> (prop_index(p) < i + 1 && (
                        #[trigger] self.entry(p)) is Some) by {
                        lemma_union_owns(mask, bit, p);
                        lemma_index_roundtrip(p, i as int);
                    }
                    lemma_or_high(mask, bit);
                }
                mask = mask | bit;
            } else {
                proof {
                    assert forall|p: MotionProp|
                        owns(mask, p) <==> (prop_index(p) < i + 1 && (
                        #[trigger] self.entry(p)) is Some) by {
                        lemma_index_roundtrip(p, i as int);
                    }
                }
            }
            i = i + 1;
        }
        mask
    }

    /// Sets [`MotionProp::Opacity`].
    pub fn opacity(self, v: V) -> (style: Self)
        ensures
            forall|q: MotionProp|
                (#[trigger] style.entry(q)) == if q == MotionProp::Opacity {
                    Some(v)
                } else {
                    self.entry(q)
                },
    {
        self.set(MotionProp::Opacity, v)
    }

    /// Sets [`MotionProp::X`].
    pub fn x(self, v: V) -> (style: Self)
        ensures
            forall|q: MotionProp|
                (#[trigger] style.entry(q)) == if q == MotionProp::X {
                    Some(v)
                } else {
                    self.entry(q)
                },
    {
        self.set(MotionProp::X, v)
    }

    /// Sets [`MotionProp::Y`].
    pub fn y(self, v: V) -> (style: Self)
        ensures
            forall|q: MotionProp|
                (#[trigger] style.entry(q)) == if q == MotionProp::Y {
                    Some(v)
                } else {
                    self.entry(q)
                },
    {
        self.set(MotionProp::Y, v)
    }

    /// Sets [`MotionProp::Scale`].
    pub fn scale(self, v: V) -> (style: Self)
        ensures
            forall|q: MotionProp|
                (#[trigger] style.entry(q)) == if q == MotionProp::Scale {
                    Some(v)
                } else {
                    self.entry(q)
                },
    {
        self.set(MotionProp::Scale, v)
    }

    /// Sets [`MotionProp::ScaleX`].
    pub fn scale_x(self, v: V) -> (style: Self)
        ensures
            forall|q: MotionProp|
                (#[trigger] style.entry(q)) == if q == MotionProp::ScaleX {
                    Some(v)
                } else {
                    self.entry(q)
                },
    {
        self.set(MotionProp::ScaleX, v)
    }

    /// Sets [`MotionProp::ScaleY`].
    pub fn scale_y(self, v: V) -> (style: Self)
        ensures
            forall|q: MotionProp|
                (#[trigger] style.entry(q)) == if q == MotionProp::ScaleY {
                    Some(v)
                } else {
                    self.entry(q)
                },
    {
        self.set(MotionProp::ScaleY, v)
    }

    /// Sets [`MotionProp::Rotate`].
    pub fn rotate(self, v: V) -> (style: Self)
        ensures
            forall|q: MotionProp|
                (#[trigger] style.entry(q)) == if q == MotionProp::Rotate {
                    Some(v)
                } else {
                    self.entry(q)
                },
    {
        self.set(MotionProp::Rotate, v)
    }
}

impl<V> MotionStyle<V> {
    /// The explicitly present properties among the first `n` storage
    /// positions, with their values, in dense-storage order.
    pub open spec fn present_prefix(&self, n: int) -> Seq<(MotionProp, V)>
        decreases n,
    {
        if n <= 0 {
            Seq::empty()
        } else {
            let before = self.present_prefix(n - 1);
            match prop_at(n - 1) {
                Some(p) => match self.entry(p) {
                    Some(v) => before.push((p, v)),
                    None => before,
                },
                None => before,
            }
        }
    }
}

impl<V> MotionStyle<V> {
    proof fn lemma_present_step(&self, n: int)
        requires
            0 < n <= PROP_COUNT,
        ensures
            self.entry(prop_at(n - 1).unwrap()) is Some ==> self.present_prefix(n)
                == self.present_prefix(n - 1).push(
                (prop_at(n - 1).unwrap(), self.entry(prop_at(n - 1).unwrap()).unwrap()),
            ),
            self.entry(prop_at(n - 1).unwrap()) is None ==> self.present_prefix(n)
                == self.present_prefix(n - 1),
    {
    }

    proof fn lemma_present_prefix(&self, n: int)
        requires
            0 <= n <= PROP_COUNT,
        ensures
            forall|p: MotionProp|
                prop_index(p) < n && (#[trigger] self.entry(p)) is Some ==> self.present_prefix(
                    n,
                ).contains((p, self.entry(p).unwrap())),
            forall|i: int|
                0 <= i < self.present_prefix(n).len() ==> prop_index(
                    (#[trigger] self.present_prefix(n)[i]).0,
                ) < n && self.entry(self.present_prefix(n)[i].0) == Some(
                    self.present_prefix(n)[i].1,
                ),
            forall|i: int, j: int|
                0 <= i < j < self.present_prefix(n).len() ==> prop_index(
                    (#[trigger] self.present_prefix(n)[i]).0,
                ) < prop_index((#[trigger] self.present_prefix(n)[j]).0),
        decreases n,
    {
        if n > 0 {
            self.lemma_present_prefix(n - 1);
            self.lemma_present_step(n);
            let before = self.present_prefix(n - 1);
            let now = self.present_prefix(n);
            let q = prop_at(n - 1).unwrap();
            lemma_index_roundtrip(q, n - 1);
            assert forall|p: MotionProp|
                prop_index(p) < n && (#[trigger] self.entry(p)) is Some implies now.contains(
                (p, self.entry(p).unwrap()),
            ) by {
                lemma_index_roundtrip(p, n - 1);
                if prop_index(p) < n - 1 {
                    let i = choose|i: int|
                        0 <= i < before.len() && before[i] == (p, self.entry(p).unwrap());
                    assert(now[i] == before[i]);
                } else {
                    assert(now[before.len() as int] == (p, self.entry(p).unwrap()));
                }
            }
            assert forall|i: int| 0 <= i < now.len() implies prop_index((#[trigger] now[i]).0) < n
                && self.entry(now[i].0) == Some(now[i].1) by {
                if i < before.len() {
                    assert(now[i] == before[i]);
                }
            }
            assert forall|i: int, j: int| 0 <= i < j < now.len() implies prop_index(
                (#[trigger] now[i]).0,
            ) < prop_index((#[trigger] now[j]).0) by {
                assert(now[i] == before[i]);
                if j < before.len() {
                    assert(now[j] == before[j]);
                }
            }
        }
    }

    /// The listing of present properties is exact: every present property
    /// appears in it with its value, every entry is a present property with
    /// its value, and the properties come in strictly increasing storage
    /// order, so each at most once.
    pub proof fn lemma_present_listing_exact(&self)
        ensures
            forall|p: MotionProp|
                (#[trigger] self.entry(p)) is Some ==> self.present_prefix(PROP_COUNT as int).contains(
                    (p, self.entry(p).unwrap()),
                ),
            forall|i: int|
                0 <= i < self.present_prefix(PROP_COUNT as int).len() ==> self.entry(
                    (#[trigger] self.present_prefix(PROP_COUNT as int)[i]).0,
                ) == Some(self.present_prefix(PROP_COUNT as int)[i].1),
            forall|i: int, j: int|
                0 <= i < j < self.present_prefix(PROP_COUNT as int).len() ==> prop_index(
                    (#[trigger] self.present_prefix(PROP_COUNT as int)[i]).0,
                ) < prop_index((#[trigger] self.present_prefix(PROP_COUNT as int)[j]).0),
    {
        self.lemma_present_prefix(PROP_COUNT as int);
        assert forall|p: MotionProp| (#[trigger] self.entry(p)) is Some implies self.present_prefix(
            PROP_COUNT as int,
        ).contains((p, self.entry(p).unwrap())) by {
            lemma_index_roundtrip(p, 0);
        }
    }

    /// Returns a reference to the explicitly stored value for `prop`, if present.
    pub fn get_ref(&self, prop: MotionProp) -> (value: Option<&V>)
        ensures
            value is None <==> self.entry(prop) is None,
            value matches Some(v) ==> self.entry(prop) == Some(*v),
    {
        let slot = match prop {
            MotionProp::Opacity => &self.opacity,
            MotionProp::X => &self.x,
            MotionProp::Y => &self.y,
            MotionProp::Scale => &self.scale,
            MotionProp::ScaleX => &self.scale_x,
            MotionProp::ScaleY => &self.scale_y,
            MotionProp::Rotate => &self.rotate,
        };
        match slot {
            Some(v) => Some(v),
            None => None,
        }
    }
}

impl<V> Default for MotionStyle<V> {
    /// An empty motion style.
    fn default() -> (style: Self)
        ensures
            forall|p: MotionProp| (#[trigger] style.entry(p)) is None,
    {
        MotionStyle::new()
    }
}

impl<V: Copy> MotionStyle<V> {
    /// The explicitly present properties with their values, in dense-storage
    /// order.
    pub fn iter_present(&self) -> (present: Vec<(MotionProp, V)>)
        ensures
            present@ == self.present_prefix(PROP_COUNT as int),
            forall|p: MotionProp|
                (#[trigger] self.entry(p)) matches Some(v) ==> present@.contains((p, v)),
            forall|i: int|
                0 <= i < present@.len() ==> self.entry((#[trigger] present@[i]).0) == Some(
                    present@[i].1,
                ),
            forall|i: int, j: int|
                0 <= i < j < present@.len() ==> prop_index((#[trigger] present@[i]).0) < prop_index(
                    (#[trigger] present@[j]).0,
                ),
    {
        proof {
            self.lemma_present_listing_exact();
        }
        let props = MotionProp::all();
        let mut present: Vec<(MotionProp, V)> = Vec::new();
        let mut i: usize = 0;
        while i < PROP_COUNT
            invariant
                props.len() == PROP_COUNT,
                forall|j: int| 0 <= j < PROP_COUNT ==> prop_at(j) == Some(#[trigger] props@[j]),
                0 <= i <= PROP_COUNT,
                present@ == self.present_prefix(i as int),
            decreases PROP_COUNT - i,
        {
            let prop = props[i];
            match self.get(prop) {
                Some(v) => present.push((prop, v)),
                None => {},
            }
            i = i + 1;
        }
        present
    }

    /// Returns the explicitly stored value for `prop`, if present.
    pub fn get(&self, prop: MotionProp) -> (value: Option<V>)
        ensures
            value == self.entry(prop),
    {
        match prop {
            MotionProp::Opacity => self.opacity,
            MotionProp::X => self.x,
            MotionProp::Y => self.y,
            MotionProp::Scale => self.scale,
            MotionProp::ScaleX => self.scale_x,
            MotionProp::ScaleY => self.scale_y,
            MotionProp::Rotate => self.rotate,
        }
    }
}

} // verus!
