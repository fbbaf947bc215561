//! A bag of optional animatable property values.
use crate::style::{lemma_index_roundtrip, prop_at, prop_index, MotionProp, PROP_COUNT};
use vstd::prelude::*;

verus! {

/// Bag of animatable properties over values of type `V`.
///
/// Only populated fields participate in animation; fields left as `None` are
/// not touched.
#[derive(Debug, Clone, PartialEq)]
pub struct AnimProps<V> {
    /// CSS `opacity`.
    pub opacity: Option<V>,
    /// Horizontal translation.
    pub x: Option<V>,
    /// Vertical translation.
    pub y: Option<V>,
    /// Uniform scale.
    pub scale: Option<V>,
    /// X-axis scale multiplier.
    pub scale_x: Option<V>,
    /// Y-axis scale multiplier.
    pub scale_y: Option<V>,
    /// Rotation.
    pub rotate: Option<V>,
}

/// The name under which a property is listed by [`AnimProps::defined_props`].
pub open spec fn listed_name(p: MotionProp) -> Seq<char> {
    match p {
        MotionProp::Opacity => "opacity"@,
        MotionProp::X => "x"@,
        MotionProp::Y => "y"@,
        MotionProp::Scale => "scale"@,
        MotionProp::ScaleX => "scale_x"@,
        MotionProp::ScaleY => "scale_y"@,
        MotionProp::Rotate => "rotate"@,
    }
}

/// Distinct properties are listed under distinct names.
pub proof fn lemma_listed_names_distinct(p: MotionProp, q: MotionProp)
    ensures
        listed_name(p) == listed_name(q) <==> p == q,
{
    reveal_strlit("opacity");
    reveal_strlit("x");
    reveal_strlit("y");
    reveal_strlit("scale");
    reveal_strlit("scale_x");
    reveal_strlit("scale_y");
    reveal_strlit("rotate");
    if listed_name(p) == listed_name(q) && p != q {
        assert(listed_name(p).len() == listed_name(q).len());
        assert(listed_name(p)[0] == listed_name(q)[0]);
        if listed_name(p).len() == 7 {
            assert(listed_name(p)[6] == listed_name(q)[6]);
        }
    }
}

impl<V> AnimProps<V> {
    /// The value stored for `p`.
    pub open spec fn field(&self, p: MotionProp) -> Option<V> {
        match p {
            MotionProp::Opacity => self.opacity,
            MotionProp::X => self.x,
            MotionProp::Y => self.y,
            MotionProp::Scale => self.scale,
            MotionProp::ScaleX => self.scale_x,
            MotionProp::ScaleY => self.scale_y,
            MotionProp::Rotate => self.rotate,
        }
    }

    /// The defined properties among the first `n` storage positions, named as
    /// in [`listed_name`], in storage order.
    pub open spec fn defined_prefix(&self, n: int) -> Seq<(Seq<char>, V)>
        decreases n,
    {
        if n <= 0 {
            Seq::empty()
        } else {
            let before = self.defined_prefix(n - 1);
            match prop_at(n - 1) {
                Some(p) => match self.field(p) {
                    Some(v) => before.push((listed_name(p), v)),
                    None => before,
                },
                None => before,
            }
        }
    }

    /// How many of the seven fields are defined.
    pub open spec fn defined_count(&self) -> nat {
        (if self.opacity is Some { 1nat } else { 0nat }) + (if self.x is Some { 1nat } else { 0nat })
            + (if self.y is Some { 1nat } else { 0nat }) + (if self.scale is Some { 1nat } else { 0nat })
            + (if self.scale_x is Some { 1nat } else { 0nat }) + (if self.scale_y is Some { 1nat } else { 0nat })
            + (if self.rotate is Some { 1nat } else { 0nat })
    }

    proof fn lemma_prefix_step(&self, n: int)
        requires
            0 < n <= PROP_COUNT,
        ensures
            self.field(prop_at(n - 1).unwrap()) is Some ==> self.defined_prefix(n) == self.defined_prefix(
                n - 1,
            ).push((listed_name(prop_at(n - 1).unwrap()), self.field(prop_at(n - 1).unwrap()).unwrap())),
            self.field(prop_at(n - 1).unwrap()) is None ==> self.defined_prefix(n) == self.defined_prefix(
                n - 1,
            ),
    {
    }

    proof fn lemma_prefix_complete(&self, n: int)
        requires
            0 <= n <= PROP_COUNT,
        ensures
            forall|p: MotionProp|
                prop_index(p) < n && (#[trigger] self.field(p)) is Some ==> self.defined_prefix(n).contains(
                    (listed_name(p), self.field(p).unwrap()),
                ),
        decreases n,
    {
        if n > 0 {
            self.lemma_prefix_complete(n - 1);
            self.lemma_prefix_step(n);
            let before = self.defined_prefix(n - 1);
            let now = self.defined_prefix(n);
            let q = prop_at(n - 1).unwrap();
            lemma_index_roundtrip(q, n - 1);
            assert forall|p: MotionProp|
                prop_index(p) < n && (#[trigger] self.field(p)) is Some implies now.contains(
                (listed_name(p), self.field(p).unwrap()),
            ) by {
                lemma_index_roundtrip(p, n - 1);
                if prop_index(p) < n - 1 {
                    let i = choose|i: int|
                        0 <= i < before.len() && before[i] == (listed_name(p), self.field(p).unwrap());
                    assert(now[i] == before[i]);
                } else {
                    assert(now[before.len() as int] == (listed_name(p), self.field(p).unwrap()));
                }
            }
        }
    }

    proof fn lemma_prefix_sound(&self, n: int)
        requires
            0 <= n <= PROP_COUNT,
        ensures
            forall|i: int|
                0 <= i < self.defined_prefix(n).len() ==> exists|p: MotionProp|
                    prop_index(p) < n && #[trigger] self.defined_prefix(n)[i] == (
                    listed_name(p),
                    self.field(p).unwrap(),
                ) && self.field(p) is Some,
        decreases n,
    {
        if n > 0 {
            self.lemma_prefix_sound(n - 1);
            self.lemma_prefix_step(n);
            let before = self.defined_prefix(n - 1);
            let now = self.defined_prefix(n);
            let q = prop_at(n - 1).unwrap();
            lemma_index_roundtrip(q, n - 1);
            assert forall|i: int| 0 <= i < now.len() implies exists|p: MotionProp|
                prop_index(p) < n && #[trigger] now[i] == (listed_name(p), self.field(p).unwrap())
                    && self.field(p) is Some by {
                if i < before.len() {
                    assert(now[i] == before[i]);
                    let p = choose|p: MotionProp|
                        prop_index(p) < n - 1 && #[trigger] before[i] == (
                            listed_name(p),
                            self.field(p).unwrap(),
                        ) && self.field(p) is Some;
                    assert(prop_index(p) < n);
                } else {
                    assert(now[i] == (listed_name(q), self.field(q).unwrap()));
                }
            }
        }
    }

    proof fn lemma_prefix_distinct(&self, n: int)
        requires
            0 <= n <= PROP_COUNT,
        ensures
            forall|i: int, j: int|
                0 <= i < j < self.defined_prefix(n).len() ==> (#[trigger] self.defined_prefix(n)[i]).0
                    != (#[trigger] self.defined_prefix(n)[j]).0,
        decreases n,
    {
        if n > 0 {
            self.lemma_prefix_distinct(n - 1);
            self.lemma_prefix_sound(n - 1);
            self.lemma_prefix_step(n);
            let before = self.defined_prefix(n - 1);
            let now = self.defined_prefix(n);
            let q = prop_at(n - 1).unwrap();
            lemma_index_roundtrip(q, n - 1);
            assert forall|i: int, j: int|
                0 <= i < j < now.len() implies (#[trigger] now[i]).0 != (#[trigger] now[j]).0 by {
                if j < before.len() {
                    assert(now[i] == before[i] && now[j] == before[j]);
                } else {
                    assert(now[i] == before[i]);
                    let p = choose|p: MotionProp|
                        prop_index(p) < n - 1 && #[trigger] before[i] == (
                            listed_name(p),
                            self.field(p).unwrap(),
                        ) && self.field(p) is Some;
                    lemma_listed_names_distinct(p, q);
                    assert(now[j].0 == listed_name(q));
                }
            }
        }
    }

    proof fn lemma_prefix_len(&self)
        ensures
            self.defined_prefix(PROP_COUNT as int).len() == self.defined_count(),
    {
        let one = |o: Option<V>| -> nat { if o is Some { 1nat } else { 0nat } };
        assert(self.defined_prefix(0).len() == 0);
        self.lemma_prefix_step(1);
        assert(self.defined_prefix(1).len() == one(self.opacity));
        self.lemma_prefix_step(2);
        assert(self.defined_prefix(2).len() == one(self.opacity) + one(self.x));
        self.lemma_prefix_step(3);
        assert(self.defined_prefix(3).len() == one(self.opacity) + one(self.x) + one(self.y));
        self.lemma_prefix_step(4);
        assert(self.defined_prefix(4).len() == one(self.opacity) + one(self.x) + one(self.y) + one(
            self.scale,
        ));
        self.lemma_prefix_step(5);
        assert(self.defined_prefix(5).len() == one(self.opacity) + one(self.x) + one(self.y) + one(
            self.scale,
        ) + one(self.scale_x));
        self.lemma_prefix_step(6);
        assert(self.defined_prefix(6).len() == one(self.opacity) + one(self.x) + one(self.y) + one(
            self.scale,
        ) + one(self.scale_x) + one(self.scale_y));
        self.lemma_prefix_step(7);
    }

    /// The listing of defined properties is exact: it has one entry per
    /// defined field, every defined property appears in it with its listed
    /// name and value, every entry is the listed name and value of a defined
    /// property, and no name appears twice.
    pub proof fn lemma_defined_listing_exact(&self)
        ensures
            self.defined_prefix(PROP_COUNT as int).len() == self.defined_count(),
            forall|p: MotionProp|
                (#[trigger] self.field(p)) is Some ==> self.defined_prefix(PROP_COUNT as int).contains(
                    (listed_name(p), self.field(p).unwrap()),
                ),
            forall|i: int|
                0 <= i < self.defined_prefix(PROP_COUNT as int).len() ==> exists|p: MotionProp|
                    #[trigger] self.defined_prefix(PROP_COUNT as int)[i] == (
                        listed_name(p),
                        self.field(p).unwrap(),
                    ) && self.field(p) is Some,
            forall|i: int, j: int|
                0 <= i < j < self.defined_prefix(PROP_COUNT as int).len() ==> (
                #[trigger] self.defined_prefix(PROP_COUNT as int)[i]).0 != (
                #[trigger] self.defined_prefix(PROP_COUNT as int)[j]).0,
    {
        self.lemma_prefix_complete(PROP_COUNT as int);
        self.lemma_prefix_sound(PROP_COUNT as int);
        self.lemma_prefix_distinct(PROP_COUNT as int);
        self.lemma_prefix_len();
        assert forall|p: MotionProp| (#[trigger] self.field(p)) is Some implies self.defined_prefix(
            PROP_COUNT as int,
        ).contains((listed_name(p), self.field(p).unwrap())) by {
            lemma_index_roundtrip(p, 0);
        }
    }

    /// An empty bag.
    pub fn new() -> (props: Self)
        ensures
            forall|p: MotionProp| (#[trigger] props.field(p)) is None,
    {
        AnimProps {
            opacity: None,
            x: None,
            y: None,
            scale: None,
            scale_x: None,
            scale_y: None,
            rotate: None,
        }
    }

    /// Sets `opacity`.
    pub fn opacity(self, v: V) -> (props: Self)
        ensures
            props == (AnimProps { opacity: Some(v), ..self }),
    {
        AnimProps { opacity: Some(v), ..self }
    }

    /// Sets `x`.
    pub fn x(self, v: V) -> (props: Self)
        ensures
            props == (AnimProps { x: Some(v), ..self }),
    {
        AnimProps { x: Some(v), ..self }
    }

    /// Sets `y`.
    pub fn y(self, v: V) -> (props: Self)
        ensures
            props == (AnimProps { y: Some(v), ..self }),
    {
        AnimProps { y: Some(v), ..self }
    }

    /// Sets `scale`.
    pub fn scale(self, v: V) -> (props: Self)
        ensures
            props == (AnimProps { scale: Some(v), ..self }),
    {
        AnimProps { scale: Some(v), ..self }
    }

    /// Sets `scale_x`.
    pub fn scale_x(self, v: V) -> (props: Self)
        ensures
            props == (AnimProps { scale_x: Some(v), ..self }),
    {
        AnimProps { scale_x: Some(v), ..self }
    }

    /// Sets `scale_y`.
    pub fn scale_y(self, v: V) -> (props: Self)
        ensures
            props == (AnimProps { scale_y: Some(v), ..self }),
    {
        AnimProps { scale_y: Some(v), ..self }
    }

    /// Sets `rotate`.
    pub fn rotate(self, v: V) -> (props: Self)
        ensures
            props == (AnimProps { rotate: Some(v), ..self }),
    {
        AnimProps { rotate: Some(v), ..self }
    }
}

impl<V: Copy> AnimProps<V> {
    /// The value stored for `prop`.
    pub fn value_for(&self, prop: MotionProp) -> (value: Option<V>)
        ensures
            value == self.field(prop),
    {
        match prop {
            MotionProp::Opacity => self.opacity,
            MotionProp::X => self.x,
            MotionProp::Y => self.y,
            MotionProp::Scale => self.scale,
            MotionProp::ScaleX => self.scale_x,
            MotionProp::ScaleY => self.scale_y,
            MotionProp::Rotate => self.rotate,
        }
    }

    /// Merges two bags: a value defined in `other` wins, else the value of
    /// `self` is kept.
    pub fn merge(&self, other: &AnimProps<V>) -> (merged: AnimProps<V>)
        ensures
            forall|p: MotionProp|
                (#[trigger] merged.field(p)) == match other.field(p) {
                    Some(v) => Some(v),
                    None => self.field(p),
                },
    {
        AnimProps {
            opacity: match other.opacity {
                Some(v) => Some(v),
                None => self.opacity,
            },
            x: match other.x {
                Some(v) => Some(v),
                None => self.x,
            },
            y: match other.y {
                Some(v) => Some(v),
                None => self.y,
            },
            scale: match other.scale {
                Some(v) => Some(v),
                None => self.scale,
            },
            scale_x: match other.scale_x {
                Some(v) => Some(v),
                None => self.scale_x,
            },
            scale_y: match other.scale_y {
                Some(v) => Some(v),
                None => self.scale_y,
            },
            rotate: match other.rotate {
                Some(v) => Some(v),
                None => self.rotate,
            },
        }
    }

    /// The name under which `prop` is listed by [`AnimProps::defined_props`].
    pub fn listed_name_of(prop: MotionProp) -> (name: &'static str)
        ensures
            name@ == listed_name(prop),
            prop == MotionProp::Opacity ==> name@ == "opacity"@,
            prop == MotionProp::X ==> name@ == "x"@,
            prop == MotionProp::Y ==> name@ == "y"@,
            prop == MotionProp::Scale ==> name@ == "scale"@,
            prop == MotionProp::ScaleX ==> name@ == "scale_x"@,
            prop == MotionProp::ScaleY ==> name@ == "scale_y"@,
            prop == MotionProp::Rotate ==> name@ == "rotate"@,
    {
        match prop {
            MotionProp::Opacity => "opacity",
            MotionProp::X => "x",
            MotionProp::Y => "y",
            MotionProp::Scale => "scale",
            MotionProp::ScaleX => "scale_x",
            MotionProp::ScaleY => "scale_y",
            MotionProp::Rotate => "rotate",
        }
    }

    /// The defined properties as `(name, value)` pairs, in the order
    /// opacity, x, y, scale, scale_x, scale_y, rotate.
    pub fn defined_props(&self) -> (defined: Vec<(&'static str, V)>)
        ensures
            defined@.len() == self.defined_prefix(PROP_COUNT as int).len(),
            forall|i: int|
                0 <= i < defined@.len() ==> (#[trigger] defined@[i]).0@ == self.defined_prefix(
                    PROP_COUNT as int,
                )[i].0 && defined@[i].1 == self.defined_prefix(PROP_COUNT as int)[i].1,
            defined@.len() == self.defined_count(),
            forall|p: MotionProp|
                (#[trigger] self.field(p)) is Some ==> exists|i: int|
                    0 <= i < defined@.len() && (#[trigger] defined@[i]).0@ == listed_name(p)
                        && defined@[i].1 == self.field(p).unwrap(),
    {
        proof {
            self.lemma_defined_listing_exact();
        }
        let props = MotionProp::all();
        let mut defined: Vec<(&'static str, V)> = Vec::new();
        let mut i: usize = 0;
        while i < PROP_COUNT
            invariant
                props.len() == PROP_COUNT,
                forall|j: int| 0 <= j < PROP_COUNT ==> prop_at(j) == Some(#[trigger] props@[j]),
                0 <= i <= PROP_COUNT,
                defined@.len() == self.defined_prefix(i as int).len(),
                forall|k: int|
                    0 <= k < defined@.len() ==> (#[trigger] defined@[k]).0@
                        == self.defined_prefix(i as int)[k].0 && defined@[k].1
                        == self.defined_prefix(i as int)[k].1,
            decreases PROP_COUNT - i,
        {
            let prop = props[i];
            match self.value_for(prop) {
                Some(v) => defined.push((Self::listed_name_of(prop), v)),
                None => {},
            }
            i = i + 1;
        }
        proof {
            let all = self.defined_prefix(PROP_COUNT as int);
            assert forall|p: MotionProp| (#[trigger] self.field(p)) is Some implies exists|i: int|
                0 <= i < defined@.len() && (#[trigger] defined@[i]).0@ == listed_name(p)
                    && defined@[i].1 == self.field(p).unwrap() by {
                assert(all.contains((listed_name(p), self.field(p).unwrap())));
                let k = choose|k: int| 0 <= k < all.len() && all[k] == (listed_name(p), self.field(p).unwrap());
                assert(defined@[k].0@ == all[k].0);
            }
        }
        defined
    }
}

impl<V> Default for AnimProps<V> {
    /// An empty bag.
    fn default() -> (props: Self)
        ensures
            forall|p: MotionProp| (#[trigger] props.field(p)) is None,
    {
        AnimProps::new()
    }
}

} // verus!
