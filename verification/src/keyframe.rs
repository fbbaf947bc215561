//! Keyframe validation.
//!
//! A keyframe offset (and an absolute keyframe value, and a duration) is a
//! float. Here each such float is given by its *total-order key*: the `i64`
//! by which `f64::total_cmp` orders floats, that is the float's bits read as
//! an `i64`, with the 63 low bits flipped when the sign bit is set. Keys order
//! exactly as `total_cmp` orders the floats, and the float comparisons that
//! validation makes read off the keys as follows:
//!
//! * `x == 0.0` holds exactly for the keys of `+0.0` (`0`) and `-0.0` (`-1`);
//! * `x == 1.0` holds exactly for [`ONE_KEY`];
//! * `x.is_finite()` holds exactly for keys strictly between
//!   [`NEG_INFINITY_KEY`] and [`INFINITY_KEY`];
//! * `0.0 <= x && x <= 1.0` holds exactly for keys from `-1` to [`ONE_KEY`];
//! * for `a` and `b` that are not NaN, `a <= b` holds exactly when the key of
//!   `a` is at most the key of `b`, or both are zeros of either sign; a NaN
//!   has a key above that of `f64::INFINITY` or below that of
//!   `f64::NEG_INFINITY`.
use vstd::prelude::*;
use vstd::set_lib::*;

verus! {

/// The total-order key of `1.0`.
pub const ONE_KEY: i64 = 4607182418800017408;

/// The total-order key of `f64::INFINITY`.
pub const INFINITY_KEY: i64 = 9218868437227405312;

/// The total-order key of `f64::NEG_INFINITY`.
pub const NEG_INFINITY_KEY: i64 = -9218868437227405313;

/// Why a keyframe sequence was rejected.
#[derive(Debug, Clone, Copy, PartialEq, Eq, Structural)]
pub enum KeyframeError {
    /// No keyframes were given.
    Empty,
    /// Only one keyframe was given.
    NeedsAtLeastTwo,
    /// The duration is not finite and non-negative.
    DurationMustBeFinite,
    /// An offset is not finite.
    OffsetNotFinite,
    /// An offset lies outside `0.0..=1.0`.
    OffsetOutOfRange,
    /// The smallest offset is not `0.0`.
    OffsetsMustStartAtZero,
    /// The largest offset is not `1.0`.
    OffsetsMustEndAtOne,
    /// Two offsets are equal.
    OffsetsMustIncrease,
    /// An absolute keyframe value is not finite.
    AbsoluteValueNotFinite,
    /// The last keyframe does not use the target value.
    FinalKeyframeMustTarget,
}

impl KeyframeError {
    /// The human-readable description of this error.
    pub fn message(&self) -> (text: &'static str)
        ensures
            *self == KeyframeError::Empty ==> text@ == "keyframes cannot be empty"@,
            *self == KeyframeError::NeedsAtLeastTwo ==> text@
                == "keyframes require at least two entries"@,
            *self == KeyframeError::DurationMustBeFinite ==> text@
                == "keyframe duration must be finite and non-negative"@,
            *self == KeyframeError::OffsetNotFinite ==> text@ == "keyframe offsets must be finite"@,
            *self == KeyframeError::OffsetOutOfRange ==> text@
                == "keyframe offsets must be between 0.0 and 1.0"@,
            *self == KeyframeError::OffsetsMustStartAtZero ==> text@
                == "the first keyframe offset must be 0.0"@,
            *self == KeyframeError::OffsetsMustEndAtOne ==> text@
                == "the last keyframe offset must be 1.0"@,
            *self == KeyframeError::OffsetsMustIncrease ==> text@
                == "keyframe offsets must be strictly increasing"@,
            *self == KeyframeError::AbsoluteValueNotFinite ==> text@
                == "absolute keyframe values must be finite"@,
            *self == KeyframeError::FinalKeyframeMustTarget ==> text@
                == "the final keyframe must use KeyframeValue::Target"@,
    {
        match self {
            KeyframeError::Empty => "keyframes cannot be empty",
            KeyframeError::NeedsAtLeastTwo => "keyframes require at least two entries",
            KeyframeError::DurationMustBeFinite => "keyframe duration must be finite and non-negative",
            KeyframeError::OffsetNotFinite => "keyframe offsets must be finite",
            KeyframeError::OffsetOutOfRange => "keyframe offsets must be between 0.0 and 1.0",
            KeyframeError::OffsetsMustStartAtZero => "the first keyframe offset must be 0.0",
            KeyframeError::OffsetsMustEndAtOne => "the last keyframe offset must be 1.0",
            KeyframeError::OffsetsMustIncrease => "keyframe offsets must be strictly increasing",
            KeyframeError::AbsoluteValueNotFinite => "absolute keyframe values must be finite",
            KeyframeError::FinalKeyframeMustTarget => "the final keyframe must use KeyframeValue::Target",
        }
    }
}

/// The value of a keyframe, with an absolute value given by its key.
#[derive(Debug, Clone, Copy, PartialEq, Eq, Structural)]
pub enum KeyframeValueKey {
    /// The live value when the animation starts.
    Current,
    /// The requested target.
    Target,
    /// A literal value, given by its total-order key.
    Absolute(i64),
}

/// A keyframe as validation sees it: its offset's key and its value.
#[derive(Debug, Clone, Copy, PartialEq, Eq, Structural)]
pub struct KeyframeKey {
    /// Total-order key of the offset.
    pub offset: i64,
    /// The keyframe's value.
    pub value: KeyframeValueKey,
}

/// The key is that of a NaN.
pub open spec fn key_is_nan(k: i64) -> bool {
    k > INFINITY_KEY || k < NEG_INFINITY_KEY
}

/// The float comparison `a <= b`, read off the keys of `a` and `b`.
pub open spec fn float_le(a: i64, b: i64) -> bool {
    !key_is_nan(a) && !key_is_nan(b) && key_at_most(a, b)
}

/// The key is that of `+0.0` or `-0.0`.
pub open spec fn key_is_zero(k: i64) -> bool {
    k == 0 || k == -1
}

/// The key is that of a finite float.
pub open spec fn key_is_finite(k: i64) -> bool {
    NEG_INFINITY_KEY < k < INFINITY_KEY
}

/// The key is that of a float in `0.0..=1.0`.
pub open spec fn key_in_unit_interval(k: i64) -> bool {
    -1 <= k <= ONE_KEY
}

/// For keys of finite floats: the first float is at most the second.
pub open spec fn key_at_most(a: i64, b: i64) -> bool {
    a <= b || (key_is_zero(a) && key_is_zero(b))
}

/// The key is that of a finite, non-negative float (`-0.0` included).
pub open spec fn duration_key_valid(k: i64) -> bool {
    -1 <= k < INFINITY_KEY
}

/// Keyframe `i` comes before keyframe `j` in a stable sort by offset.
pub open spec fn sorts_before(ks: Seq<KeyframeKey>, i: int, j: int) -> bool {
    ks[i].offset < ks[j].offset || (ks[i].offset == ks[j].offset && i < j)
}

/// `order` lists the positions of `ks` sorted by offset key, equal keys kept
/// in their input order.
pub open spec fn is_stable_order(ks: Seq<KeyframeKey>, order: Seq<usize>) -> bool {
    &&& order.len() == ks.len()
    &&& forall|p: int| 0 <= p < order.len() ==> #[trigger] order[p] < ks.len()
    &&& forall|p: int, q: int|
        0 <= p < q < order.len() ==> sorts_before(ks, #[trigger] order[p] as int, #[trigger] order[q] as int)
}

/// The keyframes of `ks` taken in `order`.
pub open spec fn arranged(ks: Seq<KeyframeKey>, order: Seq<usize>) -> Seq<KeyframeKey> {
    Seq::new(order.len(), |p: int| ks[order[p] as int])
}

/// The first error met when scanning sorted keyframes from position `i` on:
/// per keyframe, in this order, a non-finite offset, an offset outside
/// `0.0..=1.0`, an offset not above the previous one, a non-finite absolute
/// value.
pub open spec fn scan_error(s: Seq<KeyframeKey>, i: int) -> Option<KeyframeError>
    decreases s.len() - i,
{
    if i < 0 || i >= s.len() {
        None
    } else if !key_is_finite(s[i].offset) {
        Some(KeyframeError::OffsetNotFinite)
    } else if !key_in_unit_interval(s[i].offset) {
        Some(KeyframeError::OffsetOutOfRange)
    } else if i > 0 && key_at_most(s[i].offset, s[i - 1].offset) {
        Some(KeyframeError::OffsetsMustIncrease)
    } else if s[i].value matches KeyframeValueKey::Absolute(v) && !key_is_finite(v) {
        Some(KeyframeError::AbsoluteValueNotFinite)
    } else {
        scan_error(s, i + 1)
    }
}

/// The error of a sorted keyframe sequence of at least two entries, if any.
pub open spec fn sorted_error(s: Seq<KeyframeKey>) -> Option<KeyframeError> {
    if !key_is_zero(s[0].offset) {
        Some(KeyframeError::OffsetsMustStartAtZero)
    } else if s.last().offset != ONE_KEY {
        Some(KeyframeError::OffsetsMustEndAtOne)
    } else if s.last().value != KeyframeValueKey::Target {
        Some(KeyframeError::FinalKeyframeMustTarget)
    } else {
        scan_error(s, 0)
    }
}

/// The error with which keyframes `ks` and a duration key are rejected, given
/// the stable order of `ks` by offset; `None` when they are accepted.
pub open spec fn keyframe_error(ks: Seq<KeyframeKey>, duration: i64, order: Seq<usize>) -> Option<
    KeyframeError,
> {
    if ks.len() == 0 {
        Some(KeyframeError::Empty)
    } else if ks.len() < 2 {
        Some(KeyframeError::NeedsAtLeastTwo)
    } else if !duration_key_valid(duration) {
        Some(KeyframeError::DurationMustBeFinite)
    } else {
        sorted_error(arranged(ks, order))
    }
}

/// Keyframe `j` of a sorted sequence passes the per-keyframe rules: a finite
/// offset in `0.0..=1.0`, above the previous offset, and a finite value if
/// the value is absolute.
pub open spec fn keyframe_ok_at(s: Seq<KeyframeKey>, j: int) -> bool {
    &&& key_is_finite(s[j].offset)
    &&& key_in_unit_interval(s[j].offset)
    &&& j > 0 ==> !key_at_most(s[j].offset, s[j - 1].offset)
    &&& s[j].value matches KeyframeValueKey::Absolute(v) ==> key_is_finite(v)
}

/// The rules of a keyframe sequence, in sorted order: at least two
/// keyframes, the first offset `0.0`, the last `1.0`, offsets strictly
/// increasing, finite and in `0.0..=1.0`, absolute values finite, and the
/// final keyframe targeting.
pub open spec fn keyframes_well_formed(s: Seq<KeyframeKey>) -> bool {
    &&& s.len() >= 2
    &&& key_is_zero(s[0].offset)
    &&& s.last().offset == ONE_KEY
    &&& s.last().value == KeyframeValueKey::Target
    &&& forall|j: int| 0 <= j < s.len() ==> #[trigger] keyframe_ok_at(s, j)
}

proof fn lemma_scan_passes(s: Seq<KeyframeKey>, i: int)
    requires
        0 <= i <= s.len(),
    ensures
        scan_error(s, i) is None <==> forall|j: int| i <= j < s.len() ==> #[trigger] keyframe_ok_at(s, j),
    decreases s.len() - i,
{
    if i < s.len() {
        lemma_scan_passes(s, i + 1);
        if !keyframe_ok_at(s, i) {
            assert(scan_error(s, i) is Some);
        } else {
            assert(scan_error(s, i) == scan_error(s, i + 1));
        }
    }
}

/// Keyframes are accepted exactly when the duration is finite and
/// non-negative and, sorted stably by offset, they follow the rules of
/// [`keyframes_well_formed`].
pub proof fn lemma_accepted_iff_well_formed(ks: Seq<KeyframeKey>, duration: i64, order: Seq<usize>)
    requires
        is_stable_order(ks, order),
    ensures
        keyframe_error(ks, duration, order) is None <==> duration_key_valid(duration)
            && keyframes_well_formed(arranged(ks, order)),
{
    let s = arranged(ks, order);
    if s.len() >= 2 {
        lemma_scan_passes(s, 0);
    }
}

/// The first keyframe from position `i` on that breaks the per-keyframe
/// rules is keyframe `j`.
pub open spec fn first_bad_from(s: Seq<KeyframeKey>, i: int, j: int) -> bool {
    &&& i <= j < s.len()
    &&& !keyframe_ok_at(s, j)
    &&& forall|k: int| i <= k < j ==> #[trigger] keyframe_ok_at(s, k)
}

proof fn lemma_scan_error_kind(s: Seq<KeyframeKey>, i: int)
    requires
        0 <= i <= s.len(),
    ensures
        scan_error(s, i) matches Some(e) ==> exists|j: int| {
            &&& #[trigger] first_bad_from(s, i, j)
            &&& e == KeyframeError::OffsetNotFinite <==> !key_is_finite(s[j].offset)
            &&& e == KeyframeError::OffsetOutOfRange <==> key_is_finite(s[j].offset)
                && !key_in_unit_interval(s[j].offset)
            &&& e == KeyframeError::OffsetsMustIncrease <==> key_is_finite(s[j].offset)
                && key_in_unit_interval(s[j].offset) && j > 0 && key_at_most(s[j].offset, s[j - 1].offset)
            &&& e == KeyframeError::AbsoluteValueNotFinite <==> key_is_finite(s[j].offset)
                && key_in_unit_interval(s[j].offset) && !(j > 0 && key_at_most(s[j].offset, s[j - 1].offset))
        },
    decreases s.len() - i,
{
    if i < s.len() {
        lemma_scan_error_kind(s, i + 1);
        if keyframe_ok_at(s, i) {
            if scan_error(s, i + 1) is Some {
                let j = choose|j: int| #[trigger] first_bad_from(s, i + 1, j) && {
                    let e = scan_error(s, i + 1).unwrap();
                    &&& e == KeyframeError::OffsetNotFinite <==> !key_is_finite(s[j].offset)
                    &&& e == KeyframeError::OffsetOutOfRange <==> key_is_finite(s[j].offset)
                        && !key_in_unit_interval(s[j].offset)
                    &&& e == KeyframeError::OffsetsMustIncrease <==> key_is_finite(s[j].offset)
                        && key_in_unit_interval(s[j].offset) && j > 0 && key_at_most(s[j].offset, s[j - 1].offset)
                    &&& e == KeyframeError::AbsoluteValueNotFinite <==> key_is_finite(s[j].offset)
                        && key_in_unit_interval(s[j].offset) && !(j > 0 && key_at_most(s[j].offset, s[j - 1].offset))
                };
                assert(first_bad_from(s, i, j));
            }
        } else {
            assert(first_bad_from(s, i, i));
        }
    }
}

/// Which error rejects keyframes: an empty sequence, then a single keyframe,
/// then a duration that is not finite and non-negative; then, in the stable
/// order by offset, a first offset that is not zero, a last offset that is
/// not one, a last keyframe that does not target; then the first keyframe
/// that breaks the per-keyframe rules names the first rule it breaks: a
/// non-finite offset, an offset outside `0.0..=1.0`, an offset not above the
/// previous one, a non-finite absolute value.
pub proof fn lemma_keyframe_error_cases(ks: Seq<KeyframeKey>, duration: i64, order: Seq<usize>)
    requires
        is_stable_order(ks, order),
    ensures
        keyframe_error(ks, duration, order) == Some(KeyframeError::Empty) <==> ks.len() == 0,
        keyframe_error(ks, duration, order) == Some(KeyframeError::NeedsAtLeastTwo) <==> ks.len() == 1,
        keyframe_error(ks, duration, order) == Some(KeyframeError::DurationMustBeFinite) <==> ks.len() >= 2
            && !(-1 <= duration < INFINITY_KEY),
        keyframe_error(ks, duration, order) == Some(KeyframeError::OffsetsMustStartAtZero) <==> ks.len() >= 2
            && -1 <= duration < INFINITY_KEY && !key_is_zero(arranged(ks, order)[0].offset),
        keyframe_error(ks, duration, order) == Some(KeyframeError::OffsetsMustEndAtOne) <==> ks.len() >= 2
            && -1 <= duration < INFINITY_KEY && key_is_zero(arranged(ks, order)[0].offset)
            && arranged(ks, order).last().offset != ONE_KEY,
        keyframe_error(ks, duration, order) == Some(KeyframeError::FinalKeyframeMustTarget) <==> ks.len() >= 2
            && -1 <= duration < INFINITY_KEY && key_is_zero(arranged(ks, order)[0].offset)
            && arranged(ks, order).last().offset == ONE_KEY && arranged(ks, order).last().value
            != KeyframeValueKey::Target,
        keyframe_error(ks, duration, order) matches Some(e) ==> (e == KeyframeError::OffsetNotFinite || e
            == KeyframeError::OffsetOutOfRange || e == KeyframeError::OffsetsMustIncrease || e
            == KeyframeError::AbsoluteValueNotFinite) ==> ks.len() >= 2 && -1 <= duration < INFINITY_KEY
            && key_is_zero(arranged(ks, order)[0].offset) && arranged(ks, order).last().offset == ONE_KEY
            && arranged(ks, order).last().value == KeyframeValueKey::Target && exists|j: int| {
            &&& #[trigger] first_bad_from(arranged(ks, order), 0, j)
            &&& e == KeyframeError::OffsetNotFinite <==> !key_is_finite(arranged(ks, order)[j].offset)
            &&& e == KeyframeError::OffsetOutOfRange <==> key_is_finite(arranged(ks, order)[j].offset)
                && !key_in_unit_interval(arranged(ks, order)[j].offset)
            &&& e == KeyframeError::OffsetsMustIncrease <==> key_is_finite(arranged(ks, order)[j].offset)
                && key_in_unit_interval(arranged(ks, order)[j].offset) && j > 0 && key_at_most(
                arranged(ks, order)[j].offset,
                arranged(ks, order)[j - 1].offset,
            )
            &&& e == KeyframeError::AbsoluteValueNotFinite <==> key_is_finite(
                arranged(ks, order)[j].offset,
            ) && key_in_unit_interval(arranged(ks, order)[j].offset) && !(j > 0 && key_at_most(
                arranged(ks, order)[j].offset,
                arranged(ks, order)[j - 1].offset,
            ))
        },
{
    let s = arranged(ks, order);
    if ks.len() >= 2 {
        lemma_scan_error_kind(s, 0);
        lemma_scan_never_heads(s, 0);
    }
}

proof fn lemma_scan_never_heads(s: Seq<KeyframeKey>, i: int)
    requires
        0 <= i <= s.len(),
    ensures
        scan_error(s, i) matches Some(e) ==> e == KeyframeError::OffsetNotFinite || e
            == KeyframeError::OffsetOutOfRange || e == KeyframeError::OffsetsMustIncrease || e
            == KeyframeError::AbsoluteValueNotFinite,
    decreases s.len() - i,
{
    if i < s.len() {
        lemma_scan_never_heads(s, i + 1);
    }
}

/// A stable order lists every position exactly once.
proof fn lemma_order_covers(ks: Seq<KeyframeKey>, order: Seq<usize>, j: int)
    requires
        is_stable_order(ks, order),
        0 <= j < ks.len(),
    ensures
        exists|p: int| 0 <= p < order.len() && order[p] == j,
{
    let n = ks.len() as int;
    let as_int = Seq::new(order.len(), |p: int| order[p] as int);
    assert(as_int.no_duplicates()) by {
        assert forall|p: int, q: int| 0 <= p < as_int.len() && 0 <= q < as_int.len() && p != q implies as_int[p] != as_int[q] by {
            if p < q {
                assert(sorts_before(ks, order[p] as int, order[q] as int));
            } else {
                assert(sorts_before(ks, order[q] as int, order[p] as int));
            }
        }
    }
    as_int.unique_seq_to_set();
    lemma_int_range(0, n);
    let range = set_int_range(0, n);
    assert(as_int.to_set().subset_of(range)) by {
        assert forall|x: int| as_int.to_set().contains(x) implies range.contains(x) by {
            let p = choose|p: int| 0 <= p < as_int.len() && as_int[p] == x;
            assert(order[p] < ks.len());
        }
    }
    lemma_subset_equality(as_int.to_set(), range);
    assert(range.contains(j));
    assert(as_int.to_set().contains(j));
    let p = choose|p: int| 0 <= p < as_int.len() && as_int[p] == j;
    assert(order[p] == j);
}

proof fn lemma_orders_agree_below(ks: Seq<KeyframeKey>, a: Seq<usize>, b: Seq<usize>, p: int)
    requires
        is_stable_order(ks, a),
        is_stable_order(ks, b),
        0 <= p <= ks.len(),
    ensures
        forall|q: int| 0 <= q < p ==> a[q] == b[q],
    decreases p,
{
    if p > 0 {
        lemma_orders_agree_below(ks, a, b, p - 1);
        let q = p - 1;
        lemma_order_covers(ks, b, a[q] as int);
        lemma_order_covers(ks, a, b[q] as int);
        let ia = choose|i: int| 0 <= i < b.len() && b[i] == a[q];
        let ib = choose|i: int| 0 <= i < a.len() && a[i] == b[q];
        if ia < q {
            assert(b[ia] == a[ia]);
            assert(sorts_before(ks, a[ia] as int, a[q] as int));
        }
        if ib < q {
            assert(a[ib] == b[ib]);
            assert(sorts_before(ks, b[ib] as int, b[q] as int));
        }
        if ia > q && ib > q {
            assert(sorts_before(ks, b[q] as int, b[ia] as int));
            assert(sorts_before(ks, a[q] as int, a[ib] as int));
        }
    }
}

/// There is at most one stable order of a keyframe sequence by offset.
pub proof fn lemma_stable_order_unique(ks: Seq<KeyframeKey>, a: Seq<usize>, b: Seq<usize>)
    requires
        is_stable_order(ks, a),
        is_stable_order(ks, b),
    ensures
        a == b,
{
    lemma_orders_agree_below(ks, a, b, ks.len() as int);
    assert(a =~= b);
}

/// Returns the positions of `keyframes` sorted by offset key, keyframes with
/// equal keys in their input order (the order of a stable sort by
/// `f64::total_cmp` on the offsets).
pub fn stable_offset_order(keyframes: &Vec<KeyframeKey>) -> (order: Vec<usize>)
    ensures
        is_stable_order(keyframes@, order@),
{
    let n = keyframes.len();
    let mut order: Vec<usize> = Vec::new();
    let mut i: usize = 0;
    while i < n
        invariant
            n == keyframes.len(),
            0 <= i <= n,
            order.len() == i,
            forall|p: int| 0 <= p < order.len() ==> #[trigger] order@[p] < i,
            forall|p: int, q: int|
                0 <= p < q < order.len() ==> sorts_before(
                    keyframes@,
                    #[trigger] order@[p] as int,
                    #[trigger] order@[q] as int,
                ),
        decreases n - i,
    {
        let key = keyframes[i].offset;
        let mut pos: usize = 0;
        while pos < order.len() && keyframes[order[pos]].offset <= key
            invariant
                n == keyframes.len(),
                i < n,
                key == keyframes@[i as int].offset,
                order.len() == i,
                forall|p: int| 0 <= p < order.len() ==> #[trigger] order@[p] < i,
                0 <= pos <= order.len(),
                forall|p: int| 0 <= p < pos ==> keyframes@[#[trigger] order@[p] as int].offset <= key,
            decreases order.len() - pos,
        {
            pos = pos + 1;
        }
        proof {
            assert forall|p: int| pos <= p < order.len() implies key < keyframes@[#[trigger] order@[p] as int].offset by {
                if p > pos {
                    assert(sorts_before(keyframes@, order@[pos as int] as int, order@[p] as int));
                }
            }
        }
        let ghost before = order@;
        order.insert(pos, i);
        proof {
            assert forall|p: int| 0 <= p < order.len() implies #[trigger] order@[p] < i + 1 by {
                if p < pos {
                    assert(order@[p] == before[p]);
                } else if p > pos {
                    assert(order@[p] == before[p - 1]);
                }
            }
            assert forall|p: int, q: int|
                0 <= p < q < order.len() implies sorts_before(
                keyframes@,
                #[trigger] order@[p] as int,
                #[trigger] order@[q] as int,
            ) by {
                if p < pos && q < pos {
                    assert(order@[p] == before[p] && order@[q] == before[q]);
                } else if p < pos && q == pos {
                    assert(order@[p] == before[p]);
                } else if p < pos && q > pos {
                    assert(order@[p] == before[p] && order@[q] == before[q - 1]);
                    assert(keyframes@[before[p] as int].offset <= key);
                } else if p == pos {
                    assert(order@[q] == before[q - 1]);
                } else {
                    assert(order@[p] == before[p - 1] && order@[q] == before[q - 1]);
                }
            }
        }
        i = i + 1;
    }
    order
}

fn is_zero_key(k: i64) -> (zero: bool)
    ensures
        zero == key_is_zero(k),
{
    k == 0 || k == -1
}

fn is_finite_key(k: i64) -> (finite: bool)
    ensures
        finite == key_is_finite(k),
{
    NEG_INFINITY_KEY < k && k < INFINITY_KEY
}

/// The checks of [`validate_keyframes`], in order.
fn check_keyframes(keyframes: &Vec<KeyframeKey>, duration: i64) -> (result: Result<
    Vec<usize>,
    KeyframeError,
>)
    ensures
        result matches Ok(order) ==> is_stable_order(keyframes@, order@),
        forall|order: Seq<usize>|
            is_stable_order(keyframes@, order) ==> match result {
                Ok(_) => keyframe_error(keyframes@, duration, order) is None,
                Err(e) => keyframe_error(keyframes@, duration, order) == Some(e),
            },
        keyframes@.len() == 0 <==> result == Err::<Vec<usize>, KeyframeError>(KeyframeError::Empty),
        keyframes@.len() == 1 <==> result == Err::<Vec<usize>, KeyframeError>(
            KeyframeError::NeedsAtLeastTwo,
        ),
        keyframes@.len() >= 2 && !(-1 <= duration < INFINITY_KEY) <==> result == Err::<
            Vec<usize>,
            KeyframeError,
        >(KeyframeError::DurationMustBeFinite),
{
    let n = keyframes.len();
    if n == 0 {
        return Err(KeyframeError::Empty);
    }
    if n < 2 {
        return Err(KeyframeError::NeedsAtLeastTwo);
    }
    if !(-1 <= duration && duration < INFINITY_KEY) {
        return Err(KeyframeError::DurationMustBeFinite);
    }
    let order = stable_offset_order(keyframes);
    let ghost sorted = arranged(keyframes@, order@);
    proof {
        assert forall|o: Seq<usize>| is_stable_order(keyframes@, o) implies o == order@ by {
            lemma_stable_order_unique(keyframes@, o, order@);
        }
    }
    let first = keyframes[order[0]];
    let last = keyframes[order[n - 1]];
    assert(sorted[0] == first);
    assert(sorted.last() == last);
    if !is_zero_key(first.offset) {
        return Err(KeyframeError::OffsetsMustStartAtZero);
    }
    if last.offset != ONE_KEY {
        return Err(KeyframeError::OffsetsMustEndAtOne);
    }
    match last.value {
        KeyframeValueKey::Target => {},
        _ => {
            return Err(KeyframeError::FinalKeyframeMustTarget);
        },
    }
    assert(keyframe_error(keyframes@, duration, order@) == scan_error(sorted, 0));
    let mut p: usize = 0;
    let mut prev: i64 = 0;
    while p < n
        invariant
            forall|o: Seq<usize>| is_stable_order(keyframes@, o) ==> o == order@,
            keyframe_error(keyframes@, duration, order@) == scan_error(sorted, 0),
            n == keyframes.len(),
            n == order.len(),
            sorted == arranged(keyframes@, order@),
            is_stable_order(keyframes@, order@),
            0 <= p <= n,
            p > 0 ==> prev == sorted[p - 1].offset,
            scan_error(sorted, 0) == scan_error(sorted, p as int),
        decreases n - p,
    {
        let kf = keyframes[order[p]];
        assert(kf == sorted[p as int]);
        if !is_finite_key(kf.offset) {
            return Err(KeyframeError::OffsetNotFinite);
        }
        if !(-1 <= kf.offset && kf.offset <= ONE_KEY) {
            return Err(KeyframeError::OffsetOutOfRange);
        }
        if p > 0 && (kf.offset <= prev || (is_zero_key(kf.offset) && is_zero_key(prev))) {
            return Err(KeyframeError::OffsetsMustIncrease);
        }
        match kf.value {
            KeyframeValueKey::Absolute(v) => {
                if !is_finite_key(v) {
                    return Err(KeyframeError::AbsoluteValueNotFinite);
                }
            },
            _ => {},
        }
        prev = kf.offset;
        p = p + 1;
    }
    Ok(order)
}

/// Validates keyframes given by their keys, and a duration given by its key.
///
/// In order: an empty sequence, a sequence of one, and a duration that is not
/// finite and non-negative are rejected; then the keyframes are sorted stably
/// by offset; then the first offset must be `0.0`, the last `1.0`, the last
/// keyframe must target; then each keyframe in sorted order must have a finite
/// offset in `0.0..=1.0` above the previous one and, if absolute, a finite
/// value. On success, returns the sorted order.
pub fn validate_keyframes(keyframes: &Vec<KeyframeKey>, duration: i64) -> (result: Result<
    Vec<usize>,
    KeyframeError,
>)
    ensures
        result matches Ok(order) ==> is_stable_order(keyframes@, order@),
        forall|order: Seq<usize>|
            is_stable_order(keyframes@, order) ==> match result {
                Ok(_) => keyframe_error(keyframes@, duration, order) is None,
                Err(e) => keyframe_error(keyframes@, duration, order) == Some(e),
            },
        keyframes@.len() == 0 <==> result == Err::<Vec<usize>, KeyframeError>(KeyframeError::Empty),
        keyframes@.len() == 1 <==> result == Err::<Vec<usize>, KeyframeError>(
            KeyframeError::NeedsAtLeastTwo,
        ),
        keyframes@.len() >= 2 && !(-1 <= duration < INFINITY_KEY) <==> result == Err::<
            Vec<usize>,
            KeyframeError,
        >(KeyframeError::DurationMustBeFinite),
        forall|order: Seq<usize>|
            is_stable_order(keyframes@, order) ==> (result is Ok <==> (-1 <= duration < INFINITY_KEY
                && keyframes_well_formed(arranged(keyframes@, order)))),
{
    let result = check_keyframes(keyframes, duration);
    proof {
        assert forall|order: Seq<usize>| is_stable_order(keyframes@, order) implies (keyframe_error(
            keyframes@,
            duration,
            order,
        ) is None <==> (-1 <= duration < INFINITY_KEY && keyframes_well_formed(
            arranged(keyframes@, order),
        ))) by {
            lemma_accepted_iff_well_formed(keyframes@, duration, order);
        }
    }
    result
}

/// The segment of a keyframe sequence with offset keys `offsets` that a
/// normalized time with key `t` falls in: the first segment `i` (between
/// keyframes `i` and `i + 1`) whose end offset is at least `t`; when there is
/// none, the last segment (index `0` for fewer than two keyframes).
pub open spec fn segment_of(offsets: Seq<i64>, t: i64) -> int {
    if exists|i: int| 0 <= i < offsets.len() - 1 && float_le(t, #[trigger] offsets[i + 1]) {
        choose|i: int|
            0 <= i < offsets.len() - 1 && float_le(t, #[trigger] offsets[i + 1]) && forall|j: int|
                0 <= j < i ==> !float_le(t, #[trigger] offsets[j + 1])
    } else if offsets.len() >= 2 {
        offsets.len() - 2
    } else {
        0
    }
}

/// The segment a time falls in is a segment of the sequence (segment `0`
/// when there is none); if some segment ends at or after the time, it is the
/// first such segment: it ends at or after the time and every earlier one ends
/// before it; otherwise it is the last segment.
pub proof fn lemma_segment_is_first_reaching(offsets: Seq<i64>, t: i64)
    ensures
        offsets.len() >= 2 ==> 0 <= segment_of(offsets, t) < offsets.len() - 1,
        offsets.len() < 2 ==> segment_of(offsets, t) == 0,
        (exists|i: int| 0 <= i < offsets.len() - 1 && float_le(t, #[trigger] offsets[i + 1])) ==> {
            &&& float_le(t, offsets[segment_of(offsets, t) + 1])
            &&& forall|j: int| 0 <= j < segment_of(offsets, t) ==> !float_le(t, #[trigger] offsets[j + 1])
        },
        !(exists|i: int| 0 <= i < offsets.len() - 1 && float_le(t, #[trigger] offsets[i + 1]))
            && offsets.len() >= 2 ==> segment_of(offsets, t) == offsets.len() - 2,
{
    if exists|i: int| 0 <= i < offsets.len() - 1 && float_le(t, #[trigger] offsets[i + 1]) {
        lemma_first_reaching_exists(offsets, t, offsets.len() - 1);
    }
}

proof fn lemma_first_reaching_exists(offsets: Seq<i64>, t: i64, n: int)
    requires
        n <= offsets.len() - 1,
        exists|i: int| 0 <= i < n && float_le(t, #[trigger] offsets[i + 1]),
    ensures
        exists|i: int|
            0 <= i < offsets.len() - 1 && float_le(t, #[trigger] offsets[i + 1]) && forall|j: int|
                0 <= j < i ==> !float_le(t, #[trigger] offsets[j + 1]),
    decreases n,
{
    if exists|i: int| 0 <= i < n - 1 && float_le(t, #[trigger] offsets[i + 1]) {
        lemma_first_reaching_exists(offsets, t, n - 1);
    } else {
        let w = n - 1;
        assert(float_le(t, offsets[w + 1]));
        assert forall|j: int| 0 <= j < w implies !float_le(t, #[trigger] offsets[j + 1]) by {
            assert(!(0 <= j < n - 1 && float_le(t, offsets[j + 1])));
        }
    }
}

/// Finds the segment that the normalized time with key `t` falls in, for
/// keyframes with offset keys `offsets` in sorted order: the first segment
/// whose end offset is at or after `t`, else the last segment (`0` when
/// there are fewer than two keyframes).
pub fn segment_for(offsets: &Vec<i64>, t: i64) -> (segment: usize)
    ensures
        segment == segment_of(offsets@, t),
        offsets@.len() >= 2 ==> segment < offsets@.len() - 1,
        offsets@.len() < 2 ==> segment == 0,
        (exists|i: int| 0 <= i < offsets@.len() - 1 && float_le(t, #[trigger] offsets@[i + 1])) ==> {
            &&& float_le(t, offsets@[segment + 1])
            &&& forall|j: int| 0 <= j < segment ==> !float_le(t, #[trigger] offsets@[j + 1])
        },
        !(exists|i: int| 0 <= i < offsets@.len() - 1 && float_le(t, #[trigger] offsets@[i + 1]))
            && offsets@.len() >= 2 ==> segment == offsets@.len() - 2,
{
    proof {
        lemma_segment_is_first_reaching(offsets@, t);
    }
    let n = offsets.len();
    let mut i: usize = 0;
    while i + 1 < n
        invariant
            n == offsets.len(),
            0 <= i,
            i + 1 <= n || i == 0,
            forall|j: int| 0 <= j < i ==> !float_le(t, #[trigger] offsets@[j + 1]),
        decreases n - i,
    {
        let end = offsets[i + 1];
        let t_nan = t > INFINITY_KEY || t < NEG_INFINITY_KEY;
        let end_nan = end > INFINITY_KEY || end < NEG_INFINITY_KEY;
        if !t_nan && !end_nan && (t <= end || (is_zero_key(t) && is_zero_key(end))) {
            proof {
                let w = choose|k: int|
                    0 <= k < offsets@.len() - 1 && float_le(t, #[trigger] offsets@[k + 1]) && forall|
                        j: int,
                    |
                        0 <= j < k ==> !float_le(t, #[trigger] offsets@[j + 1]);
                assert(0 <= i < offsets@.len() - 1 && float_le(t, offsets@[i as int + 1]));
                if w < i {
                    assert(!float_le(t, offsets@[w + 1]));
                } else if w > i {
                    assert(!float_le(t, offsets@[i as int + 1]));
                }
            }
            return i;
        }
        i = i + 1;
    }
    proof {
        assert forall|k: int| 0 <= k < offsets@.len() - 1 implies !float_le(t, #[trigger] offsets@[k + 1]) by {
            assert(k < i);
        }
    }
    if n >= 2 {
        n - 2
    } else {
        0
    }
}

} // verus!
