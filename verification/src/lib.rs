//! Slik: the decision core of a motion library for Leptos.
//!
//! This crate holds the parts of the motion system that decide and compose:
//! property identities and ownership masks, the plan for composing inline DOM
//! styles, keyframe and transition validation, keyframe segment lookup,
//! per-property transition resolution, the reduced-motion and retarget
//! policies of animated values, and the slot tables that animation runtimes
//! allocate from. Animated values themselves are floats and live with the
//! caller; where a decision rests on a float comparison, the float is given
//! by its total-order key (see [`keyframe`]).

pub mod style;
pub mod transition;
pub mod props;
pub mod keyframe;
pub mod runtime;
pub mod scheduler;
pub mod binding;
