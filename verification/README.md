# slik

The verified core of Slik, a Motion-inspired animation library for Leptos.

`src/` is the library, written in Verus and verified:

- `style` — motion properties, their storage order, units and CSS names,
  ownership masks, sparse per-property styles, and the plan by which owned and
  animating properties become inline `opacity`, `transform` and `will-change`.
- `transition` — per-property transition maps (by property or by name),
  property-name parsing, and spring/tween parameter validation.
- `keyframe` — keyframe validation and ordering, and segment lookup.
- `binding` — reduced-motion policy, property ownership, animation activity,
  and the retarget policy of animated values.
- `props` — the bag of optional animatable properties.
- `runtime`, `scheduler` — the slot tables that animation runtimes allocate
  from.

Animated values are `f64`, and floats do not appear in the library. Where a
decision depends on a float comparison, the float is given by its total-order
key, the `i64` by which `f64::total_cmp` orders floats (see `src/keyframe.rs`);
types that only store values are generic over the value type.

`app/` is the Leptos side: floating-point curves and drivers, the reactive
bridge, DOM style patching, the `requestAnimationFrame` loop, HTML components,
and the `<Motion>` wrapper-component layer (`app/wrapper`). It calls the library
for every decision listed above.

`tests/` exercise the library on concrete values.
