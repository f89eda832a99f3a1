# vexo

The retained-mode core of a small UI framework, written in Verus with its
behaviour stated as contracts and proved.

- `src/` is the verified library: element keys and the element registry
  (a parent/child tree over a slot map, with subtree unmounting), the build
  owner's dirty list and its stable depth sort, layout/paint dirty tracking,
  the frame ticker, child operations, component key paths and the component
  host, the demo counter's state machine, and the chat list's preview and
  timestamp helpers. Floating-point values shared with the platform are held
  as bit patterns.
- `tests/` runs the library on concrete values.
- `app/` is the plain-Rust rest: a terminal driver for the click-counter
  demo, and the floating-point parts (colors, geometry, curves, simulations,
  the animation controller).
