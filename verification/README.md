# paneru pointer handling

The decisions a scrolling tiling window manager takes on pointer events,
verified with Verus:

- `src/focus.rs`: focus follows the mouse.
- `src/click.rs`: mouse-down and mouse-up (held windows, deferred reshuffle).
- `src/drag.rs`: drags, which are only reported.
- `src/warp.rs`: warping the pointer between vertically stacked displays.
- `src/geometry.rs`, `src/windows.rs`, `src/search.rs`: points and rectangles,
  window lookup, first-match search.

`app/lib.rs` holds the ECS observers that read the world, call the library and
carry out its plans.
