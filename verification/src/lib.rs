//! Pointer handling for a scrolling tiling window manager: which window takes
//! focus when the pointer moves, how clicks are tracked, what a drag reports, and where the
//! pointer is warped when it reaches the horizontal edge of a display.

pub mod geometry;
pub mod search;
pub mod warp;
pub mod windows;
pub mod focus;
pub mod click;
pub mod drag;
