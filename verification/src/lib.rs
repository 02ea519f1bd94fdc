//! Decision logic of three small Windows desktop helpers: a screen color
//! picker, a taskbar volume controller and mouse gestures for browser tabs.
//!
//! Everything that talks to the operating system lives outside this crate;
//! what is here is the part that decides: how arguments are read, how a
//! sampled color is decoded and written out, which key strokes a gesture
//! produces and whether a mouse event is consumed or passed on.

pub mod input;
pub mod text;
pub mod color_picker;
pub mod taskbar_volume;
pub mod thorium_tabs;
