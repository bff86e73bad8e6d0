//! Nested, timer-driven tooltip panels over a host scene tree.
//!
//! Text or nodes in the host's scene can be linked to named content; hovering
//! or middle-clicking a link opens a floating info panel, panels can contain
//! further links that open panels nested to unbounded depth, and panels
//! auto-dismiss on disinterest unless locked.
//!
//! The crate is a pure interaction state machine: the host feeds it pointer
//! samples, layout rectangles and elapsed time each tick, and mirrors the
//! panel tree it maintains into its own scene. All rendering, styling and
//! input reading stay on the host's side.

pub mod cascade;
pub mod content;
pub mod events;
pub mod geometry;
pub mod highlight;
pub mod hittest;
pub mod laws;
pub mod layout;
pub mod query;
pub mod system;
pub mod term;
