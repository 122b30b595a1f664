//! A pannable, zoomable 2D viewport controller.
//!
//! The library is the camera/view state machine of a whiteboard-style
//! window: it turns pointer and wheel events into a camera transform
//! (pan, zoom, drag state) and keeps per-frame timing. Window creation,
//! event polling, drawing and the clock belong to the host rendering
//! layer, which feeds plain values into this crate.

pub mod event;
pub mod laws;
pub mod rat;
pub mod viewport;

pub use event::Button;
pub use event::Event;
pub use rat::Rat;
pub use viewport::View;
pub use viewport::WhiteboardWindow;
