use vstd::prelude::*;

verus! {

/// A mouse button, mirroring the buttons the host window layer reports.
#[derive(Clone, Copy, Debug, PartialEq, Eq, Structural)]
pub enum Button {
    Left,
    Right,
    Middle,
    XButton1,
    XButton2,
}

/// An input event as the controller sees it.
///
/// The host event loop translates its own event type into this one and
/// feeds every event to `WhiteboardWindow::observe` before acting on it
/// itself. A wheel delta is carried in thousandths of a scroll step, so
/// the controller's `delta < 1` threshold reads `delta_thousandths < 1000`.
/// Events the controller does not react to arrive as `Other`.
#[derive(Clone, Copy, Debug)]
pub enum Event {
    MouseWheelScrolled { delta_thousandths: i64 },
    MouseMoved { x: i32, y: i32 },
    MouseButtonPressed { button: Button, x: i32, y: i32 },
    MouseButtonReleased { button: Button, x: i32, y: i32 },
    Other,
}

} // verus!
