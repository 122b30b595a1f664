use vstd::prelude::*;
use crate::rat::Rat;
use crate::rat::mul_fits;
use crate::rat::spec_mul;
use crate::rat::sub_fits;
use crate::rat::spec_sub;
use crate::event::Button;
use crate::event::Event;

verus! {

/// A 2D point or extent with exact rational coordinates.
#[derive(Clone, Copy, Debug)]
pub struct Vec2r {
    pub x: Rat,
    pub y: Rat,
}

/// A camera view: a center point and a view extent in world units.
#[derive(Clone, Copy, Debug)]
pub struct View {
    pub center: Vec2r,
    pub size: Vec2r,
}

impl Vec2r {
    pub open spec fn wf(self) -> bool {
        self.x.wf() && self.y.wf()
    }
}

impl View {
    pub open spec fn wf(self) -> bool {
        self.center.wf() && self.size.wf()
    }
}

/// The pan/zoom viewport controller.
///
/// It owns the pannable camera (`view`), the zoom accumulator, the
/// right-button drag state and the frame timing, all as plain values.
/// The host rendering layer owns the actual window; it reports every
/// input event through `observe`, asks `current_view` which transform
/// to install on the surface, and reports elapsed clock time to
/// `display`.
pub struct WhiteboardWindow {
    /// Window width in pixels at construction time.
    pub base_width: u32,
    /// Window height in pixels at construction time.
    pub base_height: u32,
    /// The pannable camera view.
    pub view: View,
    /// Multiplicative zoom accumulator; starts at 1 and stays positive.
    pub zoom: Rat,
    /// A right-button drag is in progress.
    pub right_down: bool,
    /// Pointer position last consumed by the drag, in pixels.
    pub right_down_last_pos: (i32, i32),
    /// The surface currently holds the fixed (screen-space) view rather
    /// than the pannable camera.
    pub fixed_active: bool,
    /// Clock reading at the previous `display`, in microseconds.
    pub previous_frame_time_us: i64,
    /// Time between the last two `display` calls, in microseconds.
    pub delta_time_us: i64,
    /// Frames per second derived from `delta_time_us`; 0 until two
    /// frames with distinct clock readings have been displayed.
    pub framerate: i32,
}

impl WhiteboardWindow {
    pub open spec fn wf(self) -> bool {
        &&& self.view.wf()
        &&& self.zoom.wf()
        &&& 0 <= self.previous_frame_time_us
    }

    /// The controller state right after construction: camera centered on
    /// the window, extent equal to the window, zoom 1, no drag, timing 0.
    pub open spec fn initial(width: u32, height: u32) -> WhiteboardWindow {
        WhiteboardWindow {
            base_width: width,
            base_height: height,
            view: View {
                center: Vec2r {
                    x: Rat { num: width as i64, den: 2 },
                    y: Rat { num: height as i64, den: 2 },
                },
                size: Vec2r {
                    x: Rat { num: width as i64, den: 1 },
                    y: Rat { num: height as i64, den: 1 },
                },
            },
            zoom: Rat { num: 1, den: 1 },
            right_down: false,
            right_down_last_pos: (0, 0),
            fixed_active: true,
            previous_frame_time_us: 0,
            delta_time_us: 0,
            framerate: 0,
        }
    }

    /// Builds the controller for a window of the given pixel size.
    ///
    /// The host creates the window itself (including any anti-aliasing
    /// settings); this establishes the matching camera state.
    pub fn new(width: u32, height: u32) -> (r: WhiteboardWindow)
        ensures
            r == WhiteboardWindow::initial(width, height),
            r.wf(),
    {
        WhiteboardWindow {
            base_width: width,
            base_height: height,
            view: View {
                center: Vec2r { x: Rat::new(width as i64, 2), y: Rat::new(height as i64, 2) },
                size: Vec2r { x: Rat::new(width as i64, 1), y: Rat::new(height as i64, 1) },
            },
            zoom: Rat::new(1, 1),
            right_down: false,
            right_down_last_pos: (0, 0),
            fixed_active: true,
            previous_frame_time_us: 0,
            delta_time_us: 0,
            framerate: 0,
        }
    }

    /// `self` with only the active-view flag changed.
    pub open spec fn with_fixed(self, fixed: bool) -> WhiteboardWindow {
        WhiteboardWindow { fixed_active: fixed, ..self }
    }

    /// The window's intrinsic default view: centered on the window with
    /// the window's own extent, independent of pan and zoom.
    pub open spec fn spec_default_view(self) -> View {
        View {
            center: Vec2r {
                x: Rat { num: self.base_width as i64, den: 2 },
                y: Rat { num: self.base_height as i64, den: 2 },
            },
            size: Vec2r {
                x: Rat { num: self.base_width as i64, den: 1 },
                y: Rat { num: self.base_height as i64, den: 1 },
            },
        }
    }

    /// The view the surface currently holds.
    pub open spec fn spec_current_view(self) -> View {
        if self.fixed_active {
            self.spec_default_view()
        } else {
            self.view
        }
    }

    /// Selects screen space (`true`) or the pannable camera (`false`)
    /// for subsequent drawing. The camera itself is untouched.
    pub fn set_fixed(&mut self, fixed: bool)
        ensures
            *final(self) == old(self).with_fixed(fixed),
    {
        self.fixed_active = fixed;
    }

    /// The zoom ratio a single wheel event applies: 11/10 when zooming
    /// out, 10/11 when zooming in.
    pub open spec fn zoom_ratio(out: bool) -> Rat {
        if out {
            Rat { num: 11, den: 10 }
        } else {
            Rat { num: 10, den: 11 }
        }
    }

    /// The zoom accumulator and both view-extent components can take one
    /// more factor of the given ratio without overflowing.
    pub open spec fn zoom_fits(self, out: bool) -> bool {
        &&& mul_fits(self.zoom, WhiteboardWindow::zoom_ratio(out))
        &&& mul_fits(self.view.size.x, WhiteboardWindow::zoom_ratio(out))
        &&& mul_fits(self.view.size.y, WhiteboardWindow::zoom_ratio(out))
    }

    /// One wheel event: the view extent and the zoom accumulator are
    /// scaled by the same ratio; an event whose exact result would
    /// overflow leaves the state unchanged.
    pub open spec fn zoom_step(self, out: bool) -> WhiteboardWindow {
        let ratio = WhiteboardWindow::zoom_ratio(out);
        if self.zoom_fits(out) {
            WhiteboardWindow {
                zoom: spec_mul(self.zoom, ratio),
                view: View {
                    center: self.view.center,
                    size: Vec2r {
                        x: spec_mul(self.view.size.x, ratio),
                        y: spec_mul(self.view.size.y, ratio),
                    },
                },
                ..self
            }
        } else {
            self
        }
    }

    /// The pointer delta of a move to `(x, y)`, as a rational.
    pub open spec fn pan_delta(self, x: i32, y: i32) -> Vec2r {
        Vec2r {
            x: Rat { num: (x - self.right_down_last_pos.0) as i64, den: 1 },
            y: Rat { num: (y - self.right_down_last_pos.1) as i64, den: 1 },
        }
    }

    /// The exact camera translation for a move to `(x, y)` fits in `i64`
    /// components on both axes.
    pub open spec fn pan_fits(self, x: i32, y: i32) -> bool {
        let d = self.pan_delta(x, y);
        &&& mul_fits(d.x, self.zoom)
        &&& mul_fits(d.y, self.zoom)
        &&& sub_fits(self.view.center.x, spec_mul(d.x, self.zoom))
        &&& sub_fits(self.view.center.y, spec_mul(d.y, self.zoom))
    }

    /// One pointer move while dragging: the camera center moves opposite
    /// to the pointer by the pointer delta scaled by the zoom
    /// accumulator, and the recorded pointer position advances. When the
    /// exact new center would overflow, only the recorded position
    /// advances.
    pub open spec fn pan_step(self, x: i32, y: i32) -> WhiteboardWindow {
        let d = self.pan_delta(x, y);
        let panned = if self.pan_fits(x, y) {
            WhiteboardWindow {
                view: View {
                    center: Vec2r {
                        x: spec_sub(self.view.center.x, spec_mul(d.x, self.zoom)),
                        y: spec_sub(self.view.center.y, spec_mul(d.y, self.zoom)),
                    },
                    size: self.view.size,
                },
                ..self
            }
        } else {
            self
        };
        WhiteboardWindow { right_down_last_pos: (x, y), ..panned }
    }

    /// The state transition `observe` applies for one event.
    pub open spec fn step(self, event: Event) -> WhiteboardWindow {
        match event {
            Event::MouseWheelScrolled { delta_thousandths } => self.zoom_step(
                delta_thousandths < 1000,
            ),
            Event::MouseMoved { x, y } => if self.right_down {
                self.pan_step(x, y)
            } else {
                self
            },
            Event::MouseButtonPressed { button, x, y } => if button == Button::Right {
                WhiteboardWindow { right_down: true, right_down_last_pos: (x, y), ..self }
            } else {
                self
            },
            Event::MouseButtonReleased { button, x: _, y: _ } => if button == Button::Right {
                WhiteboardWindow { right_down: false, ..self }
            } else {
                self
            },
            Event::Other => self,
        }
    }

    /// Applies one input event to the drag and camera state.
    ///
    /// The host polls its own event source, reports every event here,
    /// and then handles the same event itself: observing an event never
    /// consumes it. A wheel event with a delta below one full step zooms
    /// out, any other wheel event zooms in; pointer moves pan only while
    /// the right button is down; the right button starts and ends a drag.
    pub fn observe(&mut self, event: Event)
        requires
            old(self).wf(),
        ensures
            *final(self) == old(self).step(event),
            final(self).wf(),
    {
        match event {
            Event::MouseWheelScrolled { delta_thousandths } => {
                let ratio = if delta_thousandths < 1000 {
                    Rat::new(11, 10)
                } else {
                    Rat::new(10, 11)
                };
                match (
                    self.zoom.checked_mul(ratio),
                    self.view.size.x.checked_mul(ratio),
                    self.view.size.y.checked_mul(ratio),
                ) {
                    (Some(z), Some(sx), Some(sy)) => {
                        self.zoom = z;
                        self.view.size.x = sx;
                        self.view.size.y = sy;
                    },
                    _ => {},
                }
            },
            Event::MouseMoved { x, y } => {
                if self.right_down {
                    let dx: i64 = x as i64 - self.right_down_last_pos.0 as i64;
                    let dy: i64 = y as i64 - self.right_down_last_pos.1 as i64;
                    match (
                        Rat::from_int(dx).checked_mul(self.zoom),
                        Rat::from_int(dy).checked_mul(self.zoom),
                    ) {
                        (Some(mx), Some(my)) => {
                            match (
                                self.view.center.x.checked_sub(mx),
                                self.view.center.y.checked_sub(my),
                            ) {
                                (Some(cx), Some(cy)) => {
                                    self.view.center.x = cx;
                                    self.view.center.y = cy;
                                },
                                _ => {},
                            }
                        },
                        _ => {},
                    }
                    self.right_down_last_pos = (x, y);
                }
            },
            Event::MouseButtonPressed { button, x, y } => {
                if button == Button::Right {
                    self.right_down_last_pos = (x, y);
                    self.right_down = true;
                }
            },
            Event::MouseButtonReleased { button, x: _, y: _ } => {
                if button == Button::Right {
                    self.right_down = false;
                }
            },
            Event::Other => {},
        }
    }

    /// The frame rate reported for a frame delta of `delta_us`
    /// microseconds: `1 / delta` in seconds, rounded half away from
    /// zero. A delta of zero (two frames within one clock tick, in
    /// particular the very first frame) reports 0 rather than dividing
    /// by zero.
    pub open spec fn spec_framerate(delta_us: int) -> int {
        if delta_us <= 0 {
            0
        } else {
            (2_000_000 + delta_us) / (2 * delta_us)
        }
    }

    /// The state after `display` at clock reading `elapsed_us`.
    pub open spec fn display_step(self, elapsed_us: i64) -> WhiteboardWindow {
        WhiteboardWindow {
            previous_frame_time_us: elapsed_us,
            delta_time_us: (elapsed_us - self.previous_frame_time_us) as i64,
            framerate: WhiteboardWindow::spec_framerate(
                elapsed_us - self.previous_frame_time_us,
            ) as i32,
            ..self
        }
    }

    /// Updates the frame timing after the host presented a frame.
    ///
    /// `elapsed_us` is the host clock's reading in microseconds, taken
    /// right after presenting; the clock is monotonic and starts at 0
    /// when the controller is built.
    pub fn display(&mut self, elapsed_us: i64)
        requires
            old(self).wf(),
            old(self).previous_frame_time_us <= elapsed_us,
        ensures
            *final(self) == old(self).display_step(elapsed_us),
            final(self).wf(),
    {
        let delta: i64 = elapsed_us - self.previous_frame_time_us;
        let rate: i64 = if delta == 0 {
            0
        } else if delta > 2_000_000 {
            proof {
                vstd::arithmetic::div_mod::lemma_basic_div(
                    2_000_000 + delta as int,
                    2 * delta as int,
                );
            }
            0
        } else {
            proof {
                vstd::arithmetic::div_mod::lemma_div_pos_is_pos(
                    2_000_000 + delta as int,
                    2 * delta as int,
                );
                vstd::arithmetic::div_mod::lemma_div_is_ordered_by_denominator(
                    2_000_000 + delta as int,
                    2,
                    2 * delta as int,
                );
                vstd::arithmetic::div_mod::lemma_div_is_ordered(
                    2_000_000 + delta as int,
                    4_000_000,
                    2,
                );
            }
            (2_000_000 + delta) / (2 * delta)
        };
        self.delta_time_us = delta;
        self.framerate = rate as i32;
        self.previous_frame_time_us = elapsed_us;
    }

    /// Prepares the surface for a new frame: the host clears it to the
    /// frame's background color and draws an opaque backdrop of the
    /// window's base size; the controller switches drawing back to the
    /// pannable camera so the backdrop and all world content share its
    /// coordinate space.
    pub fn clear(&mut self)
        ensures
            *final(self) == old(self).with_fixed(false),
    {
        self.set_fixed(false);
    }

    /// The pixel size of the opaque backdrop the host draws in `clear`:
    /// the window's size at construction.
    pub fn background_size(&self) -> (r: (u32, u32))
        ensures
            r == (self.base_width, self.base_height),
    {
        (self.base_width, self.base_height)
    }

    /// The view the host must install on its surface before drawing.
    pub fn current_view(&self) -> (r: View)
        ensures
            r == self.spec_current_view(),
    {
        if self.fixed_active {
            View {
                center: Vec2r {
                    x: Rat::new(self.base_width as i64, 2),
                    y: Rat::new(self.base_height as i64, 2),
                },
                size: Vec2r {
                    x: Rat::new(self.base_width as i64, 1),
                    y: Rat::new(self.base_height as i64, 1),
                },
            }
        } else {
            self.view
        }
    }
}

} // verus!
