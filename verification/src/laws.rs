use vstd::prelude::*;
use vstd::arithmetic::power::pow;
use vstd::arithmetic::power::lemma_pow0;
use vstd::arithmetic::power::lemma_pow1;
use vstd::arithmetic::power::lemma_pow_adds;
use vstd::arithmetic::power::lemma_pow_positive;
use vstd::arithmetic::mul::lemma_mul_is_commutative;
use crate::event::Button;
use crate::event::Event;
use crate::rat::lemma_reduce_eqv;
use crate::viewport::WhiteboardWindow;

verus! {

/// The state after the controller has observed `events` in order,
/// starting from `s`.
pub open spec fn run(s: WhiteboardWindow, events: Seq<Event>) -> WhiteboardWindow
    decreases events.len(),
{
    if events.len() == 0 {
        s
    } else {
        run(s.step(events[0]), events.drop_first())
    }
}

/// Every event in the sequence is a wheel event.
pub open spec fn all_wheel(events: Seq<Event>) -> bool {
    forall|i: int| 0 <= i < events.len() ==> events[i] is MouseWheelScrolled
}

/// Every event in the sequence is a pointer move.
pub open spec fn all_moves(events: Seq<Event>) -> bool {
    forall|i: int| 0 <= i < events.len() ==> events[i] is MouseMoved
}

/// A wheel event that zooms out (delta below one full scroll step).
pub open spec fn is_zoom_out(e: Event) -> bool {
    e matches Event::MouseWheelScrolled { delta_thousandths } && delta_thousandths < 1000
}

/// A wheel event that zooms in (delta of at least one full scroll step).
pub open spec fn is_zoom_in(e: Event) -> bool {
    e matches Event::MouseWheelScrolled { delta_thousandths } && delta_thousandths >= 1000
}

pub open spec fn zoom_out_count(events: Seq<Event>) -> nat
    decreases events.len(),
{
    if events.len() == 0 {
        0
    } else {
        (if is_zoom_out(events[0]) {
            1nat
        } else {
            0nat
        }) + zoom_out_count(events.drop_first())
    }
}

pub open spec fn zoom_in_count(events: Seq<Event>) -> nat
    decreases events.len(),
{
    if events.len() == 0 {
        0
    } else {
        (if is_zoom_in(events[0]) {
            1nat
        } else {
            0nat
        }) + zoom_in_count(events.drop_first())
    }
}

/// No wheel event along the run overflows the exact zoom arithmetic.
pub open spec fn zoom_steps_fit(s: WhiteboardWindow, events: Seq<Event>) -> bool
    decreases events.len(),
{
    events.len() == 0 || {
        let e = events[0];
        &&& (e matches Event::MouseWheelScrolled { delta_thousandths } ==> s.zoom_fits(
            delta_thousandths < 1000,
        ))
        &&& zoom_steps_fit(s.step(e), events.drop_first())
    }
}

/// Equal products stay equal after a common nonzero factor is removed.
proof fn lemma_cancel(x: int, y: int, d: int)
    by (nonlinear_arith)
    requires
        d != 0,
        x * d == y * d,
    ensures
        x == y,
{
}

/// One zoom step preserves the cross-multiplied power relation when the
/// new exponent lands on the first power factor of each side.
proof fn lemma_rel_step_fst(
    a: int,
    b: int,
    n1: int,
    d1: int,
    ns: int,
    ds: int,
    u: int,
    v: int,
    pl1: int,
    pl2: int,
    pr1: int,
    pr2: int,
)
    requires
        d1 > 0,
        a * d1 * pl1 * pl2 == b * n1 * pr1 * pr2,
        n1 * (ds * u) == (ns * v) * d1,
    ensures
        a * ds * (u * pl1) * pl2 == b * ns * (v * pr1) * pr2,
{
    assert((a * ds * (u * pl1) * pl2) * d1 == (a * d1 * pl1 * pl2) * (ds * u))
        by (nonlinear_arith);
    assert((b * n1 * pr1 * pr2) * (ds * u) == (b * pr1 * pr2) * (n1 * (ds * u)))
        by (nonlinear_arith);
    assert((b * pr1 * pr2) * ((ns * v) * d1) == (b * ns * (v * pr1) * pr2) * d1)
        by (nonlinear_arith);
    lemma_cancel(a * ds * (u * pl1) * pl2, b * ns * (v * pr1) * pr2, d1);
}

/// As `lemma_rel_step_fst`, for the second power factor of each side.
proof fn lemma_rel_step_snd(
    a: int,
    b: int,
    n1: int,
    d1: int,
    ns: int,
    ds: int,
    u: int,
    v: int,
    pl1: int,
    pl2: int,
    pr1: int,
    pr2: int,
)
    requires
        d1 > 0,
        a * d1 * pl1 * pl2 == b * n1 * pr1 * pr2,
        n1 * (ds * u) == (ns * v) * d1,
    ensures
        a * ds * pl1 * (u * pl2) == b * ns * pr1 * (v * pr2),
{
    assert((a * ds * pl1 * (u * pl2)) * d1 == (a * d1 * pl1 * pl2) * (ds * u))
        by (nonlinear_arith);
    assert((b * n1 * pr1 * pr2) * (ds * u) == (b * pr1 * pr2) * (n1 * (ds * u)))
        by (nonlinear_arith);
    assert((b * pr1 * pr2) * ((ns * v) * d1) == (b * ns * pr1 * (v * pr2)) * d1)
        by (nonlinear_arith);
    lemma_cancel(a * ds * pl1 * (u * pl2), b * ns * pr1 * (v * pr2), d1);
}

proof fn lemma_zoom_run(s: WhiteboardWindow, events: Seq<Event>)
    requires
        all_wheel(events),
        zoom_steps_fit(s, events),
        s.zoom.wf(),
        s.view.size.x.wf(),
        s.view.size.y.wf(),
    ensures
        ({
            let r = run(s, events);
            let o = zoom_out_count(events);
            let i = zoom_in_count(events);
            &&& r.zoom.wf()
            &&& r.view.size.x.wf()
            &&& r.view.size.y.wf()
            &&& r.zoom.num * s.zoom.den * pow(10, o) * pow(11, i) == r.zoom.den * s.zoom.num
                * pow(11, o) * pow(10, i)
            &&& r.view.size.x.num * s.view.size.x.den * pow(10, o) * pow(11, i)
                == r.view.size.x.den * s.view.size.x.num * pow(11, o) * pow(10, i)
            &&& r.view.size.y.num * s.view.size.y.den * pow(10, o) * pow(11, i)
                == r.view.size.y.den * s.view.size.y.num * pow(11, o) * pow(10, i)
            &&& r.view.center == s.view.center
        }),
    decreases events.len(),
{
    if events.len() == 0 {
        lemma_pow0(11);
        lemma_pow0(10);
        lemma_mul_is_commutative(s.zoom.num as int, s.zoom.den as int);
        lemma_mul_is_commutative(s.view.size.x.num as int, s.view.size.x.den as int);
        lemma_mul_is_commutative(s.view.size.y.num as int, s.view.size.y.den as int);
    } else {
        let e = events[0];
        assert(e is MouseWheelScrolled);
        let rest = events.drop_first();
        assert(all_wheel(rest)) by {
            assert forall|j: int| 0 <= j < rest.len() implies rest[j] is MouseWheelScrolled by {
                assert(rest[j] == events[j + 1]);
            }
        }
        let s1 = s.step(e);
        match e {
            Event::MouseWheelScrolled { delta_thousandths } => {
                let out = delta_thousandths < 1000;
                let ratio = WhiteboardWindow::zoom_ratio(out);
                assert(s.zoom_fits(out));
                assert(s.zoom.den * ratio.den > 0) by (nonlinear_arith)
                    requires
                        s.zoom.den > 0,
                        ratio.den > 0,
                ;
                assert(s.view.size.x.den * ratio.den > 0) by (nonlinear_arith)
                    requires
                        s.view.size.x.den > 0,
                        ratio.den > 0,
                ;
                assert(s.view.size.y.den * ratio.den > 0) by (nonlinear_arith)
                    requires
                        s.view.size.y.den > 0,
                        ratio.den > 0,
                ;
                lemma_reduce_eqv(
                    s.zoom.num as int * ratio.num,
                    s.zoom.den as int * ratio.den,
                );
                lemma_reduce_eqv(
                    s.view.size.x.num as int * ratio.num,
                    s.view.size.x.den as int * ratio.den,
                );
                lemma_reduce_eqv(
                    s.view.size.y.num as int * ratio.num,
                    s.view.size.y.den as int * ratio.den,
                );
                lemma_zoom_run(s1, rest);
                let r = run(s, events);
                let o1 = zoom_out_count(rest);
                let i1 = zoom_in_count(rest);
                let p10o = pow(10, o1);
                let p11i = pow(11, i1);
                let p11o = pow(11, o1);
                let p10i = pow(10, i1);
                if out {
                    assert(pow(11, o1 + 1) == 11 * p11o) by {
                        lemma_pow_adds(11, o1, 1);
                        lemma_pow1(11);
                    }
                    assert(pow(10, o1 + 1) == 10 * p10o) by {
                        lemma_pow_adds(10, o1, 1);
                        lemma_pow1(10);
                    }
                    lemma_rel_step_fst(
                        r.zoom.num as int,
                        r.zoom.den as int,
                        s1.zoom.num as int,
                        s1.zoom.den as int,
                        s.zoom.num as int,
                        s.zoom.den as int,
                        10,
                        11,
                        p10o,
                        p11i,
                        p11o,
                        p10i,
                    );
                    lemma_rel_step_fst(
                        r.view.size.x.num as int,
                        r.view.size.x.den as int,
                        s1.view.size.x.num as int,
                        s1.view.size.x.den as int,
                        s.view.size.x.num as int,
                        s.view.size.x.den as int,
                        10,
                        11,
                        p10o,
                        p11i,
                        p11o,
                        p10i,
                    );
                    lemma_rel_step_fst(
                        r.view.size.y.num as int,
                        r.view.size.y.den as int,
                        s1.view.size.y.num as int,
                        s1.view.size.y.den as int,
                        s.view.size.y.num as int,
                        s.view.size.y.den as int,
                        10,
                        11,
                        p10o,
                        p11i,
                        p11o,
                        p10i,
                    );
                } else {
                    assert(pow(11, i1 + 1) == 11 * p11i) by {
                        lemma_pow_adds(11, i1, 1);
                        lemma_pow1(11);
                    }
                    assert(pow(10, i1 + 1) == 10 * p10i) by {
                        lemma_pow_adds(10, i1, 1);
                        lemma_pow1(10);
                    }
                    lemma_rel_step_snd(
                        r.zoom.num as int,
                        r.zoom.den as int,
                        s1.zoom.num as int,
                        s1.zoom.den as int,
                        s.zoom.num as int,
                        s.zoom.den as int,
                        11,
                        10,
                        p10o,
                        p11i,
                        p11o,
                        p10i,
                    );
                    lemma_rel_step_snd(
                        r.view.size.x.num as int,
                        r.view.size.x.den as int,
                        s1.view.size.x.num as int,
                        s1.view.size.x.den as int,
                        s.view.size.x.num as int,
                        s.view.size.x.den as int,
                        11,
                        10,
                        p10o,
                        p11i,
                        p11o,
                        p10i,
                    );
                    lemma_rel_step_snd(
                        r.view.size.y.num as int,
                        r.view.size.y.den as int,
                        s1.view.size.y.num as int,
                        s1.view.size.y.den as int,
                        s.view.size.y.num as int,
                        s.view.size.y.den as int,
                        11,
                        10,
                        p10o,
                        p11i,
                        p11o,
                        p10i,
                    );
                }
            },
            _ => {
                assert(false);
            },
        }
    }
}

/// Combines the two power relations of `lemma_zoom_run` into the direct
/// statement that the extent is the base size scaled by the accumulator.
proof fn lemma_scale_combine(sn: int, sd: int, zn: int, zd: int, w: int, p1: int, p2: int, q1: int, q2: int)
    requires
        p1 > 0,
        p2 > 0,
        zn * p1 * p2 == zd * q1 * q2,
        sn * p1 * p2 == sd * w * q1 * q2,
    ensures
        sn * zd == w * zn * sd,
{
    assert((sn * zd) * (p1 * p2) == zd * (sn * p1 * p2)) by (nonlinear_arith);
    assert(zd * (sd * w * q1 * q2) == (sd * w) * (zd * q1 * q2)) by (nonlinear_arith);
    assert((sd * w) * (zn * p1 * p2) == (w * zn * sd) * (p1 * p2)) by (nonlinear_arith);
    assert(p1 * p2 > 0) by (nonlinear_arith)
        requires
            p1 > 0,
            p2 > 0,
    ;
    lemma_cancel(sn * zd, w * zn * sd, p1 * p2);
}

/// Law: starting from a fresh controller, any sequence of wheel events
/// whose exact arithmetic fits leaves the zoom accumulator equal, as a
/// rational, to exactly (11/10)^out * (10/11)^in — stated by
/// cross-multiplication, `zoom.num * 10^out * 11^in == zoom.den * 11^out
/// * 10^in` — where `out` counts the zoom-out events and `in` the
/// zoom-in events, and scales the camera view extent by exactly the same
/// factor: each extent component equals the base window size times the
/// accumulator. The camera center does not move.
pub proof fn lemma_zoom_accumulator(width: u32, height: u32, events: Seq<Event>)
    requires
        all_wheel(events),
        zoom_steps_fit(WhiteboardWindow::initial(width, height), events),
    ensures
        ({
            let r = run(WhiteboardWindow::initial(width, height), events);
            let o = zoom_out_count(events);
            let i = zoom_in_count(events);
            &&& r.zoom.wf()
            &&& r.view.size.x.wf()
            &&& r.view.size.y.wf()
            &&& r.zoom.num * pow(10, o) * pow(11, i) == r.zoom.den * pow(11, o) * pow(10, i)
            &&& r.view.size.x.num * r.zoom.den == width * r.zoom.num * r.view.size.x.den
            &&& r.view.size.y.num * r.zoom.den == height * r.zoom.num * r.view.size.y.den
            &&& r.view.center == WhiteboardWindow::initial(width, height).view.center
        }),
{
    let s0 = WhiteboardWindow::initial(width, height);
    lemma_zoom_run(s0, events);
    let r = run(s0, events);
    let o = zoom_out_count(events);
    let i = zoom_in_count(events);
    lemma_pow_positive(10, o);
    lemma_pow_positive(11, i);
    lemma_scale_combine(
        r.view.size.x.num as int,
        r.view.size.x.den as int,
        r.zoom.num as int,
        r.zoom.den as int,
        width as int,
        pow(10, o),
        pow(11, i),
        pow(11, o),
        pow(10, i),
    );
    lemma_scale_combine(
        r.view.size.y.num as int,
        r.view.size.y.den as int,
        r.zoom.num as int,
        r.zoom.den as int,
        height as int,
        pow(10, o),
        pow(11, i),
        pow(11, o),
        pow(10, i),
    );
}

/// The cross-multiplied pan equation, derived from the two
/// reduce-equivalences of the translation and the new center.
proof fn lemma_pan_axis_identity(
    cn: int,
    cd: int,
    zn: int,
    zd: int,
    d: int,
    mn: int,
    md: int,
    rn: int,
    rd: int,
)
    requires
        md > 0,
        mn * zd == d * zn * md,
        rn * (cd * md) == (cn * md - mn * cd) * rd,
    ensures
        (rn * cd - cn * rd) * zd == -d * zn * (rd * cd),
{
    assert(((rn * cd - cn * rd) * zd) * md == (rn * (cd * md)) * zd - (cn * rd) * (zd * md))
        by (nonlinear_arith);
    assert((cn * md - mn * cd) * rd == cn * (md * rd) - mn * (cd * rd)) by (nonlinear_arith);
    assert((cn * (md * rd) - mn * (cd * rd)) * zd == (cn * (md * rd)) * zd - (mn * (cd * rd))
        * zd) by (nonlinear_arith);
    assert((cn * (md * rd)) * zd == (cn * rd) * (zd * md)) by (nonlinear_arith);
    assert((mn * (cd * rd)) * zd == (mn * zd) * (cd * rd)) by (nonlinear_arith);
    assert(((cn * md - mn * cd) * rd) * zd == (cn * rd) * (zd * md) - (mn * zd) * (cd * rd));
    assert((d * zn * md) * (cd * rd) == (-d * zn * (rd * cd)) * md * -1) by (nonlinear_arith);
    assert(((rn * cd - cn * rd) * zd) * md == (-d * zn * (rd * cd)) * md);
    lemma_cancel((rn * cd - cn * rd) * zd, -d * zn * (rd * cd), md);
}

/// Law: a pointer move to `(x, y)` while a drag is in progress pans the
/// camera, in camera space, by exactly the pointer delta scaled by the
/// zoom accumulator and with its direction negated; the view extent, the
/// accumulator and the drag flag are untouched, and the recorded pointer
/// position becomes `(x, y)`. The pan equation is stated over the exact
/// rationals by cross-multiplication:
/// `(center' - center) == -(pointer delta) * zoom`.
pub proof fn lemma_pan_distance(s: WhiteboardWindow, x: i32, y: i32)
    requires
        s.wf(),
        s.right_down,
        s.pan_fits(x, y),
    ensures
        ({
            let r = s.step(Event::MouseMoved { x, y });
            let dx = x - s.right_down_last_pos.0;
            let dy = y - s.right_down_last_pos.1;
            &&& (r.view.center.x.num * s.view.center.x.den - s.view.center.x.num
                * r.view.center.x.den) * s.zoom.den == -dx * s.zoom.num * (r.view.center.x.den
                * s.view.center.x.den)
            &&& (r.view.center.y.num * s.view.center.y.den - s.view.center.y.num
                * r.view.center.y.den) * s.zoom.den == -dy * s.zoom.num * (r.view.center.y.den
                * s.view.center.y.den)
            &&& r.view.center.x.den > 0
            &&& r.view.center.y.den > 0
            &&& r.view.size == s.view.size
            &&& r.zoom == s.zoom
            &&& r.right_down == s.right_down
            &&& r.right_down_last_pos == (x, y)
        }),
{
    let r = s.step(Event::MouseMoved { x, y });
    let d = s.pan_delta(x, y);
    let dx = x - s.right_down_last_pos.0;
    let dy = y - s.right_down_last_pos.1;
    let mx = crate::rat::spec_mul(d.x, s.zoom);
    let my = crate::rat::spec_mul(d.y, s.zoom);
    lemma_reduce_eqv(dx * s.zoom.num as int, 1 * s.zoom.den as int);
    lemma_reduce_eqv(dy * s.zoom.num as int, 1 * s.zoom.den as int);
    assert(s.view.center.x.den * mx.den > 0) by (nonlinear_arith)
        requires
            s.view.center.x.den > 0,
            mx.den > 0,
    ;
    assert(s.view.center.y.den * my.den > 0) by (nonlinear_arith)
        requires
            s.view.center.y.den > 0,
            my.den > 0,
    ;
    lemma_reduce_eqv(
        s.view.center.x.num as int * mx.den - mx.num as int * s.view.center.x.den,
        s.view.center.x.den as int * mx.den,
    );
    lemma_reduce_eqv(
        s.view.center.y.num as int * my.den - my.num as int * s.view.center.y.den,
        s.view.center.y.den as int * my.den,
    );
    lemma_pan_axis_identity(
        s.view.center.x.num as int,
        s.view.center.x.den as int,
        s.zoom.num as int,
        s.zoom.den as int,
        dx,
        mx.num as int,
        mx.den as int,
        r.view.center.x.num as int,
        r.view.center.x.den as int,
    );
    lemma_pan_axis_identity(
        s.view.center.y.num as int,
        s.view.center.y.den as int,
        s.zoom.num as int,
        s.zoom.den as int,
        dy,
        my.num as int,
        my.den as int,
        r.view.center.y.num as int,
        r.view.center.y.den as int,
    );
}

proof fn lemma_idle_moves(s: WhiteboardWindow, moves: Seq<Event>)
    requires
        !s.right_down,
        all_moves(moves),
    ensures
        run(s, moves) == s,
    decreases moves.len(),
{
    if moves.len() > 0 {
        assert(moves[0] is MouseMoved);
        assert(s.step(moves[0]) == s);
        let rest = moves.drop_first();
        assert(all_moves(rest)) by {
            assert forall|j: int| 0 <= j < rest.len() implies rest[j] is MouseMoved by {
                assert(rest[j] == moves[j + 1]);
            }
        }
        lemma_idle_moves(s, rest);
    }
}

/// Law: releasing the right button ends the drag, and from then on
/// pointer moves leave the whole controller state — the camera view in
/// particular — unchanged, no matter how many of them arrive, until a
/// new press starts another drag.
pub proof fn lemma_release_stops_pan(s: WhiteboardWindow, rx: i32, ry: i32, moves: Seq<Event>)
    requires
        all_moves(moves),
    ensures
        ({
            let released = s.step(
                Event::MouseButtonReleased { button: Button::Right, x: rx, y: ry },
            );
            &&& !released.right_down
            &&& released.view == s.view
            &&& run(released, moves) == released
        }),
{
    let released = s.step(Event::MouseButtonReleased { button: Button::Right, x: rx, y: ry });
    lemma_idle_moves(released, moves);
}

/// Law: switching to the fixed screen-space view and back restores
/// exactly the camera view that was active before the toggle — the pair
/// of `set_fixed` calls is the same as selecting the camera directly,
/// and the camera's center and size are untouched.
pub proof fn lemma_set_fixed_round_trip(s: WhiteboardWindow)
    ensures
        s.with_fixed(true).with_fixed(false) == s.with_fixed(false),
        s.with_fixed(true).with_fixed(false).view == s.view,
        s.with_fixed(true).with_fixed(false).spec_current_view() == s.view,
{
}

} // verus!
