use whiteboard_window::Button;
use whiteboard_window::Event;
use whiteboard_window::Rat;
use whiteboard_window::WhiteboardWindow;

fn rint(v: i64) -> Rat {
    Rat::from_int(v)
}

#[test]
fn pan_scenario_moves_center() {
    let mut w = WhiteboardWindow::new(800, 600);
    w.observe(Event::MouseButtonPressed { button: Button::Right, x: 100, y: 100 });
    w.observe(Event::MouseMoved { x: 150, y: 120 });
    assert!(w.view.center.x.eq_rat(&rint(350)));
    assert!(w.view.center.y.eq_rat(&rint(280)));
    assert!(w.view.size.x.eq_rat(&rint(800)));
    assert!(w.view.size.y.eq_rat(&rint(600)));
    assert_eq!(w.right_down_last_pos, (150, 120));
}

#[test]
fn scroll_below_one_zooms_out_then_full_step_zooms_in() {
    let mut w = WhiteboardWindow::new(800, 600);
    w.observe(Event::MouseWheelScrolled { delta_thousandths: 500 });
    assert!(w.zoom.eq_rat(&Rat::new(11, 10)));
    w.observe(Event::MouseWheelScrolled { delta_thousandths: 1000 });
    assert!(w.zoom.eq_rat(&rint(1)));
    assert!(w.view.size.x.eq_rat(&rint(800)));
    // values are kept in lowest terms, so the cancellation is exact
    // down to the stored components
    assert_eq!((w.zoom.num, w.zoom.den), (1, 1));
    assert_eq!((w.view.size.x.num, w.view.size.x.den), (800, 1));
}

#[test]
fn negative_scroll_delta_zooms_out() {
    let mut w = WhiteboardWindow::new(800, 600);
    w.observe(Event::MouseWheelScrolled { delta_thousandths: -2000 });
    assert!(w.zoom.eq_rat(&Rat::new(11, 10)));
    assert!(w.view.size.x.eq_rat(&Rat::new(8800, 10)));
    assert!(w.view.size.y.eq_rat(&Rat::new(6600, 10)));
}

#[test]
fn zoom_counts_scale_extent_like_accumulator() {
    let mut w = WhiteboardWindow::new(800, 600);
    w.observe(Event::MouseWheelScrolled { delta_thousandths: 0 });
    w.observe(Event::MouseWheelScrolled { delta_thousandths: 999 });
    w.observe(Event::MouseWheelScrolled { delta_thousandths: 500 });
    w.observe(Event::MouseWheelScrolled { delta_thousandths: 1500 });
    // three zoom-outs and one zoom-in: (11/10)^3 * (10/11) = 121/100
    assert!(w.zoom.eq_rat(&Rat::new(121, 100)));
    assert_eq!((w.zoom.num, w.zoom.den), (121, 100));
    assert!(w.view.size.x.eq_rat(&Rat::new(800 * 121, 100)));
    assert!(w.view.size.y.eq_rat(&Rat::new(600 * 121, 100)));
    assert!(w.view.center.x.eq_rat(&rint(400)));
    assert!(w.view.center.y.eq_rat(&rint(300)));
}

#[test]
fn pan_distance_scales_with_zoom() {
    let mut w = WhiteboardWindow::new(800, 600);
    w.observe(Event::MouseWheelScrolled { delta_thousandths: 500 });
    w.observe(Event::MouseButtonPressed { button: Button::Right, x: 0, y: 0 });
    w.observe(Event::MouseMoved { x: 10, y: 0 });
    // the camera moves by -delta * zoom: -10 * 11/10 = -11
    assert!(w.view.center.x.eq_rat(&rint(400 - 11)));
    assert!(w.view.center.y.eq_rat(&rint(300)));
}

#[test]
fn release_stops_pan() {
    let mut w = WhiteboardWindow::new(800, 600);
    w.observe(Event::MouseButtonPressed { button: Button::Right, x: 0, y: 0 });
    w.observe(Event::MouseMoved { x: 10, y: 10 });
    assert!(w.view.center.x.eq_rat(&rint(390)));
    w.observe(Event::MouseButtonReleased { button: Button::Right, x: 10, y: 10 });
    assert!(!w.right_down);
    w.observe(Event::MouseMoved { x: 50, y: 50 });
    w.observe(Event::MouseMoved { x: -40, y: 7 });
    assert!(w.view.center.x.eq_rat(&rint(390)));
    assert!(w.view.center.y.eq_rat(&rint(290)));
}

#[test]
fn moves_without_press_do_nothing() {
    let mut w = WhiteboardWindow::new(800, 600);
    w.observe(Event::MouseMoved { x: 50, y: 50 });
    assert!(!w.right_down);
    assert_eq!(w.right_down_last_pos, (0, 0));
    assert!(w.view.center.x.eq_rat(&rint(400)));
    assert!(w.view.center.y.eq_rat(&rint(300)));
}

#[test]
fn left_button_does_not_start_a_drag() {
    let mut w = WhiteboardWindow::new(800, 600);
    w.observe(Event::MouseButtonPressed { button: Button::Left, x: 5, y: 5 });
    assert!(!w.right_down);
    w.observe(Event::MouseMoved { x: 50, y: 50 });
    assert!(w.view.center.x.eq_rat(&rint(400)));
}

#[test]
fn set_fixed_round_trip_restores_camera() {
    let mut w = WhiteboardWindow::new(800, 600);
    w.observe(Event::MouseButtonPressed { button: Button::Right, x: 0, y: 0 });
    w.observe(Event::MouseMoved { x: 30, y: 40 });
    let before = w.current_view();
    assert!(w.fixed_active);
    w.set_fixed(false);
    let panned = w.current_view();
    assert!(panned.center.x.eq_rat(&rint(370)));
    assert!(panned.center.y.eq_rat(&rint(260)));
    w.set_fixed(true);
    let fixed = w.current_view();
    assert!(fixed.center.x.eq_rat(&rint(400)));
    assert!(fixed.center.y.eq_rat(&rint(300)));
    assert!(fixed.size.x.eq_rat(&rint(800)));
    w.set_fixed(false);
    let after = w.current_view();
    assert!(after.center.x.eq_rat(&panned.center.x));
    assert!(after.center.y.eq_rat(&panned.center.y));
    assert!(after.size.x.eq_rat(&panned.size.x));
    assert!(after.size.y.eq_rat(&panned.size.y));
    // the fixed view equals the default view the window was built with
    assert!(before.center.x.eq_rat(&fixed.center.x));
}

#[test]
fn clear_selects_the_camera_view() {
    let mut w = WhiteboardWindow::new(800, 600);
    assert!(w.fixed_active);
    w.clear();
    assert!(!w.fixed_active);
    assert_eq!(w.background_size(), (800, 600));
}

#[test]
fn framerate_after_tenth_of_a_second_is_ten() {
    let mut w = WhiteboardWindow::new(800, 600);
    w.display(50_000);
    w.display(150_000);
    assert_eq!(w.framerate, 10);
    assert_eq!(w.delta_time_us, 100_000);
    assert_eq!(w.previous_frame_time_us, 150_000);
}

#[test]
fn framerate_rounds_half_away_from_zero() {
    let mut w = WhiteboardWindow::new(800, 600);
    // 1 / 0.15 s = 6.67 fps, rounds to 7
    w.display(150_000);
    assert_eq!(w.framerate, 7);
    // 1 / 0.3 s = 3.33 fps, rounds to 3
    w.display(450_000);
    assert_eq!(w.framerate, 3);
    // 1 / 2 s rounds half away from zero to 1
    w.display(2_450_000);
    assert_eq!(w.framerate, 1);
    // slower than that reports 0
    w.display(4_500_001);
    assert_eq!(w.framerate, 0);
}

#[test]
fn first_frame_with_zero_delta_reports_zero() {
    let mut w = WhiteboardWindow::new(800, 600);
    w.display(0);
    assert_eq!(w.framerate, 0);
    assert_eq!(w.delta_time_us, 0);
}

#[test]
fn zoom_out_stops_exactly_where_exact_arithmetic_would_overflow() {
    let mut w = WhiteboardWindow::new(800, 600);
    for _ in 0..30 {
        w.observe(Event::MouseWheelScrolled { delta_thousandths: 0 });
    }
    // the 18th zoom-out would need a view height of 3 * 11^18 fifths,
    // which overflows i64 even in lowest terms, so it and all later
    // zoom-outs leave the state unchanged
    assert_eq!(w.zoom.num, 11i64.pow(17));
    assert_eq!(w.zoom.den, 10i64.pow(17));
    assert_eq!(w.view.size.x.num, 11i64.pow(17));
    assert_eq!(w.view.size.x.den, 10i64.pow(17) / 800);
    // zooming back in works from the edge: the factors cancel in lowest
    // terms, so the accumulator steps straight back down
    w.observe(Event::MouseWheelScrolled { delta_thousandths: 1000 });
    assert_eq!(w.zoom.num, 11i64.pow(16));
    assert_eq!(w.zoom.den, 10i64.pow(16));
    assert!(w.view.size.x.eq_rat(&w.zoom.checked_mul(rint(800)).unwrap()));
}

#[test]
fn long_drag_at_fractional_zoom_stays_exact() {
    let mut w = WhiteboardWindow::new(800, 600);
    w.observe(Event::MouseWheelScrolled { delta_thousandths: 0 });
    w.observe(Event::MouseButtonPressed { button: Button::Right, x: 0, y: 0 });
    // a drag gesture fires a long burst of small moves; each shifts the
    // camera by -1 * 11/10 and the running center stays in lowest terms
    for step in 1..=100 {
        w.observe(Event::MouseMoved { x: step, y: 0 });
    }
    // 400 - 100 * 11/10 = 290, exactly
    assert_eq!((w.view.center.x.num, w.view.center.x.den), (290, 1));
    assert!(w.view.center.y.eq_rat(&rint(300)));
}

#[test]
fn alternating_zoom_events_never_stick() {
    let mut w = WhiteboardWindow::new(800, 600);
    for _ in 0..50 {
        w.observe(Event::MouseWheelScrolled { delta_thousandths: 0 });
        w.observe(Event::MouseWheelScrolled { delta_thousandths: 1000 });
    }
    assert_eq!((w.zoom.num, w.zoom.den), (1, 1));
    assert_eq!((w.view.size.x.num, w.view.size.x.den), (800, 1));
    assert_eq!((w.view.size.y.num, w.view.size.y.den), (600, 1));
}

#[test]
fn rational_helpers_are_exact() {
    let half = Rat::new(1, 2);
    let third = Rat::new(1, 3);
    let sixth = half.checked_sub(third).unwrap();
    assert!(sixth.eq_rat(&Rat::new(1, 6)));
    assert!(Rat::new(2, 4).eq_rat(&half));
    assert!(!half.eq_rat(&third));
    let product = half.checked_mul(third).unwrap();
    assert!(product.eq_rat(&Rat::new(1, 6)));
    // results come out in lowest terms
    let reduced = Rat::new(2, 4).checked_mul(Rat::new(3, 2)).unwrap();
    assert_eq!((reduced.num, reduced.den), (3, 4));
    assert!(Rat::new(i64::MAX, 1).checked_mul(Rat::new(2, 1)).is_none());
}

#[test]
fn pan_that_would_overflow_is_dropped_but_drag_goes_on() {
    let mut w = WhiteboardWindow::new(800, 600);
    // drive the zoom accumulator to 11^17 / 10^17; a pointer delta of
    // 1000001 (coprime to 10) then needs 1000001 * 11^17 > i64::MAX
    // even in lowest terms
    for _ in 0..17 {
        w.observe(Event::MouseWheelScrolled { delta_thousandths: 0 });
    }
    w.observe(Event::MouseButtonPressed { button: Button::Right, x: 0, y: 0 });
    w.observe(Event::MouseMoved { x: 1000001, y: 0 });
    assert!(w.view.center.x.eq_rat(&Rat::from_int(400)));
    // the recorded pointer position still advances with the drag
    assert_eq!(w.right_down_last_pos, (1000001, 0));
}
