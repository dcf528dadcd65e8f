//! Frame pacing.
use incline_design::language::Target;
use incline_design::pacing::{
    drag_surface_extent, rate_interval, FramePacing, Moment, RateSettings, SurfaceSize, Wake,
    RESIZE_SETTLE_DELAY, SURFACE_RETRY_DELAY, TASK_POLL_DELAY,
};
use std::time::Duration;

const MS: u64 = 1_000_000;

fn rates(vsync_enabled: bool) -> RateSettings {
    RateSettings { vsync_enabled, frame_rate_cap: 100, resize_frame_rate_cap: 50 }
}

fn moment(now: u64) -> Moment {
    Moment {
        now,
        continuous_redraw: false,
        window_open: true,
        graphics_ready: true,
        tasks_pending: false,
        target: Target::Native,
        rates: rates(false),
    }
}

fn size(width: u32, height: u32) -> SurfaceSize {
    SurfaceSize { width, height }
}

#[test]
fn the_surface_grows_at_once_and_shrinks_late() {
    assert_eq!(drag_surface_extent(640, 641), 704);
    assert_eq!(drag_surface_extent(640, 640), 640);
    assert_eq!(drag_surface_extent(640, 513), 640);
    assert_eq!(drag_surface_extent(640, 512), 512);
    assert_eq!(drag_surface_extent(640, 440), 448);
    assert_eq!(drag_surface_extent(0, 1), 64);
}

#[test]
fn an_edge_that_jiggles_reconfigures_nothing() {
    let extent = drag_surface_extent(640, 650);
    assert_eq!(extent, 704);
    for requested in 586..=704 {
        assert_eq!(drag_surface_extent(extent, requested), extent);
    }
}

#[test]
fn rate_intervals_are_those_of_durations() {
    for rate in 1..=1000u32 {
        let expected = Duration::from_secs_f64(1.0 / f64::from(rate));
        assert_eq!(Duration::from_nanos(rate_interval(rate)), expected, "{rate}");
    }
    assert_eq!(rate_interval(0), 1_000_000_000);
    assert_eq!(rate_interval(5000), 1_000_000);
    assert_eq!(rate_interval(60), 16_666_667);
}

#[test]
fn a_desktop_window_takes_the_exact_size() {
    let mut pacing = FramePacing::new();
    assert_eq!(pacing.take_resize_to_apply(0, Some(size(1, 1)), Target::Native), None);
    pacing.pending_resize = Some(size(650, 480));
    pacing.last_resize_event = Some(0);
    assert_eq!(pacing.take_resize_to_apply(1, None, Target::Native), None);
    assert_eq!(
        pacing.take_resize_to_apply(1, Some(size(640, 480)), Target::Native),
        Some(size(650, 480))
    );
    assert_eq!(pacing.pending_resize, None);
}

#[test]
fn a_page_takes_a_rounded_size_until_the_drag_settles() {
    let mut pacing = FramePacing::new();
    pacing.pending_resize = Some(size(650, 480));
    pacing.last_resize_event = Some(0);
    assert_eq!(
        pacing.take_resize_to_apply(1, Some(size(640, 480)), Target::Web),
        Some(size(704, 480))
    );
    assert_eq!(pacing.pending_resize, Some(size(650, 480)));
    assert_eq!(
        pacing.take_resize_to_apply(RESIZE_SETTLE_DELAY, Some(size(704, 480)), Target::Web),
        Some(size(650, 480))
    );
    assert_eq!(pacing.pending_resize, None);
}

#[test]
fn intervals_depend_on_what_holds_frames_off() {
    let mut pacing = FramePacing::new();
    assert_eq!(pacing.frame_interval(rates(true), Target::Native), 0);
    assert_eq!(pacing.frame_interval(rates(false), Target::Native), 10 * MS);
    pacing.pending_resize = Some(size(1, 1));
    assert_eq!(pacing.frame_interval(rates(true), Target::Native), 20 * MS);
    assert_eq!(pacing.frame_interval(rates(true), Target::Web), 50 * MS);
    pacing.surface_retry_pending = true;
    assert_eq!(pacing.frame_interval(rates(true), Target::Web), SURFACE_RETRY_DELAY);
}

#[test]
fn only_the_time_a_frame_was_wanted_counts() {
    let mut pacing = FramePacing::new();
    pacing.frame_demanded_at = Some(5);
    assert_eq!(pacing.record_frame_time(7, 10), 5);
    // Waiting for input until 100 adds nothing.
    pacing.frame_demanded_at = Some(100);
    assert_eq!(pacing.record_frame_time(101, 108), 8);
    // Back to back, wanted before the last one was done.
    pacing.frame_demanded_at = Some(104);
    assert_eq!(pacing.record_frame_time(108, 120), 12);
    // Nobody said when it was wanted.
    assert_eq!(pacing.record_frame_time(130, 135), 5);
    assert_eq!(pacing.last_frame_end, Some(135));
    assert_eq!(pacing.frame_demanded_at, None);
}

#[test]
fn a_requested_frame_is_drawn() {
    let mut pacing = FramePacing::new();
    pacing.redraw_requested = true;
    let plan = pacing.schedule(moment(3));
    assert!(plan.redraw);
    assert_eq!(plan.wake, Wake::OnEvent);
    assert!(!pacing.redraw_requested);
    assert_eq!(pacing.frame_demanded_at, Some(3));
}

#[test]
fn a_frame_is_held_off_and_kept() {
    let mut pacing = FramePacing::new();
    pacing.redraw_requested = true;
    pacing.last_render_time = Some(100);
    let plan = pacing.schedule(moment(101));
    assert!(!plan.redraw);
    assert_eq!(plan.wake, Wake::At(100 + 10 * MS));
    assert!(pacing.redraw_requested);
    let plan = pacing.schedule(moment(100 + 10 * MS));
    assert!(plan.redraw);
    assert_eq!(pacing.frame_demanded_at, Some(101));
}

#[test]
fn without_a_window_a_request_waits() {
    let mut pacing = FramePacing::new();
    pacing.redraw_requested = true;
    let plan = pacing.schedule(Moment { window_open: false, ..moment(1) });
    assert!(!plan.redraw);
    assert!(pacing.redraw_requested);
    assert_eq!(plan.wake, Wake::OnEvent);
}

#[test]
fn deadlines_wake_the_loop() {
    let mut pacing = FramePacing::new();
    pacing.next_ui_repaint_deadline = Some(40 * MS);
    assert_eq!(pacing.schedule(moment(1)).wake, Wake::At(40 * MS));
    let plan = pacing.schedule(Moment { tasks_pending: true, ..moment(1) });
    assert_eq!(plan.wake, Wake::At(1 + TASK_POLL_DELAY));
    pacing.slice_surface_retry_deadline = Some(2 * MS);
    let plan = pacing.schedule(Moment { tasks_pending: true, ..moment(1) });
    assert_eq!(plan.wake, Wake::At(2 * MS));
    let plan = pacing.schedule(moment(2 * MS));
    assert!(plan.redraw_slice);
    assert_eq!(pacing.slice_surface_retry_deadline, None);
    assert_eq!(plan.wake, Wake::At(40 * MS));
    let plan = pacing.schedule(moment(40 * MS));
    assert!(plan.redraw);
    assert_eq!(pacing.next_ui_repaint_deadline, None);
}

#[test]
fn a_resize_that_settles_asks_for_a_frame() {
    let mut pacing = FramePacing::new();
    pacing.pending_resize = Some(size(1, 1));
    pacing.last_resize_event = Some(10);
    let plan = pacing.schedule(moment(11));
    assert!(!plan.redraw);
    assert_eq!(plan.wake, Wake::At(10 + RESIZE_SETTLE_DELAY));
    assert!(pacing.schedule(moment(10 + RESIZE_SETTLE_DELAY)).redraw);
}

#[test]
fn a_renderer_that_draws_always_needs_no_request() {
    let mut pacing = FramePacing::new();
    let plan = pacing.schedule(Moment { continuous_redraw: true, ..moment(9) });
    assert!(plan.redraw);
    assert_eq!(pacing.frame_demanded_at, Some(9));
}
