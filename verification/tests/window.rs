//! The window's life.
use incline_design::app::App;
use incline_design::config::Preferences;
use incline_design::editor::EditorState;
use incline_design::effects::{Effect, Notice, NoticeKind};
use incline_design::language::{LanguageChoice, Target};
use incline_design::model::ColorBits;
use incline_design::pacing::{SurfaceSize, Wake};
use incline_design::window::{
    slice_preview_window, ExitStep, WaitAction, WaitEvent, WaitPhase,
};

fn preferences() -> Preferences {
    Preferences {
        dark_mode: true,
        show_console: false,
        panel_chrome: 0,
        show_world_axis_gizmo: true,
        show_scale_bar: true,
        renderer_background_color: ColorBits { r: 0, g: 0, b: 0, a: 0 },
        snap_poll_rate: 60,
        vsync_enabled: true,
        frame_rate_cap: 144,
        resize_frame_rate_cap: 60,
        block_model_interaction_resolution_divisor: 4,
        show_block_model_boundary_highlights: false,
        downscale_raster_previews: true,
        frame_counter_enabled: false,
        debug_surface_chunks: false,
        debug_clip_planes: false,
        debug_point_cloud_chunks: false,
        plan_invert_vertical_look: false,
        plan_invert_horizontal_look: false,
        plan_zoom_towards_cursor: true,
        fly_invert_vertical_look: false,
        fly_invert_horizontal_look: false,
    }
}

fn app(target: Target) -> App<u8> {
    App::default(target, EditorState::new(preferences(), LanguageChoice::English))
}


fn size(width: u32, height: u32) -> SurfaceSize {
    SurfaceSize { width, height }
}

#[test]
fn a_desktop_window_opens_maximized() {
    let mut app = app(Target::Native);
    let plan = app.resumed().unwrap();
    assert_eq!(plan.min_size, size(900, 500));
    assert_eq!(plan.size, Some(size(900, 500)));
    assert!(plan.maximized);
    assert!(!plan.on_page);
    app.window_created(true);
    assert!(app.window_open);
    assert_eq!(app.outbox, vec![Effect::InstallMenuBar]);
    assert_eq!(app.resumed(), None);
}

#[test]
fn a_window_on_a_page_fills_its_place() {
    let app = app(Target::Web);
    let plan = app.resumed().unwrap();
    assert_eq!(plan.size, None);
    assert!(!plan.maximized);
    assert!(plan.on_page);
    assert_eq!(slice_preview_window().min_size, size(320, 240));
    assert_eq!(slice_preview_window().size, Some(size(800, 700)));
}

#[test]
fn without_a_window_there_is_nothing_to_run_in() {
    let mut native = app(Target::Native);
    native.window_failed("no display".to_string());
    assert!(native.lifecycle.close_requested);
    let notice =
        Effect::Notify(Notice { kind: NoticeKind::WindowFailed, detail: "no display".to_string() });
    assert_eq!(native.outbox, vec![notice]);
    let mut web = app(Target::Web);
    web.outbox.clear();
    web.window_failed("no canvas".to_string());
    assert_eq!(
        web.outbox[1],
        Effect::ShowStartupError("failed to create the browser window: no canvas".to_string())
    );
}

#[test]
fn the_renderer_shows_everything_at_first() {
    let mut app = app(Target::Native);
    app.fit_view_to_extents();
    assert!(app.outbox.is_empty());
    app.graphics_created(size(5, 6));
    assert_eq!(app.surface, Some(size(5, 6)));
    assert!(app.pacing.redraw_requested);
    assert_eq!(app.outbox, vec![Effect::ApplyPresentMode, Effect::FitView]);
    app.graphics_failed("lost".to_string());
    assert!(app.lifecycle.close_requested);
    assert_eq!(
        app.outbox[2],
        Effect::Notify(Notice { kind: NoticeKind::GraphicsFailed, detail: "lost".to_string() })
    );
}

#[test]
fn closing_takes_everything_down() {
    let mut app = app(Target::Web);
    app.outbox.clear();
    app.window_created(false);
    app.graphics_created(size(5, 6));
    app.pacing.last_render_time = Some(1);
    app.pacing.pending_resize = Some(size(1, 1));
    app.pacing.last_frame_end = Some(7);
    app.outbox.clear();
    app.exiting();
    assert_eq!(app.outbox, vec![Effect::SetBrowserDirty(false), Effect::DropWindow]);
    assert!(!app.window_open);
    assert_eq!(app.surface, None);
    assert!(!app.pacing.redraw_requested);
    assert_eq!(app.pacing.last_render_time, None);
    assert_eq!(app.pacing.pending_resize, None);
    assert_eq!(app.pacing.last_frame_end, Some(7));
}

#[test]
fn a_fatal_failure_waits_for_writers() {
    let mut app = app(Target::Native);
    assert_eq!(app.settle_exit(true, 5), ExitStep::Stay);
    app.lifecycle.fatal_shutdown = true;
    assert_eq!(app.settle_exit(true, 5), ExitStep::WaitUntil(16_000_005));
    assert!(app.outbox.is_empty());
    assert_eq!(app.settle_exit(false, 5), ExitStep::Leave);
    assert_eq!(app.outbox, vec![Effect::DropWindow]);
}

#[test]
fn a_request_to_close_is_honoured_at_once() {
    let mut app = app(Target::Native);
    app.lifecycle.close_requested = true;
    assert_eq!(app.settle_exit(true, 5), ExitStep::Leave);
}

#[test]
fn the_slice_preview_gets_a_window_on_a_desktop() {
    let mut app = app(Target::Native);
    assert!(!app.sync_slice_preview_window());
    app.editor.flags.slice_preview_detached = true;
    assert!(app.sync_slice_preview_window());
    app.slice_preview_opened(None);
    assert!(!app.editor.flags.slice_preview_detached);
    assert_eq!(
        app.outbox,
        vec![Effect::Notify(Notice {
            kind: NoticeKind::SlicePreviewFailed,
            detail: "renderer is not initialized".to_string(),
        })]
    );
    app.editor.flags.slice_preview_detached = true;
    app.surface = Some(size(1, 1));
    app.slice_preview_opened(None);
    assert!(app.slice_window_open);
    assert!(!app.sync_slice_preview_window());
    assert!(app.editor.flags.slice_preview_detached);
    app.slice_preview_opened(Some("denied".to_string()));
    assert!(!app.editor.flags.slice_preview_detached);
}

#[test]
fn the_slice_preview_stays_on_its_page() {
    let mut app = app(Target::Web);
    app.editor.flags.slice_preview_detached = true;
    assert!(!app.sync_slice_preview_window());
    assert!(!app.editor.flags.slice_preview_detached);
}

#[test]
fn the_mouse_moves_the_camera() {
    let mut app = app(Target::Native);
    app.device_event(true);
    assert!(!app.pacing.redraw_requested);
    app.surface = Some(size(1, 1));
    app.device_event(false);
    assert!(!app.pacing.redraw_requested);
    app.device_event(true);
    assert!(app.pacing.redraw_requested);
}

#[test]
fn only_a_page_is_told_of_unsaved_work() {
    let mut native = app(Target::Native);
    native.announce_unsaved(true);
    assert!(native.outbox.is_empty());
    let mut web = app(Target::Web);
    web.outbox.clear();
    web.announce_unsaved(true);
    assert_eq!(web.outbox, vec![Effect::SetBrowserDirty(true)]);
}

#[test]
fn frames_are_scheduled_by_the_settings() {
    let mut app = app(Target::Native);
    app.window_open = true;
    app.pacing.redraw_requested = true;
    app.pacing.last_render_time = Some(100);
    // Vertical sync paces frames by itself.
    assert!(app.about_to_wait(101, false, false).redraw);
    app.editor.preferences.vsync_enabled = false;
    app.editor.preferences.frame_rate_cap = 1000;
    app.pacing.redraw_requested = true;
    let plan = app.about_to_wait(101, false, true);
    assert!(!plan.redraw);
    assert_eq!(plan.wake, Wake::At(1_000_100));
    // Without a renderer nothing asks to be drawn always.
    app.pacing.redraw_requested = false;
    assert!(!app.about_to_wait(9_000_000, true, false).redraw);
}

#[test]
fn a_frame_is_planned_after_dialogs_were_looked_at() {
    let mut app = app(Target::Native);
    app.window_open = true;
    app.pacing.redraw_requested = true;
    let saves = WaitEvent::SavesLookedAt { pending: false, now: 5 };
    let dialogs =
        WaitEvent::DialogsLookedAt { tasks_pending: false, continuous_redraw: false, now: 6 };
    assert_eq!(
        app.next_before_wait(WaitPhase::Saves, dialogs),
        (WaitPhase::Saves, WaitAction::Nothing)
    );
    assert!(app.pacing.redraw_requested);
    assert_eq!(
        app.next_before_wait(WaitPhase::Saves, saves),
        (WaitPhase::Dialogs, WaitAction::LookAtDialogs)
    );
    // A dialog may ask to leave; the frame is planned all the same.
    app.lifecycle.close_requested = true;
    let (phase, action) = app.next_before_wait(WaitPhase::Dialogs, dialogs);
    assert_eq!(phase, WaitPhase::Settled);
    let WaitAction::Follow(plan) = action else {
        panic!("a frame is due");
    };
    assert!(plan.redraw);
    assert_eq!(plan.wake, Wake::OnEvent);
}

#[test]
fn leaving_schedules_nothing() {
    let mut app = app(Target::Native);
    app.window_open = true;
    app.pacing.redraw_requested = true;
    app.lifecycle.fatal_shutdown = true;
    let dialogs =
        WaitEvent::DialogsLookedAt { tasks_pending: true, continuous_redraw: true, now: 6 };
    let waiting = WaitEvent::SavesLookedAt { pending: true, now: 5 };
    assert_eq!(
        app.next_before_wait(WaitPhase::Saves, waiting),
        (WaitPhase::Settled, WaitAction::WaitUntil(16_000_005))
    );
    assert_eq!(
        app.next_before_wait(WaitPhase::Settled, dialogs),
        (WaitPhase::Settled, WaitAction::Nothing)
    );
    assert!(app.pacing.redraw_requested);
    let done = WaitEvent::SavesLookedAt { pending: false, now: 7 };
    assert_eq!(
        app.next_before_wait(WaitPhase::Saves, done),
        (WaitPhase::Settled, WaitAction::Leave)
    );
    assert_eq!(app.outbox, vec![Effect::DropWindow]);
}
