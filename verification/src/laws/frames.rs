//! Frames and windows: what is drawn when, and when the application leaves.
use crate::app::App;
use crate::effects::{Effect, NoticeKind};
use crate::language::Target;
use crate::pacing::{
    drag_surface_extent, earlier_deadline, is_due, rate_interval, FramePacing, Moment, RateSettings,
    Schedule, SurfaceSize, Wake,
};
use crate::window::{ExitStep, WaitAction, WaitEvent, WaitPhase, WindowPlan};
use vstd::prelude::*;

verus! {

/// A surface that still covers the window and is less than two steps larger is
/// kept. Any other becomes the smallest whole number of steps that covers it.
pub proof fn surfaces_are_changed_in_steps(current: u32, requested: u32, extent: u32)
    requires
        call_ensures(drag_surface_extent, (current, requested), extent),
        requested <= u32::MAX - 64,
    ensures
        extent >= requested,
        requested <= current && current - requested < 128 ==> extent == current,
        requested > current || current - requested >= 128 ==> extent % 64 == 0 && extent
            < requested + 64,
{
}

/// A deadline is due from its time on.
pub proof fn deadlines_are_due_from_their_time_on(deadline: Option<u64>, now: u64, yes: bool)
    requires
        call_ensures(is_due, (deadline, now), yes),
    ensures
        deadline is None ==> !yes,
        deadline is Some && now < deadline->0 ==> !yes,
        deadline is Some && now >= deadline->0 ==> yes,
{
}

/// Of two deadlines the one is taken that comes no later than either.
pub proof fn the_earlier_deadline_comes_first(
    a: Option<u64>,
    b: Option<u64>,
    first: Option<u64>,
)
    requires
        call_ensures(earlier_deadline, (a, b), first),
    ensures
        first == a || first == b,
        a is Some ==> first is Some && first->0 <= a->0,
        b is Some ==> first is Some && first->0 <= b->0,
        a is None && b is None ==> first is None,
{
}

/// Frames at a rate are apart by a second over the rate, as near as whole
/// nanoseconds get. A rate out of range counts as the nearest one in it.
pub proof fn frames_fill_the_second(rate: u32, nanos: u64)
    requires
        call_ensures(rate_interval, (rate,), nanos),
    ensures
        1 <= rate <= 1000 ==> 2 * (nanos * rate - 1_000_000_000) <= rate && 2 * (1_000_000_000
            - nanos * rate) <= rate,
        rate == 0 ==> nanos == 1_000_000_000,
        rate >= 1000 ==> nanos == 1_000_000,
{
    if 1 <= rate <= 1000 {
        crate::pacing::rate_interval_is_nearest(rate);
    }
    assert(crate::pacing::rate_nanos(1000) == 1_000_000);
}

/// A frame is held off after a failed attempt for a quarter of a second; else while
/// a resize is pending by the rate for that, which a page keeps at twenty or less;
/// else not at all with vsync, and by the rate that is set without.
pub proof fn frames_are_held_off_by_what_goes_on(
    pacing: &FramePacing,
    rates: RateSettings,
    target: Target,
    nanos: u64,
    resizing: u64,
    slow: u64,
    running: u64,
)
    requires
        call_ensures(FramePacing::frame_interval, (pacing, rates, target), nanos),
        call_ensures(rate_interval, (rates.resize_frame_rate_cap,), resizing),
        call_ensures(rate_interval, (20u32,), slow),
        call_ensures(rate_interval, (rates.frame_rate_cap,), running),
    ensures
        pacing.surface_retry_pending ==> nanos == 250_000_000,
        !pacing.surface_retry_pending && pacing.pending_resize is Some && target == Target::Native
            ==> nanos == resizing,
        !pacing.surface_retry_pending && pacing.pending_resize is Some && target == Target::Web
            && rates.resize_frame_rate_cap <= 20 ==> nanos == resizing,
        !pacing.surface_retry_pending && pacing.pending_resize is Some && target == Target::Web
            && rates.resize_frame_rate_cap > 20 ==> nanos == slow,
        !pacing.surface_retry_pending && pacing.pending_resize is None && rates.vsync_enabled
            ==> nanos == 0,
        !pacing.surface_retry_pending && pacing.pending_resize is None && !rates.vsync_enabled
            ==> nanos == running,
{
}

/// A pending resize is taken if there is a surface: exactly on a desktop or once the
/// edge stands still, and otherwise with room for the window.
pub proof fn resizes_are_taken(
    pacing: &mut FramePacing,
    now: u64,
    current: Option<SurfaceSize>,
    target: Target,
    size: Option<SurfaceSize>,
)
    requires
        call_ensures(FramePacing::take_resize_to_apply, (pacing, now, current, target), size),
    ensures
        size is Some <==> old(pacing).pending_resize is Some && current is Some,
        size is Some && target == Target::Native ==> size == old(pacing).pending_resize,
        size is Some && old(pacing).last_resize_event is None ==> size
            == old(pacing).pending_resize,
        size is Some && old(pacing).last_resize_event is Some && now
            >= old(pacing).last_resize_event->0 + 120_000_000 ==> size
            == old(pacing).pending_resize,
        size is Some ==> size->0.width >= old(pacing).pending_resize->0.width && size->0.height
            >= old(pacing).pending_resize->0.height,
        size is Some && size == old(pacing).pending_resize && target == Target::Native ==> final(pacing).pending_resize is None,
        size is None ==> final(pacing).pending_resize == old(pacing).pending_resize,
        size is Some && target == Target::Web && old(pacing).last_resize_event is Some && now
            < old(pacing).last_resize_event->0 + 120_000_000 ==> final(pacing).pending_resize
            == old(pacing).pending_resize,
        final(pacing).redraw_requested == old(pacing).redraw_requested,
        final(pacing).last_render_time == old(pacing).last_render_time,
        final(pacing).last_resize_event == old(pacing).last_resize_event,
{
}

/// The time of a frame is at most the time since it began or was wanted, whichever
/// was first, and never overlaps that of the frame before.
pub proof fn frame_time_is_counted_once(
    pacing: &mut FramePacing,
    start: u64,
    end: u64,
    busy: u64,
)
    requires
        call_ensures(FramePacing::record_frame_time, (pacing, start, end), busy),
    ensures
        busy <= end,
        old(pacing).last_frame_end is Some && old(pacing).last_frame_end->0 <= end ==> busy <= end
            - old(pacing).last_frame_end->0,
        old(pacing).last_frame_end is None && old(pacing).frame_demanded_at is None && start <= end
            ==> busy == end - start,
        old(pacing).last_frame_end is None && old(pacing).frame_demanded_at is Some
            && old(pacing).frame_demanded_at->0 <= start <= end ==> busy == end
            - old(pacing).frame_demanded_at->0,
        old(pacing).frame_demanded_at is Some && old(pacing).frame_demanded_at->0 > start && start
            <= end && old(pacing).last_frame_end is None ==> busy == end - start,
        old(pacing).last_frame_end is Some && old(pacing).last_frame_end->0 >= start && start <= end
            && old(pacing).last_frame_end->0 <= end ==> busy == end
            - old(pacing).last_frame_end->0,
        final(pacing).last_frame_end == Some(end),
        final(pacing).frame_demanded_at is None,
        final(pacing).redraw_requested == old(pacing).redraw_requested,
        final(pacing).last_render_time == old(pacing).last_render_time,
        final(pacing).pending_resize == old(pacing).pending_resize,
{
}

/// A frame is drawn only into an open window and only if something asks for one, and
/// then at once, unless the last one was drawn too short a time ago. What asks is
/// not forgotten.
pub proof fn frames_are_drawn_on_demand(
    pacing: &mut FramePacing,
    m: Moment,
    plan: Schedule,
    hold: u64,
)
    requires
        call_ensures(FramePacing::schedule, (pacing, m), plan),
        call_ensures(FramePacing::frame_interval, (&*old(pacing), m.rates, m.target), hold),
    ensures
        ({
            let repaint = old(pacing).next_ui_repaint_deadline;
            let demanded = old(pacing).redraw_requested || m.continuous_redraw || (repaint is Some
                && repaint->0 <= m.now);
            let rested = old(pacing).last_render_time is None || m.now
                >= old(pacing).last_render_time->0 + hold;
            &&& plan.redraw ==> m.window_open && rested
            &&& demanded && m.window_open && rested ==> plan.redraw
            &&& !demanded && old(pacing).pending_resize is None ==> !plan.redraw
            &&& plan.redraw ==> !final(pacing).redraw_requested
            &&& old(pacing).redraw_requested && !plan.redraw ==> final(pacing).redraw_requested
            &&& repaint is Some && repaint->0 <= m.now ==> final(pacing).next_ui_repaint_deadline is None
            &&& repaint is Some && repaint->0 > m.now ==> final(pacing).next_ui_repaint_deadline
                == repaint
        }),
        plan.redraw_slice <==> old(pacing).slice_surface_retry_deadline is Some
            && old(pacing).slice_surface_retry_deadline->0 <= m.now && m.graphics_ready,
        final(pacing).pending_resize == old(pacing).pending_resize,
        final(pacing).last_render_time == old(pacing).last_render_time,
        final(pacing).last_frame_end == old(pacing).last_frame_end,
        final(pacing).surface_retry_pending == old(pacing).surface_retry_pending,
        old(pacing).frame_demanded_at is Some ==> final(pacing).frame_demanded_at
            == old(pacing).frame_demanded_at,
        old(pacing).frame_demanded_at is None && (old(pacing).redraw_requested
            || m.continuous_redraw) ==> final(pacing).frame_demanded_at == Some(m.now),
{
}

/// With nothing pending the loop sleeps until something happens; with work pending
/// it wakes to look after it.
pub proof fn the_loop_sleeps_when_idle(pacing: &mut FramePacing, m: Moment, plan: Schedule)
    requires
        call_ensures(FramePacing::schedule, (pacing, m), plan),
        m.now <= u64::MAX - 16_000_000,
        !old(pacing).redraw_requested,
        !m.continuous_redraw,
        old(pacing).next_ui_repaint_deadline is None,
        old(pacing).pending_resize is None,
        old(pacing).slice_surface_retry_deadline is None,
    ensures
        !plan.redraw,
        !plan.redraw_slice,
        !m.tasks_pending ==> plan.wake == Wake::OnEvent,
        m.tasks_pending ==> plan.wake == Wake::At((m.now + 16_000_000) as u64),
{
}

/// The main window is opened once, and maximized on a desktop; on a page it has its
/// place there.
pub proof fn one_main_window_is_opened<P>(app: &App<P>, plan: Option<WindowPlan>)
    requires
        call_ensures(App::<P>::resumed, (app,), plan),
    ensures
        app.window_open <==> plan is None,
        plan is Some ==> plan->0.min_size.width == 900 && plan->0.min_size.height == 500,
        plan is Some ==> (plan->0.maximized <==> app.target == Target::Native),
        plan is Some ==> (plan->0.on_page <==> app.target == Target::Web),
        plan is Some ==> (plan->0.size is Some <==> app.target == Target::Native),
{
}

/// An open window is known to be open, and gets the system's menu where there is one.
pub proof fn the_window_is_known_to_be_open<P>(app: &mut App<P>, menu_bar: bool)
    requires
        call_ensures(App::<P>::window_created, (app, menu_bar), ()),
    ensures
        final(app).window_open,
        menu_bar ==> final(app).outbox@ == old(app).outbox@.push(Effect::InstallMenuBar),
        !menu_bar ==> final(app).outbox@ == old(app).outbox@,
        final(app).workspace == old(app).workspace,
        final(app).lifecycle == old(app).lifecycle,
{
    if menu_bar {
        assert(final(app).outbox@ =~= old(app).outbox@.push(Effect::InstallMenuBar));
    } else {
        assert(final(app).outbox@ =~= old(app).outbox@);
    }
}

/// Without a window or a renderer the application closes, and says why.
pub proof fn there_is_no_running_without_a_window<P>(app: &mut App<P>, reason: String)
    requires
        call_ensures(App::<P>::window_failed, (app, reason), ()),
    ensures
        final(app).lifecycle.close_requested,
        final(app).outbox@.len() > old(app).outbox@.len(),
        final(app).outbox@[old(app).outbox@.len() as int] is Notify,
        final(app).outbox@[old(app).outbox@.len() as int]->Notify_0.kind
            == NoticeKind::WindowFailed,
        final(app).outbox@[old(app).outbox@.len() as int]->Notify_0.detail == reason,
        old(app).target == Target::Web <==> final(app).outbox@.len() == old(app).outbox@.len() + 2,
        old(app).target == Target::Web ==> final(app).outbox@.last() is ShowStartupError,
        final(app).workspace == old(app).workspace,
        final(app).lifecycle.fatal_shutdown == old(app).lifecycle.fatal_shutdown,
{
}

/// Without a renderer the application closes, and says why.
pub proof fn there_is_no_running_without_a_renderer<P>(app: &mut App<P>, reason: String)
    requires
        call_ensures(App::<P>::graphics_failed, (app, reason), ()),
    ensures
        final(app).lifecycle.close_requested,
        final(app).outbox@.len() == old(app).outbox@.len() + 1,
        final(app).outbox@.last() is Notify,
        final(app).outbox@.last()->Notify_0.kind == NoticeKind::GraphicsFailed,
        final(app).outbox@.last()->Notify_0.detail == reason,
        final(app).surface == old(app).surface,
        final(app).workspace == old(app).workspace,
{
}

/// A renderer that runs is used, and everything is shown.
pub proof fn a_renderer_shows_everything<P>(app: &mut App<P>, surface: SurfaceSize)
    requires
        call_ensures(App::<P>::graphics_created, (app, surface), ()),
    ensures
        final(app).surface == Some(surface),
        final(app).pacing.redraw_requested,
        final(app).outbox@.last() == Effect::FitView,
        final(app).lifecycle == old(app).lifecycle,
        final(app).workspace == old(app).workspace,
{
}

/// Closing the window leaves no window, renderer or frame pending, keeps the work,
/// and lets a page be left.
pub proof fn a_closed_window_keeps_the_work<P>(app: &mut App<P>)
    requires
        call_ensures(App::<P>::teardown_window, (app,), ()),
    ensures
        !final(app).window_open,
        final(app).surface is None,
        !final(app).slice_window_open,
        !final(app).pacing.redraw_requested,
        final(app).pacing.pending_resize is None,
        final(app).pacing.last_render_time is None,
        !final(app).pacing.surface_retry_pending,
        final(app).pacing.slice_surface_retry_deadline is None,
        final(app).outbox@.last() == Effect::DropWindow,
        old(app).target == Target::Web ==> final(app).outbox@[old(app).outbox@.len() as int]
            == Effect::SetBrowserDirty(false),
        final(app).workspace == old(app).workspace,
        final(app).items == old(app).items,
        final(app).editor == old(app).editor,
        final(app).lifecycle == old(app).lifecycle,
        final(app).tasks == old(app).tasks,
        final(app).browser == old(app).browser,
{
}

/// The slice preview gets a window of its own on a desktop only, once, and only if
/// it is detached.
pub proof fn the_preview_is_detached_on_a_desktop<P>(app: &mut App<P>, wanted: bool)
    requires
        call_ensures(App::<P>::sync_slice_preview_window, (app,), wanted),
    ensures
        old(app).target == Target::Web ==> !wanted
            && !final(app).editor.flags.slice_preview_detached,
        old(app).target == Target::Native ==> final(app).editor == old(app).editor,
        wanted ==> old(app).editor.flags.slice_preview_detached,
        old(app).surface is Some && old(app).slice_window_open ==> !wanted,
        old(app).target == Target::Native && old(app).editor.flags.slice_preview_detached
            && !old(app).slice_window_open ==> wanted,
        final(app).workspace == old(app).workspace,
{
}

/// A preview that got no window stays where it was, and the user is told.
pub proof fn a_preview_without_a_window_stays<P>(app: &mut App<P>, failure: Option<String>)
    requires
        call_ensures(App::<P>::slice_preview_opened, (app, failure), ()),
        failure is Some,
    ensures
        !final(app).editor.flags.slice_preview_detached,
        final(app).outbox@.len() == old(app).outbox@.len() + 1,
        final(app).outbox@.last() is Notify,
        final(app).outbox@.last()->Notify_0.kind == NoticeKind::SlicePreviewFailed,
        final(app).outbox@.last()->Notify_0.detail == failure->0,
{
}

/// The mouse asks for a frame if it moves the camera that draws one.
pub proof fn the_camera_asks_for_frames<P>(app: &mut App<P>, moved: bool)
    requires
        call_ensures(App::<P>::device_event, (app, moved), ()),
    ensures
        moved && old(app).surface is Some ==> final(app).pacing.redraw_requested,
        !moved || old(app).surface is None ==> final(app).pacing == old(app).pacing,
        final(app).outbox == old(app).outbox,
        final(app).workspace == old(app).workspace,
        final(app).editor == old(app).editor,
{
}

/// A page learns whether leaving it would lose work; a desktop is told nothing.
pub proof fn the_page_learns_of_unsaved_work<P>(app: &mut App<P>, unsaved: bool)
    requires
        call_ensures(App::<P>::announce_unsaved, (app, unsaved), ()),
    ensures
        old(app).target == Target::Web ==> final(app).outbox@.len() == old(app).outbox@.len() + 1
            && final(app).outbox@.last() == Effect::SetBrowserDirty(unsaved),
        old(app).target == Target::Native ==> final(app).outbox@ == old(app).outbox@,
{
}

/// The application leaves when it is asked to; after a fatal failure it leaves once
/// no writer is at work, and looks again shortly while one is.
pub proof fn writers_finish_before_a_fatal_exit<P>(
    app: &mut App<P>,
    saves_pending: bool,
    now: u64,
    step: ExitStep,
)
    requires
        call_ensures(App::<P>::settle_exit, (app, saves_pending, now), step),
        now <= u64::MAX - 16_000_000,
    ensures
        old(app).lifecycle.fatal_shutdown && saves_pending ==> step == ExitStep::WaitUntil(
            (now + 16_000_000) as u64,
        ) && *final(app) == *old(app),
        old(app).lifecycle.fatal_shutdown && !saves_pending ==> step == ExitStep::Leave,
        !old(app).lifecycle.fatal_shutdown && old(app).lifecycle.close_requested ==> step
            == ExitStep::Leave,
        !old(app).lifecycle.fatal_shutdown && !old(app).lifecycle.close_requested ==> step
            == ExitStep::Stay && *final(app) == *old(app),
        step == ExitStep::Leave ==> !final(app).window_open && final(app).surface is None,
        final(app).workspace == old(app).workspace,
        final(app).items == old(app).items,
{
}

/// Before the loop waits, writers are looked at, then dialogs, and then a frame is
/// planned; an exit leaves the rest out.
pub proof fn the_wait_goes_in_turn<P>(
    app: &mut App<P>,
    phase: WaitPhase,
    event: WaitEvent,
    step: (WaitPhase, WaitAction),
)
    requires
        call_ensures(App::<P>::next_before_wait, (app, phase, event), step),
    ensures
        phase == WaitPhase::Saves && event is SavesLookedAt
            && !old(app).lifecycle.fatal_shutdown && !old(app).lifecycle.close_requested ==> step.0
            == WaitPhase::Dialogs && step.1 == WaitAction::LookAtDialogs,
        phase == WaitPhase::Saves && event is SavesLookedAt && !old(app).lifecycle.fatal_shutdown
            && old(app).lifecycle.close_requested ==> step.0 == WaitPhase::Settled && step.1
            == WaitAction::Leave && !final(app).window_open,
        phase == WaitPhase::Saves && event is SavesLookedAt && old(app).lifecycle.fatal_shutdown
            ==> step.0 == WaitPhase::Settled && (step.1 == WaitAction::Leave
            <==> !event->SavesLookedAt_pending),
        phase == WaitPhase::Dialogs && event is DialogsLookedAt ==> step.0 == WaitPhase::Settled
            && step.1 is Follow,
        phase == WaitPhase::Settled ==> step.0 == WaitPhase::Settled && step.1
            == WaitAction::Nothing && *final(app) == *old(app),
        step.1 is Follow && step.1->Follow_0.redraw ==> old(app).window_open,
        final(app).workspace == old(app).workspace,
        final(app).items == old(app).items,
        final(app).editor == old(app).editor,
{
}

/// A frame that is planned before the wait goes by the preferences in force.
pub proof fn frames_go_by_the_preferences<P>(
    app: &mut App<P>,
    now: u64,
    continuous: bool,
    tasks_pending: bool,
    plan: Schedule,
    hold: u64,
)
    requires
        call_ensures(App::<P>::about_to_wait, (app, now, continuous, tasks_pending), plan),
        call_ensures(
            FramePacing::frame_interval,
            (
                &old(app).pacing,
                RateSettings {
                    vsync_enabled: old(app).editor.preferences.vsync_enabled,
                    frame_rate_cap: old(app).editor.preferences.frame_rate_cap,
                    resize_frame_rate_cap: old(app).editor.preferences.resize_frame_rate_cap,
                },
                old(app).target,
            ),
            hold,
        ),
    ensures
        plan.redraw ==> old(app).window_open && (old(app).pacing.last_render_time is None || now
            >= old(app).pacing.last_render_time->0 + hold),
        old(app).window_open && (old(app).pacing.redraw_requested || (continuous
            && old(app).surface is Some)) && (old(app).pacing.last_render_time is None || now
            >= old(app).pacing.last_render_time->0 + hold) ==> plan.redraw,
        plan.redraw_slice ==> old(app).surface is Some,
        final(app).outbox == old(app).outbox,
        final(app).workspace == old(app).workspace,
        final(app).editor == old(app).editor,
{
}

} // verus!
