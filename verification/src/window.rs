//! The window's life: opening it and its renderer, the slice preview's window,
//! and leaving.
use crate::app::{App, Lifecycle};
use crate::editor::{EditorFlags, EditorState};
use crate::effects::{Effect, Notice, NoticeKind};
use crate::language::Target;
use crate::pacing::{FramePacing, Moment, RateSettings, Schedule, SurfaceSize, TASK_POLL_DELAY};
use crate::text::joined;
use vstd::prelude::*;

verus! {

/// How a window is to be opened.
#[derive(Debug, Clone, Copy, PartialEq, Eq, Structural)]
pub struct WindowPlan {
    pub min_size: SurfaceSize,
    /// The size to open with, where that is the window's to choose.
    pub size: Option<SurfaceSize>,
    pub maximized: bool,
    /// The window is put on the page.
    pub on_page: bool,
}

/// What to do when a request to leave is looked at.
#[derive(Debug, Clone, Copy, PartialEq, Eq, Structural)]
pub enum ExitStep {
    /// Leave now.
    Leave,
    /// Look again at this time.
    WaitUntil(u64),
    /// Nothing asks to leave.
    Stay,
}

/// How far the event loop has come before it waits.
#[derive(Debug, Clone, Copy, PartialEq, Eq, Structural)]
pub enum WaitPhase {
    /// Background writers are looked at first: one that is done must not be
    /// stopped by an exit that came before anyone noticed.
    Saves,
    /// Nothing asks to leave. Dialogs are looked at.
    Dialogs,
    /// It is decided what the loop does next.
    Settled,
}

/// Something that was looked at before the event loop waits.
#[derive(Debug, Clone, Copy, PartialEq, Eq, Structural)]
pub enum WaitEvent {
    /// The background writers. `pending` tells whether any is still at work.
    SavesLookedAt { pending: bool, now: u64 },
    /// The dialogs. `tasks_pending` tells whether any dialog, save or job is
    /// pending.
    DialogsLookedAt { tasks_pending: bool, continuous_redraw: bool, now: u64 },
}

/// What the event loop does next.
#[derive(Debug, Clone, Copy, PartialEq, Eq, Structural)]
pub enum WaitAction {
    /// Leave now.
    Leave,
    /// Wait until this time, and draw nothing.
    WaitUntil(u64),
    /// Look at dialogs.
    LookAtDialogs,
    /// Ask for the frames that are due, and wait.
    Follow(Schedule),
    Nothing,
}

/// What is said when the slice preview's window could not be opened.
pub open spec fn preview_failure(reason: String) -> Effect {
    Effect::Notify(Notice { kind: NoticeKind::SlicePreviewFailed, detail: reason })
}

/// The slice preview's window.
pub fn slice_preview_window() -> (plan: WindowPlan)
    ensures
        plan == (WindowPlan {
            min_size: SurfaceSize { width: 320, height: 240 },
            size: Some(SurfaceSize { width: 800, height: 700 }),
            maximized: false,
            on_page: false,
        }),
{
    WindowPlan {
        min_size: SurfaceSize { width: 320, height: 240 },
        size: Some(SurfaceSize { width: 800, height: 700 }),
        maximized: false,
        on_page: false,
    }
}

impl<P> App<P> {
    /// The main window, if it is not open: on a page it fills its place, on a
    /// desktop it opens maximized.
    pub fn resumed(&self) -> (plan: Option<WindowPlan>)
        ensures
            plan == (if self.window_open {
                None
            } else {
                Some(
                    WindowPlan {
                        min_size: SurfaceSize { width: 900, height: 500 },
                        size: if self.target == Target::Native {
                            Some(SurfaceSize { width: 900, height: 500 })
                        } else {
                            None
                        },
                        maximized: self.target == Target::Native,
                        on_page: self.target == Target::Web,
                    },
                )
            }),
    {
        if self.window_open {
            return None;
        }
        let min_size: SurfaceSize = SurfaceSize { width: 900, height: 500 };
        match self.target {
            Target::Native => Some(
                WindowPlan { min_size, size: Some(min_size), maximized: true, on_page: false },
            ),
            Target::Web => Some(
                WindowPlan { min_size, size: None, maximized: false, on_page: true },
            ),
        }
    }

    /// The main window is open. `menu_bar` tells whether the system has one
    /// outside of windows.
    pub fn window_created(&mut self, menu_bar: bool)
        ensures
            final(self).outbox@ == old(self).outbox@ + (if menu_bar {
                seq![Effect::InstallMenuBar]
            } else {
                Seq::empty()
            }),
            *final(self) == (App { window_open: true, outbox: final(self).outbox, ..*old(self) }),
    {
        self.window_open = true;
        if menu_bar {
            self.outbox.push(Effect::InstallMenuBar);
        }
        proof {
            assert(self.outbox@ =~= old(self).outbox@ + (if menu_bar {
                seq![Effect::InstallMenuBar]
            } else {
                Seq::empty()
            }));
        }
    }

    /// What is said when the main window could not be opened; `text` is for the
    /// page.
    pub open spec fn window_failure(&self, reason: String, text: String) -> Seq<Effect> {
        seq![Effect::Notify(Notice { kind: NoticeKind::WindowFailed, detail: reason })] + (
        if self.target == Target::Web {
            seq![Effect::ShowStartupError(text)]
        } else {
            Seq::empty()
        })
    }

    /// The main window could not be opened; there is nothing to run in.
    pub fn window_failed(&mut self, reason: String)
        ensures
            exists|text: String|
                text@ == "failed to create the browser window: "@ + reason@ && final(self).outbox@
                    == old(self).outbox@ + #[trigger] old(self).window_failure(reason, text),
            *final(self) == (App {
                lifecycle: Lifecycle { close_requested: true, ..old(self).lifecycle },
                outbox: final(self).outbox,
                ..*old(self)
            }),
    {
        let text: String = joined("failed to create the browser window: ", reason.as_str());
        let ghost page_text = text;
        self.outbox.push(Effect::Notify(Notice { kind: NoticeKind::WindowFailed, detail: reason }));
        match self.target {
            Target::Web => {
                self.outbox.push(Effect::ShowStartupError(text));
            },
            Target::Native => {},
        }
        proof {
            assert(self.outbox@ =~= old(self).outbox@ + old(self).window_failure(
                reason,
                page_text,
            ));
        }
        self.lifecycle.close_requested = true;
    }

    /// The renderer runs, with a surface of this size, and shows everything.
    pub fn graphics_created(&mut self, surface: SurfaceSize)
        ensures
            final(self).outbox@ == old(self).outbox@ + seq![
                Effect::ApplyPresentMode,
                Effect::FitView,
            ],
            *final(self) == (App {
                surface: Some(surface),
                pacing: FramePacing { redraw_requested: true, ..old(self).pacing },
                outbox: final(self).outbox,
                ..*old(self)
            }),
    {
        self.surface = Some(surface);
        self.outbox.push(Effect::ApplyPresentMode);
        self.pacing.redraw_requested = true;
        self.fit_view_to_extents();
        proof {
            assert(self.outbox@ =~= old(self).outbox@ + seq![
                Effect::ApplyPresentMode,
                Effect::FitView,
            ]);
        }
    }

    /// The renderer does not run; there is nothing to show.
    pub fn graphics_failed(&mut self, reason: String)
        ensures
            final(self).outbox@ == old(self).outbox@.push(
                Effect::Notify(Notice { kind: NoticeKind::GraphicsFailed, detail: reason }),
            ),
            *final(self) == (App {
                lifecycle: Lifecycle { close_requested: true, ..old(self).lifecycle },
                outbox: final(self).outbox,
                ..*old(self)
            }),
    {
        self.notify(Notice { kind: NoticeKind::GraphicsFailed, detail: reason });
        self.lifecycle.close_requested = true;
    }

    /// The window and its renderer are gone.
    pub open spec fn torn_down(&self, after: &App<P>) -> bool {
        &&& after.outbox@ == self.outbox@ + (if self.target == Target::Web {
            seq![Effect::SetBrowserDirty(false), Effect::DropWindow]
        } else {
            seq![Effect::DropWindow]
        })
        &&& *after == (App {
            surface: None,
            slice_window_open: false,
            window_open: false,
            pacing: FramePacing {
                pending_resize: None,
                last_render_time: None,
                surface_retry_pending: false,
                slice_surface_retry_deadline: None,
                redraw_requested: false,
                ..self.pacing
            },
            outbox: after.outbox,
            ..*self
        })
    }

    /// Closes the window and its renderer. Leaving the page loses no work.
    pub fn teardown_window(&mut self)
        ensures
            old(self).torn_down(final(self)),
    {
        match self.target {
            Target::Web => {
                self.outbox.push(Effect::SetBrowserDirty(false));
            },
            Target::Native => {},
        }
        self.outbox.push(Effect::DropWindow);
        self.surface = None;
        self.slice_window_open = false;
        self.window_open = false;
        self.pacing.pending_resize = None;
        self.pacing.last_render_time = None;
        self.pacing.surface_retry_pending = false;
        self.pacing.slice_surface_retry_deadline = None;
        self.pacing.redraw_requested = false;
        proof {
            assert(self.outbox@ =~= old(self).outbox@ + (if old(self).target == Target::Web {
                seq![Effect::SetBrowserDirty(false), Effect::DropWindow]
            } else {
                seq![Effect::DropWindow]
            }));
        }
    }

    /// The event loop ends.
    pub fn exiting(&mut self)
        ensures
            old(self).torn_down(final(self)),
    {
        self.teardown_window();
    }

    /// The slice preview is to have a window of its own and has none.
    pub open spec fn slice_window_wanted(&self) -> bool {
        self.target == Target::Native && self.editor.flags.slice_preview_detached && !(
        self.surface is Some && self.slice_window_open)
    }

    /// Whether the slice preview needs a window to be opened now. On a page it
    /// stays where it is.
    pub fn sync_slice_preview_window(&mut self) -> (wanted: bool)
        ensures
            wanted == old(self).slice_window_wanted(),
            *final(self) == (App {
                editor: EditorState {
                    flags: EditorFlags {
                        slice_preview_detached: old(self).editor.flags.slice_preview_detached
                            && old(self).target == Target::Native,
                        ..old(self).editor.flags
                    },
                    ..old(self).editor
                },
                ..*old(self)
            }),
    {
        match self.target {
            Target::Web => {
                self.editor.flags.slice_preview_detached = false;
                false
            },
            Target::Native => self.editor.flags.slice_preview_detached && !(self.surface.is_some()
                && self.slice_window_open),
        }
    }

    /// The slice preview's window was opened, or was not for this reason; then
    /// the preview stays where it is. Without a renderer there is nothing to
    /// show in it.
    pub fn slice_preview_opened(&mut self, failure: Option<String>)
        ensures
            match failure {
                Some(reason) => {
                    &&& final(self).outbox@ == old(self).outbox@.push(preview_failure(reason))
                    &&& *final(self) == (App {
                        editor: EditorState {
                            flags: EditorFlags {
                                slice_preview_detached: false,
                                ..old(self).editor.flags
                            },
                            ..old(self).editor
                        },
                        outbox: final(self).outbox,
                        ..*old(self)
                    })
                },
                None => if old(self).surface is Some {
                    *final(self) == (App { slice_window_open: true, ..*old(self) })
                } else {
                    &&& exists|text: String|
                        text@ == "renderer is not initialized"@ && final(self).outbox@ == old(
                            self,
                        ).outbox@.push(#[trigger] preview_failure(text))
                    &&& *final(self) == (App {
                        editor: EditorState {
                            flags: EditorFlags {
                                slice_preview_detached: false,
                                ..old(self).editor.flags
                            },
                            ..old(self).editor
                        },
                        outbox: final(self).outbox,
                        ..*old(self)
                    })
                },
            },
    {
        match failure {
            Some(reason) => self.keep_preview_docked(reason),
            None => if self.surface.is_some() {
                self.slice_window_open = true;
            } else {
                self.keep_preview_docked("renderer is not initialized".to_owned());
            },
        }
    }

    /// The slice preview stays where it is, for this reason.
    fn keep_preview_docked(&mut self, reason: String)
        ensures
            final(self).outbox@ == old(self).outbox@.push(preview_failure(reason)),
            *final(self) == (App {
                editor: EditorState {
                    flags: EditorFlags { slice_preview_detached: false, ..old(self).editor.flags },
                    ..old(self).editor
                },
                outbox: final(self).outbox,
                ..*old(self)
            }),
    {
        self.outbox.push(
            Effect::Notify(Notice { kind: NoticeKind::SlicePreviewFailed, detail: reason }),
        );
        self.editor.flags.slice_preview_detached = false;
    }

    /// The mouse moved. `moved` tells whether that moves the camera.
    pub fn device_event(&mut self, moved: bool)
        ensures
            *final(self) == (App {
                pacing: FramePacing {
                    redraw_requested: old(self).pacing.redraw_requested || (moved && old(
                        self,
                    ).surface is Some),
                    ..old(self).pacing
                },
                ..*old(self)
            }),
    {
        if moved && self.surface.is_some() {
            self.pacing.redraw_requested = true;
        }
    }

    /// Before the event loop waits, the page learns whether leaving it would
    /// lose work.
    pub fn announce_unsaved(&mut self, unsaved: bool)
        ensures
            final(self).outbox@ == (if old(self).target == Target::Web {
                old(self).outbox@.push(Effect::SetBrowserDirty(unsaved))
            } else {
                old(self).outbox@
            }),
            *final(self) == (App { outbox: final(self).outbox, ..*old(self) }),
    {
        match self.target {
            Target::Web => {
                self.outbox.push(Effect::SetBrowserDirty(unsaved));
            },
            Target::Native => {},
        }
    }

    /// What a request to leave comes to.
    pub open spec fn exit_step(&self, saves_pending: bool, now: u64) -> ExitStep {
        if self.lifecycle.fatal_shutdown {
            if saves_pending {
                ExitStep::WaitUntil((now + TASK_POLL_DELAY) as u64)
            } else {
                ExitStep::Leave
            }
        } else if self.lifecycle.close_requested {
            ExitStep::Leave
        } else {
            ExitStep::Stay
        }
    }

    /// Looks at requests to leave, after background writers were looked at.
    /// After a fatal failure the writers finish first, so that none is stopped
    /// in the middle.
    pub fn settle_exit(&mut self, saves_pending: bool, now: u64) -> (step: ExitStep)
        requires
            now <= u64::MAX - TASK_POLL_DELAY,
        ensures
            step == old(self).exit_step(saves_pending, now),
            step == ExitStep::Leave ==> old(self).torn_down(final(self)),
            step != ExitStep::Leave ==> *final(self) == *old(self),
    {
        if self.lifecycle.fatal_shutdown {
            if saves_pending {
                return ExitStep::WaitUntil(now + TASK_POLL_DELAY);
            }
            self.teardown_window();
            return ExitStep::Leave;
        }
        if self.lifecycle.close_requested {
            self.teardown_window();
            return ExitStep::Leave;
        }
        ExitStep::Stay
    }

    /// The moment that the next frame is scheduled in.
    pub open spec fn moment(&self, now: u64, continuous_redraw: bool, tasks_pending: bool) -> Moment {
        Moment {
            now,
            continuous_redraw: continuous_redraw && self.surface is Some,
            window_open: self.window_open,
            graphics_ready: self.surface is Some,
            tasks_pending,
            target: self.target,
            rates: RateSettings {
                vsync_enabled: self.editor.preferences.vsync_enabled,
                frame_rate_cap: self.editor.preferences.frame_rate_cap,
                resize_frame_rate_cap: self.editor.preferences.resize_frame_rate_cap,
            },
        }
    }

    /// What to do before the event loop waits, and when to wake it.
    pub fn about_to_wait(&mut self, now: u64, continuous_redraw: bool, tasks_pending: bool) -> (plan:
        Schedule)
        requires
            old(self).pacing.clock_in_range(
                old(self).moment(now, continuous_redraw, tasks_pending),
            ),
        ensures
            old(self).pacing.scheduled(
                old(self).moment(now, continuous_redraw, tasks_pending),
                plan,
                final(self).pacing,
            ),
            *final(self) == (App { pacing: final(self).pacing, ..*old(self) }),
    {
        let m: Moment = Moment {
            now,
            continuous_redraw: continuous_redraw && self.surface.is_some(),
            window_open: self.window_open,
            graphics_ready: self.surface.is_some(),
            tasks_pending,
            target: self.target,
            rates: RateSettings {
                vsync_enabled: self.editor.preferences.vsync_enabled,
                frame_rate_cap: self.editor.preferences.frame_rate_cap,
                resize_frame_rate_cap: self.editor.preferences.resize_frame_rate_cap,
            },
        };
        self.pacing.schedule(m)
    }

    /// The clock leaves room for the delays that are added to it.
    pub open spec fn wait_in_range(&self, phase: WaitPhase, event: WaitEvent) -> bool {
        match (phase, event) {
            (WaitPhase::Saves, WaitEvent::SavesLookedAt { pending, now }) => now <= u64::MAX
                - TASK_POLL_DELAY,
            (
                WaitPhase::Dialogs,
                WaitEvent::DialogsLookedAt { tasks_pending, continuous_redraw, now },
            ) => self.pacing.clock_in_range(self.moment(now, continuous_redraw, tasks_pending)),
            _ => true,
        }
    }

    /// Where the loop stands after an event, what it does then, and what that
    /// makes of the application. A frame is planned only after dialogs were
    /// looked at, and these only if nothing asks to leave.
    pub open spec fn wait_step(
        &self,
        phase: WaitPhase,
        event: WaitEvent,
        next: WaitPhase,
        action: WaitAction,
        after: &App<P>,
    ) -> bool {
        match (phase, event) {
            (WaitPhase::Saves, WaitEvent::SavesLookedAt { pending, now }) => match self.exit_step(
                pending,
                now,
            ) {
                ExitStep::Leave => {
                    &&& action == WaitAction::Leave
                    &&& next == WaitPhase::Settled
                    &&& self.torn_down(after)
                },
                ExitStep::WaitUntil(time) => {
                    &&& action == WaitAction::WaitUntil(time)
                    &&& next == WaitPhase::Settled
                    &&& *after == *self
                },
                ExitStep::Stay => {
                    &&& action == WaitAction::LookAtDialogs
                    &&& next == WaitPhase::Dialogs
                    &&& *after == *self
                },
            },
            (
                WaitPhase::Dialogs,
                WaitEvent::DialogsLookedAt { tasks_pending, continuous_redraw, now },
            ) => {
                &&& action is Follow
                &&& next == WaitPhase::Settled
                &&& self.pacing.scheduled(
                    self.moment(now, continuous_redraw, tasks_pending),
                    action->Follow_0,
                    after.pacing,
                )
                &&& *after == (App { pacing: after.pacing, ..*self })
            },
            _ => {
                &&& action == WaitAction::Nothing
                &&& next == phase
                &&& *after == *self
            },
        }
    }

    /// The next step before the event loop waits.
    pub fn next_before_wait(&mut self, phase: WaitPhase, event: WaitEvent) -> (step: (
        WaitPhase,
        WaitAction,
    ))
        requires
            old(self).wait_in_range(phase, event),
        ensures
            old(self).wait_step(phase, event, step.0, step.1, final(self)),
    {
        match (phase, event) {
            (WaitPhase::Saves, WaitEvent::SavesLookedAt { pending, now }) => {
                match self.settle_exit(pending, now) {
                    ExitStep::Leave => (WaitPhase::Settled, WaitAction::Leave),
                    ExitStep::WaitUntil(time) => (WaitPhase::Settled, WaitAction::WaitUntil(time)),
                    ExitStep::Stay => (WaitPhase::Dialogs, WaitAction::LookAtDialogs),
                }
            },
            (
                WaitPhase::Dialogs,
                WaitEvent::DialogsLookedAt { tasks_pending, continuous_redraw, now },
            ) => {
                let plan: Schedule = self.about_to_wait(now, continuous_redraw, tasks_pending);
                (WaitPhase::Settled, WaitAction::Follow(plan))
            },
            _ => (phase, WaitAction::Nothing),
        }
    }
}

/// Once the loop leaves, or waits for writers before it leaves, nothing is
/// scheduled, whatever else is looked at before it waits.
pub proof fn an_exit_schedules_nothing<P>(
    before: &App<P>,
    phase: WaitPhase,
    event: WaitEvent,
    next: WaitPhase,
    action: WaitAction,
    middle: &App<P>,
    later: &App<P>,
    other: WaitEvent,
    end: WaitPhase,
    last: WaitAction,
    after: &App<P>,
)
    requires
        before.wait_step(phase, event, next, action, middle),
        action is Leave || action is WaitUntil,
        later.wait_step(next, other, end, last, after),
    ensures
        last == WaitAction::Nothing,
        end == next,
        *after == *later,
{
}

/// A frame is planned only if nothing asked to leave when the background writers
/// were looked at.
pub proof fn a_frame_is_planned_only_to_stay<P>(
    before: &App<P>,
    event: WaitEvent,
    next: WaitPhase,
    action: WaitAction,
    middle: &App<P>,
    later: &App<P>,
    other: WaitEvent,
    end: WaitPhase,
    last: WaitAction,
    after: &App<P>,
)
    requires
        before.wait_step(WaitPhase::Saves, event, next, action, middle),
        later.wait_step(next, other, end, last, after),
        last is Follow,
    ensures
        event is SavesLookedAt,
        !before.lifecycle.fatal_shutdown,
        !before.lifecycle.close_requested,
        *middle == *before,
{
}

} // verus!
