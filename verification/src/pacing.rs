//! Frame pacing: when to draw, how long to hold a frame off, what size to give
//! the surface while the window is being resized, and when to wake up next.
//!
//! Times are nanoseconds on one monotonic clock.
use crate::language::Target;
use vstd::prelude::*;

verus! {

/// Ceiling on how often a drag-resize in the browser reconfigures the surface.
pub const WEB_RESIZE_FRAME_RATE_CAP: u32 = 20;

/// How still the window must be for a drag-resize to count as finished.
pub const RESIZE_SETTLE_DELAY: u64 = 120_000_000;

/// Step the surface size is rounded up to while a drag is still moving.
pub const DRAG_SURFACE_QUANTUM: u32 = 64;

/// How long to wait after the surface could not be acquired.
pub const SURFACE_RETRY_DELAY: u64 = 250_000_000;

/// How often pending dialogs, saves and jobs are looked at.
pub const TASK_POLL_DELAY: u64 = 16_000_000;

/// A size in physical pixels.
#[derive(Debug, Clone, Copy, PartialEq, Eq, Structural)]
pub struct SurfaceSize {
    pub width: u32,
    pub height: u32,
}

/// Whether a surface of extent `current` is given another one while the window
/// asks for `requested`: it grows as soon as the window outgrows it, and
/// shrinks only once the window is two steps smaller.
pub open spec fn reconfigures(current: u32, requested: u32) -> bool {
    requested > current || current - requested >= 2 * DRAG_SURFACE_QUANTUM
}

/// `extent` rounded up to a whole number of steps.
pub open spec fn stepped(extent: u32) -> int {
    (extent + DRAG_SURFACE_QUANTUM - 1) / DRAG_SURFACE_QUANTUM as int * DRAG_SURFACE_QUANTUM
}

/// The extent to configure while a drag is moving.
pub open spec fn drag_extent(current: u32, requested: u32) -> int {
    if reconfigures(current, requested) {
        stepped(requested)
    } else {
        current as int
    }
}

/// The surface extent to configure mid-drag, along one axis. The current extent
/// unchanged means that nothing has to be reconfigured.
pub fn drag_surface_extent(current: u32, requested: u32) -> (extent: u32)
    requires
        reconfigures(current, requested) ==> stepped(requested) <= u32::MAX,
    ensures
        extent == drag_extent(current, requested),
{
    if requested > current || current.saturating_sub(requested) >= 2 * DRAG_SURFACE_QUANTUM {
        let whole: u32 = requested / DRAG_SURFACE_QUANTUM;
        if requested % DRAG_SURFACE_QUANTUM == 0 {
            whole * DRAG_SURFACE_QUANTUM
        } else {
            (whole + 1) * DRAG_SURFACE_QUANTUM
        }
    } else {
        current
    }
}

/// The surface is never smaller than the window, and less than two steps
/// larger.
pub proof fn drag_extent_covers_the_window(current: u32, requested: u32)
    ensures
        requested <= drag_extent(current, requested) < requested + 2 * DRAG_SURFACE_QUANTUM,
{
}

/// Asking for the same size again reconfigures nothing.
pub proof fn drag_extent_settles(current: u32, requested: u32)
    requires
        drag_extent(current, requested) <= u32::MAX,
    ensures
        drag_extent(drag_extent(current, requested) as u32, requested) == drag_extent(
            current,
            requested,
        ),
{
}

/// Once a size has been rounded up, an edge that moves back by up to a step, or
/// forward to where the surface ends, reconfigures nothing: moving it to and
/// fro across a step boundary does not reallocate on every frame.
pub proof fn jiggling_does_not_reconfigure(current: u32, requested: u32, next: u32)
    requires
        reconfigures(current, requested),
        stepped(requested) <= u32::MAX,
        requested - DRAG_SURFACE_QUANTUM <= next <= stepped(requested),
    ensures
        drag_extent(stepped(requested) as u32, next) == stepped(requested),
{
}

/// `rate`, kept between one and a thousand.
pub open spec fn usable_rate(rate: u32) -> u32 {
    if rate < 1 {
        1
    } else if rate > 1000 {
        1000
    } else {
        rate
    }
}

/// The whole number of nanoseconds nearest to one second over `rate`.
pub open spec fn rate_nanos(rate: u32) -> u64 {
    ((1_000_000_000 + rate / 2) / rate as int) as u64
}

/// The time between two frames at `rate` frames a second.
pub fn rate_interval(rate: u32) -> (nanos: u64)
    ensures
        nanos == rate_nanos(usable_rate(rate)),
{
    let usable: u32 = if rate < 1 {
        1
    } else if rate > 1000 {
        1000
    } else {
        rate
    };
    (1_000_000_000 + usable as u64 / 2) / usable as u64
}

/// The interval is as near to one second over the rate as whole nanoseconds
/// get.
pub proof fn rate_interval_is_nearest(rate: u32)
    requires
        1 <= rate <= 1000,
    ensures
        2 * (rate_nanos(rate) * rate - 1_000_000_000) <= rate,
        2 * (1_000_000_000 - rate_nanos(rate) * rate) <= rate,
{
    let n = 1_000_000_000 + rate as int / 2;
    let r = rate as int;
    vstd::arithmetic::div_mod::lemma_fundamental_div_mod(n, r);
    vstd::arithmetic::div_mod::lemma_mod_bound(n, r);
    assert(n / r <= n) by {
        vstd::arithmetic::div_mod::lemma_div_is_ordered_by_denominator(n, 1, r);
        vstd::arithmetic::div_mod::lemma_div_basics(n);
    }
    assert(n / r >= 0) by {
        vstd::arithmetic::div_mod::lemma_div_pos_is_pos(n, r);
    }
    assert(rate_nanos(rate) * rate == r * (n / r)) by (nonlinear_arith)
        requires
            rate_nanos(rate) == n / r,
            r == rate,
    ;
}

/// What the user has set about frame rates.
#[derive(Debug, Clone, Copy, PartialEq, Eq, Structural)]
pub struct RateSettings {
    pub vsync_enabled: bool,
    pub frame_rate_cap: u32,
    pub resize_frame_rate_cap: u32,
}

/// When the event loop runs next.
#[derive(Debug, Clone, Copy, PartialEq, Eq, Structural)]
pub enum Wake {
    /// At this time, or at an event before it.
    At(u64),
    /// At the next event.
    OnEvent,
}

/// What the event loop does before it waits.
#[derive(Debug, Clone, Copy, PartialEq, Eq, Structural)]
pub struct Schedule {
    /// Ask the slice preview's window for a frame.
    pub redraw_slice: bool,
    /// Ask the main window for a frame.
    pub redraw: bool,
    pub wake: Wake,
}

/// What the schedule is made for.
#[derive(Debug, Clone, Copy, PartialEq, Eq, Structural)]
pub struct Moment {
    pub now: u64,
    /// The renderer has a reason of its own to draw every frame.
    pub continuous_redraw: bool,
    pub window_open: bool,
    pub graphics_ready: bool,
    /// A dialog, a save or a job is pending.
    pub tasks_pending: bool,
    pub target: Target,
    pub rates: RateSettings,
}

/// The clock of the frame loop.
#[derive(Debug, Clone, Copy, PartialEq, Eq, Structural)]
pub struct FramePacing {
    pub redraw_requested: bool,
    /// When the interface asked to be drawn again.
    pub next_ui_repaint_deadline: Option<u64>,
    /// The latest window size that the surface has not been given. Sizes that
    /// arrive in a burst replace each other.
    pub pending_resize: Option<SurfaceSize>,
    pub last_resize_event: Option<u64>,
    pub last_render_time: Option<u64>,
    /// When the last frame finished, and when one was first wanted after it.
    pub last_frame_end: Option<u64>,
    pub frame_demanded_at: Option<u64>,
    /// The surface could not be acquired.
    pub surface_retry_pending: bool,
    pub slice_surface_retry_deadline: Option<u64>,
}

/// Whether a deadline has passed.
pub open spec fn due(deadline: Option<u64>, now: u64) -> bool {
    deadline is Some && deadline->0 <= now
}

/// Whether a deadline has passed.
pub fn is_due(deadline: Option<u64>, now: u64) -> (yes: bool)
    ensures
        yes == due(deadline, now),
{
    match deadline {
        Some(t) => t <= now,
        None => false,
    }
}

/// The earlier of two deadlines.
pub open spec fn earlier(a: Option<u64>, b: Option<u64>) -> Option<u64> {
    match (a, b) {
        (Some(x), Some(y)) => Some(
            if x <= y {
                x
            } else {
                y
            },
        ),
        (Some(x), None) => Some(x),
        (None, y) => y,
    }
}

/// The earlier of two deadlines.
pub fn earlier_deadline(a: Option<u64>, b: Option<u64>) -> (first: Option<u64>)
    ensures
        first == earlier(a, b),
{
    match (a, b) {
        (Some(x), Some(y)) => if x <= y {
            Some(x)
        } else {
            Some(y)
        },
        (Some(x), None) => Some(x),
        (None, y) => y,
    }
}

impl FramePacing {
    /// Nothing drawn and nothing pending.
    pub fn new() -> (pacing: FramePacing)
        ensures
            pacing == (FramePacing {
                redraw_requested: false,
                next_ui_repaint_deadline: None,
                pending_resize: None,
                last_resize_event: None,
                last_render_time: None,
                last_frame_end: None,
                frame_demanded_at: None,
                surface_retry_pending: false,
                slice_surface_retry_deadline: None,
            }),
    {
        FramePacing {
            redraw_requested: false,
            next_ui_repaint_deadline: None,
            pending_resize: None,
            last_resize_event: None,
            last_render_time: None,
            last_frame_end: None,
            frame_demanded_at: None,
            surface_retry_pending: false,
            slice_surface_retry_deadline: None,
        }
    }

    /// Whether a resize has stood still for long enough.
    pub open spec fn settled(self, now: u64) -> bool {
        self.last_resize_event is None || now - self.last_resize_event->0 >= RESIZE_SETTLE_DELAY
    }

    /// The surface size to configure for a pending resize, if one is due.
    ///
    /// A browser releases replaced swapchains on its own schedule, so while a
    /// drag is still moving there the surface takes a coarsely rounded size
    /// that most frames can reuse, and the exact size stays pending until the
    /// drag settles. A desktop window always takes the exact size.
    pub fn take_resize_to_apply(
        &mut self,
        now: u64,
        current: Option<SurfaceSize>,
        target: Target,
    ) -> (size: Option<SurfaceSize>)
        requires
            target == Target::Web && !old(self).settled(now) && old(self).pending_resize is Some
                && current is Some ==> drag_extent(
                current->0.width,
                old(self).pending_resize->0.width,
            ) <= u32::MAX && drag_extent(current->0.height, old(self).pending_resize->0.height)
                <= u32::MAX,
        ensures
            size is Some <==> old(self).pending_resize is Some && current is Some,
            ({
                let exact = old(self).settled(now) || target == Target::Native;
                &&& size is Some && exact ==> size == old(self).pending_resize
                &&& size is Some && !exact ==> {
                    &&& size->0.width == drag_extent(
                        current->0.width,
                        old(self).pending_resize->0.width,
                    )
                    &&& size->0.height == drag_extent(
                        current->0.height,
                        old(self).pending_resize->0.height,
                    )
                }
                &&& *final(self) == (FramePacing {
                    pending_resize: if size is Some && exact {
                        None
                    } else {
                        old(self).pending_resize
                    },
                    ..*old(self)
                })
            }),
    {
        let requested: SurfaceSize = match self.pending_resize {
            Some(size) => size,
            None => {
                return None;
            },
        };
        let settled: bool = match self.last_resize_event {
            None => true,
            Some(last) => now.saturating_sub(last) >= RESIZE_SETTLE_DELAY,
        };
        let current: SurfaceSize = match current {
            Some(size) => size,
            None => {
                return None;
            },
        };
        let native: bool = match target {
            Target::Native => true,
            Target::Web => false,
        };
        if settled || native {
            self.pending_resize = None;
            return Some(requested);
        }
        Some(
            SurfaceSize {
                width: drag_surface_extent(current.width, requested.width),
                height: drag_surface_extent(current.height, requested.height),
            },
        )
    }

    /// When the frame finished at `end` began to count: when it was first
    /// wanted, but not before the frame before it was done.
    pub open spec fn busy_from(self, frame_start: u64) -> u64 {
        let demanded = match self.frame_demanded_at {
            Some(t) if t < frame_start => t,
            _ => frame_start,
        };
        match self.last_frame_end {
            Some(t) if t > demanded => t,
            _ => demanded,
        }
    }

    /// Counts one frame, begun at `frame_start` and finished at `end`, and
    /// returns the time spent on it.
    ///
    /// Drawing is on demand, so the time between two frames is often spent
    /// waiting for input. Only the time from when a frame was first wanted to
    /// when it finished counts: frames back to back add up to the whole
    /// interval, and a pause of any length adds nothing.
    pub fn record_frame_time(&mut self, frame_start: u64, end: u64) -> (busy: u64)
        ensures
            busy == (if end > old(self).busy_from(frame_start) {
                end - old(self).busy_from(frame_start)
            } else {
                0
            }),
            *final(self) == (FramePacing {
                frame_demanded_at: None,
                last_frame_end: Some(end),
                ..*old(self)
            }),
    {
        let demanded: u64 = match self.frame_demanded_at {
            Some(t) => if t < frame_start {
                t
            } else {
                frame_start
            },
            None => frame_start,
        };
        let busy_from: u64 = match self.last_frame_end {
            Some(t) => if t > demanded {
                t
            } else {
                demanded
            },
            None => demanded,
        };
        self.frame_demanded_at = None;
        self.last_frame_end = Some(end);
        end.saturating_sub(busy_from)
    }

    /// How long to hold off the next frame.
    pub open spec fn interval(self, rates: RateSettings, target: Target) -> u64 {
        if self.surface_retry_pending {
            SURFACE_RETRY_DELAY
        } else if self.pending_resize is Some {
            let cap = rates.resize_frame_rate_cap;
            rate_nanos(
                usable_rate(
                    if target == Target::Web && cap > WEB_RESIZE_FRAME_RATE_CAP {
                        WEB_RESIZE_FRAME_RATE_CAP
                    } else {
                        cap
                    },
                ),
            )
        } else if rates.vsync_enabled {
            0
        } else {
            rate_nanos(usable_rate(rates.frame_rate_cap))
        }
    }

    /// How long to hold off the next frame.
    ///
    /// A failed acquisition never reaches the display, so nothing else paces
    /// it. While resizing, the resize cap applies, and a harder one in the
    /// browser. Otherwise a cap only applies without vsync, which paces by
    /// itself.
    pub fn frame_interval(&self, rates: RateSettings, target: Target) -> (nanos: u64)
        ensures
            nanos == self.interval(rates, target),
    {
        if self.surface_retry_pending {
            SURFACE_RETRY_DELAY
        } else if self.pending_resize.is_some() {
            let cap: u32 = rates.resize_frame_rate_cap;
            match target {
                Target::Web => if cap > WEB_RESIZE_FRAME_RATE_CAP {
                    rate_interval(WEB_RESIZE_FRAME_RATE_CAP)
                } else {
                    rate_interval(cap)
                },
                Target::Native => rate_interval(cap),
            }
        } else if rates.vsync_enabled {
            0
        } else {
            rate_interval(rates.frame_rate_cap)
        }
    }

    /// When a resize that has stopped is to be applied exactly.
    pub open spec fn settle_deadline(self) -> Option<u64> {
        if self.pending_resize is Some && self.last_resize_event is Some {
            Some((self.last_resize_event->0 + RESIZE_SETTLE_DELAY) as u64)
        } else {
            None
        }
    }

    /// A redraw has been asked for, by now at the latest.
    pub open spec fn asked(self, m: Moment) -> bool {
        self.redraw_requested || due(self.next_ui_repaint_deadline, m.now) || due(
            self.settle_deadline(),
            m.now,
        )
    }

    /// A frame is wanted and there is a window to draw it in.
    pub open spec fn wants_frame(self, m: Moment) -> bool {
        (self.asked(m) || m.continuous_redraw) && m.window_open
    }

    /// A frame is wanted and has to be held off.
    pub open spec fn held(self, m: Moment) -> bool {
        self.wants_frame(m) && self.last_render_time is Some && m.now < self.last_render_time->0
            + self.interval(m.rates, m.target)
    }

    /// The times that stand out of the clock's range are out of reach.
    pub open spec fn clock_in_range(self, m: Moment) -> bool {
        &&& m.now <= u64::MAX - 2_000_000_000
        &&& self.last_resize_event is Some ==> self.last_resize_event->0 <= u64::MAX - 2_000_000_000
        &&& self.last_render_time is Some ==> self.last_render_time->0 <= u64::MAX - 2_000_000_000
    }

    /// What is planned for the moment, and what the clock becomes.
    pub open spec fn scheduled(self, m: Moment, plan: Schedule, after: FramePacing) -> bool {
        &&& plan.redraw_slice == (due(self.slice_surface_retry_deadline, m.now)
            && m.graphics_ready)
        &&& plan.redraw == (self.wants_frame(m) && !self.held(m))
        &&& plan.wake == (if self.held(m) {
            Wake::At(
                (self.last_render_time->0 + self.interval(m.rates, m.target)) as u64,
            )
        } else {
            let poll = if m.tasks_pending {
                Some((m.now + TASK_POLL_DELAY) as u64)
            } else {
                None
            };
            match earlier(
                earlier(
                    earlier(poll, after.next_ui_repaint_deadline),
                    after.slice_surface_retry_deadline,
                ),
                self.settle_deadline(),
            ) {
                Some(t) => Wake::At(t),
                None => Wake::OnEvent,
            }
        })
        &&& after == (FramePacing {
            redraw_requested: self.asked(m) && !plan.redraw,
            next_ui_repaint_deadline: if due(self.next_ui_repaint_deadline, m.now) {
                None
            } else {
                self.next_ui_repaint_deadline
            },
            slice_surface_retry_deadline: if due(
                self.slice_surface_retry_deadline,
                m.now,
            ) {
                None
            } else {
                self.slice_surface_retry_deadline
            },
            frame_demanded_at: if (self.asked(m) || m.continuous_redraw) && self.frame_demanded_at is None {
                Some(m.now)
            } else {
                self.frame_demanded_at
            },
            ..self
        })
    }

    /// What to do before the event loop waits, and when to wake it.
    pub fn schedule(&mut self, m: Moment) -> (plan: Schedule)
        requires
            old(self).clock_in_range(m),
        ensures
            (*old(self)).scheduled(m, plan, *final(self)),
    {
        if is_due(self.next_ui_repaint_deadline, m.now) {
            self.next_ui_repaint_deadline = None;
            self.redraw_requested = true;
        }
        // A drag that has stopped produces no further events, so the frame that
        // applies its exact size has to be asked for here.
        let settle: Option<u64> = if self.pending_resize.is_some() {
            match self.last_resize_event {
                Some(last) => Some(last + RESIZE_SETTLE_DELAY),
                None => None,
            }
        } else {
            None
        };
        if is_due(settle, m.now) {
            self.redraw_requested = true;
        }
        let mut redraw_slice: bool = false;
        if is_due(self.slice_surface_retry_deadline, m.now) {
            self.slice_surface_retry_deadline = None;
            redraw_slice = m.graphics_ready;
        }
        let wanted: bool = self.redraw_requested || m.continuous_redraw;
        if wanted && self.frame_demanded_at.is_none() {
            self.frame_demanded_at = Some(m.now);
        }
        let mut redraw: bool = false;
        if wanted && m.window_open {
            let interval: u64 = self.frame_interval(m.rates, m.target);
            proof {
                lemma_interval_small(*self, m.rates, m.target);
            }
            if let Some(last) = self.last_render_time {
                let deadline: u64 = last + interval;
                if m.now < deadline {
                    return Schedule { redraw_slice, redraw, wake: Wake::At(deadline) };
                }
            }
            self.redraw_requested = false;
            redraw = true;
        }
        let poll: Option<u64> = if m.tasks_pending {
            Some(m.now + TASK_POLL_DELAY)
        } else {
            None
        };
        let first: Option<u64> = earlier_deadline(poll, self.next_ui_repaint_deadline);
        let first: Option<u64> = earlier_deadline(first, self.slice_surface_retry_deadline);
        let first: Option<u64> = earlier_deadline(first, settle);
        let wake: Wake = match first {
            Some(t) => Wake::At(t),
            None => Wake::OnEvent,
        };
        Schedule { redraw_slice, redraw, wake }
    }
}

proof fn lemma_interval_small(pacing: FramePacing, rates: RateSettings, target: Target)
    ensures
        pacing.interval(rates, target) <= 1_000_000_000,
{
    assert forall|r: u32| 1 <= r <= 1000 implies #[trigger] rate_nanos(r) <= 1_000_000_000 by {
        let n = 1_000_000_000 + r as int / 2;
        let d = r as int;
        assert(0 <= n / d <= 1_000_000_000) by (nonlinear_arith)
            requires
                1 <= d <= 1000,
                1_000_000_000 <= n <= 1_000_000_000 + d / 2,
        ;
    }
}

/// While a window on a page is being resized, frames are held off for at least
/// a twentieth of a second, whatever is set.
pub proof fn page_resizes_are_capped(pacing: FramePacing, rates: RateSettings)
    requires
        pacing.pending_resize is Some,
    ensures
        pacing.interval(rates, Target::Web) >= 50_000_000,
{
    let r = usable_rate(
        if rates.resize_frame_rate_cap < WEB_RESIZE_FRAME_RATE_CAP {
            rates.resize_frame_rate_cap
        } else {
            WEB_RESIZE_FRAME_RATE_CAP
        },
    );
    let d = r as int;
    let n = 1_000_000_000 + d / 2;
    assert(1 <= d <= 20);
    assert(n / d >= 50_000_000 && n / d <= 1_000_000_010) by (nonlinear_arith)
        requires
            1 <= d <= 20,
            1_000_000_000 <= n <= 1_000_000_010,
    ;
}

/// No time is counted for two frames, and none in which no frame was wanted.
pub proof fn frame_times_do_not_overlap(pacing: FramePacing, frame_start: u64)
    ensures
        pacing.last_frame_end is Some ==> pacing.busy_from(frame_start) >= pacing.last_frame_end->0,
        pacing.frame_demanded_at is Some && pacing.frame_demanded_at->0 <= frame_start
            ==> pacing.busy_from(frame_start) >= pacing.frame_demanded_at->0,
        pacing.frame_demanded_at is None ==> pacing.busy_from(frame_start) >= frame_start,
{
}

/// A redraw that has been asked for is not forgotten: it stays asked for until
/// a frame is drawn.
pub proof fn requested_redraws_are_kept(
    before: FramePacing,
    m: Moment,
    plan: Schedule,
    after: FramePacing,
)
    requires
        before.scheduled(m, plan, after),
        before.redraw_requested,
    ensures
        plan.redraw || after.redraw_requested,
{
}

/// A drag that has stopped gets its exact size: once it has stood still for long
/// enough a frame is asked for, and it is one that takes the size as it is.
pub proof fn a_settled_resize_is_drawn(
    before: FramePacing,
    m: Moment,
    plan: Schedule,
    after: FramePacing,
)
    requires
        before.clock_in_range(m),
        before.scheduled(m, plan, after),
        before.pending_resize is Some,
        before.last_resize_event is Some,
        m.now >= before.last_resize_event->0 + RESIZE_SETTLE_DELAY,
    ensures
        plan.redraw || after.redraw_requested,
        after.settled(m.now),
        after.pending_resize == before.pending_resize,
{
}

/// Frames are at least the frame interval apart.
pub proof fn frames_keep_their_distance(
    before: FramePacing,
    m: Moment,
    plan: Schedule,
    after: FramePacing,
)
    requires
        before.scheduled(m, plan, after),
        plan.redraw,
        before.last_render_time is Some,
    ensures
        m.now >= before.last_render_time->0 + before.interval(m.rates, m.target),
{
}

/// The loop does not sleep past anything it waits for: unless a frame is held
/// off, it wakes for the interface, for the slice preview, for a resize that
/// settles and for pending work.
pub proof fn no_deadline_is_slept_past(
    before: FramePacing,
    m: Moment,
    plan: Schedule,
    after: FramePacing,
    deadline: u64,
)
    requires
        before.scheduled(m, plan, after),
        !before.held(m),
        after.next_ui_repaint_deadline == Some(deadline) || after.slice_surface_retry_deadline
            == Some(deadline) || before.settle_deadline() == Some(deadline) || (m.tasks_pending
            && deadline == m.now + TASK_POLL_DELAY),
    ensures
        plan.wake is At,
        plan.wake->At_0 <= deadline,
{
}

/// A frame that is held off wakes the loop when its time has come.
pub proof fn held_frames_are_woken_for(
    before: FramePacing,
    m: Moment,
    plan: Schedule,
    after: FramePacing,
)
    requires
        before.clock_in_range(m),
        before.scheduled(m, plan, after),
        before.held(m),
    ensures
        plan.wake is At,
        plan.wake->At_0 == before.last_render_time->0 + before.interval(m.rates, m.target),
        plan.wake->At_0 > m.now,
{
    lemma_interval_small(before, m.rates, m.target);
}

} // verus!
