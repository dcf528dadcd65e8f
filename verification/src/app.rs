//! The application: one project and everything kept around it, and what each
//! event of its life changes.
use crate::editor::{
    fingerprint_layers, locked_key, objects_on, without_objects, EditorFlags, EditorState,
};
use crate::effects::Effect;
use crate::items::ProjectItems;
use crate::language::Target;
use crate::model::SceneEntityId;
use crate::pacing::{FramePacing, SurfaceSize};
use crate::project::{Document, OpenProject, ProjectPath, ProjectStore};
use crate::tasks::{
    nth_ticket, BackgroundTaskState, BackgroundTaskTicket, PendingLoad, ProgressSnapshot,
    ReportedTask, StatusBarMessage,
};
use std::collections::HashSet;
use std::collections::hash_map::DefaultHasher;
use vstd::prelude::*;
use vstd::std_specs::hash::DefaultHasherAdditionalSpecFns;

verus! {

/// Where the application stands in its life.
#[derive(Debug, Clone, Copy, PartialEq, Eq, Structural)]
pub struct Lifecycle {
    pub close_requested: bool,
    /// The renderer failed for good: recovery copies are written, then exit.
    pub fatal_shutdown: bool,
    /// Failures of the surface in a row that were survived.
    pub render_validation_recovery_attempts: u32,
    pub exit_after_pending_saves: bool,
    pub discard_changes_on_deferred_exit: bool,
    pub startup_dialog_dismissed: bool,
    /// A new or opened project waits for a decision about the current one.
    pub pending_project_replacement: bool,
    pub project_replacement_after_save: bool,
    pub project_replacement_bypass: bool,
    pub pending_lossy_save_as: bool,
    pub window_focused: bool,
}

/// What has been worked out from the documents, and from which state of them.
#[derive(Debug, Clone, Copy)]
pub struct SceneCaches {
    /// The fingerprint of the documents that the scene document was made of.
    pub scene_document_key: Option<u64>,
    /// The snap index is older than the scene document.
    pub snap_index_dirty: bool,
    /// The documents and locked layers that the frozen handles were made of.
    pub layer_lock_key: Option<(u64, u64)>,
    pub intersection_availability_key: Option<u64>,
}

/// Gestures in progress.
#[derive(Debug, Clone, Copy, PartialEq, Eq, Structural)]
pub struct Gestures {
    pub selection_click: bool,
    pub move_session: bool,
    pub collar_move_session: bool,
    pub collar_rotation: bool,
    pub collar_rotate_drag: bool,
    pub drag: bool,
    pub gizmo_drag: bool,
}

impl Gestures {
    /// No gesture.
    pub open spec fn idle() -> Gestures {
        Gestures {
            selection_click: false,
            move_session: false,
            collar_move_session: false,
            collar_rotation: false,
            collar_rotate_drag: false,
            drag: false,
            gizmo_drag: false,
        }
    }

    /// No gesture.
    pub fn none() -> (gestures: Gestures)
        ensures
            gestures == Gestures::idle(),
    {
        Gestures {
            selection_click: false,
            move_session: false,
            collar_move_session: false,
            collar_rotation: false,
            collar_rotate_drag: false,
            drag: false,
            gizmo_drag: false,
        }
    }
}

/// What a pointer gesture holds back until it ends.
pub struct GestureLog {
    /// The pointer is driving a widget.
    pub active: bool,
    /// The kinds of command already reported during the gesture.
    pub reported: Vec<u64>,
    /// The line that will say what the gesture settled on.
    pub deferred: Option<String>,
}

/// How far the renderer has come in the browser.
#[derive(Debug, Clone, Copy, PartialEq, Eq, Structural)]
pub enum GraphicsState {
    NotStarted,
    Initializing,
    Ready,
    Failed,
}

/// A project in the browser's storage.
pub struct BrowserProject {
    pub id: u64,
    pub name: String,
    /// Where the name stands in natural order among all names.
    pub name_rank: u64,
}

/// What runs and is kept in the browser.
pub struct BrowserState {
    pub graphics_state: GraphicsState,
    /// The event loop can be woken from the background.
    pub event_loop_proxy: bool,
    /// Runtime ids of projects being saved.
    pub saves_pending: HashSet<u32>,
    /// Ids of stored projects being deleted.
    pub deletes_pending: HashSet<u64>,
    /// Runtime ids of projects to delete once they are saved.
    pub delete_after_save: HashSet<u32>,
    /// Ids of stored projects being loaded.
    pub loads_pending: HashSet<u64>,
    pub stored: Vec<BrowserProject>,
}

/// The loads in progress, by kind of item.
pub struct PendingLoads {
    pub triangulations: Vec<PendingLoad>,
    pub block_models: Vec<PendingLoad>,
    pub drill_holes: Vec<PendingLoad>,
    pub point_clouds: Vec<PendingLoad>,
    pub rasters: Vec<PendingLoad>,
}

impl PendingLoads {
    /// All loads, kind by kind.
    pub open spec fn all(&self) -> Seq<PendingLoad> {
        self.triangulations@ + self.block_models@ + self.drill_holes@ + self.point_clouds@
            + self.rasters@
    }

    /// No loads.
    pub fn new() -> (loads: PendingLoads)
        ensures
            loads.all() == Seq::<PendingLoad>::empty(),
    {
        let loads = PendingLoads {
            triangulations: Vec::new(),
            block_models: Vec::new(),
            drill_holes: Vec::new(),
            point_clouds: Vec::new(),
            rasters: Vec::new(),
        };
        proof {
            assert(loads.all() =~= Seq::<PendingLoad>::empty());
        }
        loads
    }

    /// Takes all loads away, kind by kind.
    pub fn take_all(&mut self) -> (all: Vec<PendingLoad>)
        ensures
            all@ == old(self).all(),
            final(self).all() == Seq::<PendingLoad>::empty(),
    {
        let mut all: Vec<PendingLoad> = Vec::new();
        all.append(&mut self.triangulations);
        all.append(&mut self.block_models);
        all.append(&mut self.drill_holes);
        all.append(&mut self.point_clouds);
        all.append(&mut self.rasters);
        proof {
            assert(all@ =~= old(self).all());
            assert(self.all() =~= Seq::<PendingLoad>::empty());
        }
        all
    }
}

/// The console is told of every cancelled load that it has a report of.
pub open spec fn cancelled_reports(loads: Seq<PendingLoad>) -> Seq<Effect>
    decreases loads.len(),
{
    if loads.len() == 0 {
        Seq::empty()
    } else if loads.last().has_report {
        cancelled_reports(loads.drop_last()).push(Effect::CancelLoadReport(loads.last().ticket.0))
    } else {
        cancelled_reports(loads.drop_last())
    }
}

/// The application's state.
pub struct App<P> {
    pub target: Target,
    pub lifecycle: Lifecycle,
    pub pacing: FramePacing,
    pub window_open: bool,
    /// The size of the renderer's surface; `None` while there is no renderer.
    pub surface: Option<SurfaceSize>,
    /// The slice preview has a window of its own.
    pub slice_window_open: bool,
    pub workspace: ProjectStore,
    /// Counts workspace replacements, which is where runtime ids start again.
    pub workspace_generation: u64,
    /// Projects on disk, the most recently opened last.
    pub tracked_project_paths: Vec<ProjectPath>,
    pub editor: EditorState,
    pub items: ProjectItems,
    pub loads: PendingLoads,
    pub caches: SceneCaches,
    pub gestures: Gestures,
    pub gesture_log: GestureLog,
    pub browser: BrowserState,
    pub tasks: BackgroundTaskState<P>,
    /// What the surroundings have to do, in order.
    pub outbox: Vec<Effect>,
}

impl<P> App<P> {
    /// The tasks are in order, and the pointer shows whether there are any.
    pub open spec fn wf(&self) -> bool {
        &&& self.tasks.wf()
        &&& self.editor.flags.background_busy == self.tasks.busy()
    }

    /// The same window on the same target.
    pub open spec fn same_window(&self, other: &App<P>) -> bool {
        &&& self.target == other.target
        &&& self.window_open == other.window_open
        &&& self.surface == other.surface
        &&& self.slice_window_open == other.slice_window_open
    }

    /// The same session: the same window, projects and work in progress.
    pub open spec fn same_session(&self, other: &App<P>) -> bool {
        &&& self.same_window(other)
        &&& self.lifecycle == other.lifecycle
        &&& self.workspace == other.workspace
        &&& self.workspace_generation == other.workspace_generation
        &&& self.tracked_project_paths == other.tracked_project_paths
        &&& self.loads == other.loads
        &&& self.tasks == other.tasks
        &&& self.browser == other.browser
        &&& self.gesture_log == other.gesture_log
    }

    /// Nothing has happened yet, but that the list of opened projects, the editor
    /// and the work for the surroundings may be there.
    pub open spec fn at_rest(&self) -> bool {
        &&& self.wf()
        &&& self.lifecycle == (Lifecycle {
            close_requested: false,
            fatal_shutdown: false,
            render_validation_recovery_attempts: 0,
            exit_after_pending_saves: false,
            discard_changes_on_deferred_exit: false,
            startup_dialog_dismissed: false,
            pending_project_replacement: false,
            project_replacement_after_save: false,
            project_replacement_bypass: false,
            pending_lossy_save_as: false,
            window_focused: true,
        })
        &&& self.pacing == (FramePacing {
            redraw_requested: false,
            next_ui_repaint_deadline: None,
            pending_resize: None,
            last_resize_event: None,
            last_render_time: None,
            last_frame_end: None,
            frame_demanded_at: None,
            surface_retry_pending: false,
            slice_surface_retry_deadline: None,
        })
        &&& !self.window_open
        &&& self.surface is None
        &&& !self.slice_window_open
        &&& self.workspace.projects@ == Seq::<OpenProject>::empty()
        &&& self.workspace.active_index is None
        &&& self.workspace.next_runtime_id == 1
        &&& self.workspace_generation == 0
        &&& self.items.is_blank()
        &&& self.loads.all() == Seq::<PendingLoad>::empty()
        &&& self.caches == (SceneCaches {
            scene_document_key: None,
            snap_index_dirty: false,
            layer_lock_key: None,
            intersection_availability_key: None,
        })
        &&& self.gestures == Gestures::idle()
        &&& !self.gesture_log.active
        &&& self.gesture_log.reported@ == Seq::<u64>::empty()
        &&& self.gesture_log.deferred is None
        &&& self.browser.graphics_state == GraphicsState::NotStarted
        &&& self.browser.saves_pending@ == Set::<u32>::empty()
        &&& self.browser.deletes_pending@ == Set::<u64>::empty()
        &&& self.browser.delete_after_save@ == Set::<u32>::empty()
        &&& self.browser.loads_pending@ == Set::<u64>::empty()
        &&& self.browser.stored@ == Seq::<BrowserProject>::empty()
        &&& self.tasks.next_ticket == 0
        &&& self.tasks.cpu_pending@ == Set::<u64>::empty()
        &&& self.tasks.awaiting_apply@ == Set::<u64>::empty()
        &&& self.tasks.gpu_pending@ == Set::<u64>::empty()
        &&& self.tasks.reported@ == Seq::<ReportedTask<P>>::empty()
    }

    /// The application before anything has happened.
    pub fn default(target: Target, editor: EditorState) -> (app: App<P>)
        requires
            !editor.flags.background_busy,
        ensures
            app.at_rest(),
            app.target == target,
            app.tracked_project_paths@ == Seq::<ProjectPath>::empty(),
            app.editor == editor,
            !app.browser.event_loop_proxy,
            app.outbox@ == (if target == Target::Web {
                seq![Effect::InitializeBrowserStorage]
            } else {
                Seq::<Effect>::empty()
            }),
    {
        let mut outbox: Vec<Effect> = Vec::new();
        match target {
            Target::Web => {
                outbox.push(Effect::InitializeBrowserStorage);
            },
            Target::Native => {},
        }
        let app = App {
            target,
            lifecycle: Lifecycle {
                close_requested: false,
                fatal_shutdown: false,
                render_validation_recovery_attempts: 0,
                exit_after_pending_saves: false,
                discard_changes_on_deferred_exit: false,
                startup_dialog_dismissed: false,
                pending_project_replacement: false,
                project_replacement_after_save: false,
                project_replacement_bypass: false,
                pending_lossy_save_as: false,
                window_focused: true,
            },
            pacing: FramePacing::new(),
            window_open: false,
            surface: None,
            slice_window_open: false,
            workspace: ProjectStore::new(),
            workspace_generation: 0,
            tracked_project_paths: Vec::new(),
            editor,
            items: ProjectItems::new(),
            loads: PendingLoads::new(),
            caches: SceneCaches {
                scene_document_key: None,
                snap_index_dirty: false,
                layer_lock_key: None,
                intersection_availability_key: None,
            },
            gestures: Gestures::none(),
            gesture_log: GestureLog { active: false, reported: Vec::new(), deferred: None },
            browser: BrowserState {
                graphics_state: GraphicsState::NotStarted,
                event_loop_proxy: false,
                saves_pending: HashSet::new(),
                deletes_pending: HashSet::new(),
                delete_after_save: HashSet::new(),
                loads_pending: HashSet::new(),
                stored: Vec::new(),
            },
            tasks: BackgroundTaskState::new(),
            outbox,
        };
        proof {
            assert(app.outbox@ =~= (if target == Target::Web {
                seq![Effect::InitializeBrowserStorage]
            } else {
                Seq::<Effect>::empty()
            }));
        }
        app
    }

    /// The interface is to be drawn again; `after` differs in nothing but what
    /// the surroundings are asked to do besides.
    pub open spec fn redrawn_with(&self, effects: Seq<Effect>, after: &App<P>) -> bool {
        &&& after.outbox@ == self.outbox@ + effects
        &&& *after == (App {
            outbox: after.outbox,
            pacing: FramePacing { redraw_requested: true, ..self.pacing },
            ..*self
        })
    }

    /// `effect`, if there is a renderer to do it.
    pub open spec fn for_renderer(&self, effect: Effect) -> Seq<Effect> {
        if self.surface is Some {
            seq![effect]
        } else {
            Seq::empty()
        }
    }

    /// The overlay no longer shows the editor's state.
    pub fn invalidate_overlay(&mut self)
        ensures
            old(self).redrawn_with(
                old(self).for_renderer(Effect::InvalidateGpuOverlay),
                final(self),
            ),
    {
        if self.surface.is_some() {
            self.outbox.push(Effect::InvalidateGpuOverlay);
        }
        self.pacing.redraw_requested = true;
        proof {
            assert(self.outbox@ =~= old(self).outbox@ + old(self).for_renderer(
                Effect::InvalidateGpuOverlay,
            ));
        }
    }

    /// Asks for a frame without rebuilding the document's scene: items draw
    /// from caches of their own.
    pub fn request_topology_redraw(&mut self)
        ensures
            old(self).redrawn_with(Seq::empty(), final(self)),
    {
        self.pacing.redraw_requested = true;
        proof {
            assert(self.outbox@ =~= old(self).outbox@ + Seq::<Effect>::empty());
        }
    }

    /// Asks for a frame with fresh bounds, without rebuilding the document's
    /// scene.
    pub fn invalidate_topology_bounds_and_redraw(&mut self)
        ensures
            old(self).redrawn_with(
                old(self).for_renderer(Effect::InvalidateGpuBounds),
                final(self),
            ),
    {
        if self.surface.is_some() {
            self.outbox.push(Effect::InvalidateGpuBounds);
        }
        self.request_topology_redraw();
        proof {
            assert(self.outbox@ =~= old(self).outbox@ + old(self).for_renderer(
                Effect::InvalidateGpuBounds,
            ));
        }
    }

    /// Brings the snap index up to date, if it is not.
    pub fn refresh_snap_index(&mut self)
        ensures
            final(self).outbox@ == (if old(self).caches.snap_index_dirty {
                old(self).outbox@.push(Effect::RebuildSnapIndex)
            } else {
                old(self).outbox@
            }),
            *final(self) == (App {
                outbox: final(self).outbox,
                caches: SceneCaches { snap_index_dirty: false, ..old(self).caches },
                ..*old(self)
            }),
    {
        if self.caches.snap_index_dirty {
            self.outbox.push(Effect::RebuildSnapIndex);
            self.caches.snap_index_dirty = false;
        }
    }

    /// The documents and locked layers that the frozen handles depend on.
    pub open spec fn lock_key(&self, composite_key: u64) -> (u64, u64) {
        (composite_key, locked_key(self.editor.locked_layers.listed()))
    }

    /// The objects on locked layers of the active project.
    pub open spec fn locked_objects(&self) -> Set<SceneEntityId> {
        match self.workspace.active() {
            Some(project) => objects_on(project.document.objects@, self.editor.locked_layers@),
            None => Set::empty(),
        }
    }

    /// The frozen and selected handles after the layer locks were expanded.
    pub open spec fn locks_applied(&self, composite_key: u64, after: &EditorState) -> bool {
        if self.caches.layer_lock_key == Some(self.lock_key(composite_key)) {
            &&& after.frozen_handles == self.editor.frozen_handles
            &&& after.selected_handles == self.editor.selected_handles
        } else {
            &&& after.frozen_handles@ == without_objects(
                self.editor.frozen_handles@,
                self.editor.explicitly_frozen@,
            ).union(self.locked_objects())
            &&& after.selected_handles@ == self.editor.selected_handles@.difference(
                self.locked_objects(),
            )
        }
    }

    /// Mirrors the locked layers onto the handles of their objects, so that
    /// picking, snapping and selecting look at one set only. Nothing is walked
    /// while neither the locks nor the documents changed.
    pub fn expand_layer_locks(&mut self, composite_key: u64)
        ensures
            old(self).locks_applied(composite_key, &final(self).editor),
            *final(self) == (App {
                editor: EditorState {
                    frozen_handles: final(self).editor.frozen_handles,
                    selected_handles: final(self).editor.selected_handles,
                    ..old(self).editor
                },
                caches: SceneCaches {
                    layer_lock_key: Some(old(self).lock_key(composite_key)),
                    ..old(self).caches
                },
                ..*old(self)
            }),
    {
        let key: (u64, u64) = (composite_key, fingerprint_layers(&self.editor.locked_layers));
        if let Some(last) = self.caches.layer_lock_key {
            if last.0 == key.0 && last.1 == key.1 {
                return;
            }
        }
        self.caches.layer_lock_key = Some(key);
        match self.workspace.active_project() {
            Some(project) => {
                self.editor.freeze_locked(Some(&project.document));
            },
            None => {
                self.editor.freeze_locked(None);
            },
        }
    }

    /// The fingerprint of the documents.
    pub open spec fn composite(&self) -> u64 {
        DefaultHasher::spec_finish(self.workspace.composite_writes())
    }

    /// The documents are not those that the scene document was made of.
    pub open spec fn scene_is_stale(&self) -> bool {
        self.caches.scene_document_key != Some(self.composite())
    }

    /// What the surroundings do when the geometry changed.
    pub open spec fn geometry_effects(&self) -> Seq<Effect> {
        (if self.scene_is_stale() {
            seq![Effect::RebuildSceneDocument]
        } else {
            Seq::empty()
        }) + self.for_renderer(Effect::InvalidateGpuGeometry)
    }

    /// The application after the geometry changed.
    pub open spec fn geometry_invalidated(&self, after: &App<P>) -> bool {
        &&& after.editor.hidden_handles@ == EditorState::hidden_mirrors(
            self.editor.hidden_handles@,
            self.active_document_view(),
        )
        &&& self.locks_applied(self.composite(), &after.editor)
        &&& after.outbox@ == self.outbox@ + self.geometry_effects()
        &&& *after == (App {
            editor: EditorState {
                hidden_handles: after.editor.hidden_handles,
                frozen_handles: after.editor.frozen_handles,
                selected_handles: after.editor.selected_handles,
                ..self.editor
            },
            caches: SceneCaches {
                scene_document_key: Some(self.composite()),
                snap_index_dirty: self.caches.snap_index_dirty || self.scene_is_stale(),
                layer_lock_key: Some(self.lock_key(self.composite())),
                ..self.caches
            },
            pacing: FramePacing { redraw_requested: true, ..self.pacing },
            outbox: after.outbox,
            ..*self
        })
    }

    /// The design document of the active project.
    pub open spec fn active_document_view(&self) -> Option<Document> {
        match self.workspace.active() {
            Some(project) => Some(project.document),
            None => None,
        }
    }

    /// Mirrors the objects that the project hides into the editor's handles.
    fn mirror_hidden_objects(&mut self)
        ensures
            final(self).editor.hidden_handles@ == EditorState::hidden_mirrors(
                old(self).editor.hidden_handles@,
                old(self).active_document_view(),
            ),
            *final(self) == (App {
                editor: EditorState {
                    hidden_handles: final(self).editor.hidden_handles,
                    ..old(self).editor
                },
                ..*old(self)
            }),
    {
        match self.workspace.active_project() {
            Some(project) => {
                self.editor.mirror_hidden(Some(&project.document));
            },
            None => {
                self.editor.mirror_hidden(None);
            },
        }
    }

    /// Has the scene document made again if the documents are not those with
    /// this fingerprint.
    fn refresh_scene_document(&mut self, key: u64)
        ensures
            final(self).outbox@ == (if old(self).caches.scene_document_key != Some(key) {
                old(self).outbox@.push(Effect::RebuildSceneDocument)
            } else {
                old(self).outbox@
            }),
            *final(self) == (App {
                outbox: final(self).outbox,
                caches: SceneCaches {
                    scene_document_key: Some(key),
                    snap_index_dirty: old(self).caches.snap_index_dirty || old(
                        self,
                    ).caches.scene_document_key != Some(key),
                    ..old(self).caches
                },
                ..*old(self)
            }),
    {
        let current: bool = match self.caches.scene_document_key {
            Some(last) => last == key,
            None => false,
        };
        if !current {
            self.outbox.push(Effect::RebuildSceneDocument);
            self.caches.scene_document_key = Some(key);
            self.caches.snap_index_dirty = true;
        }
    }

    /// The geometry, or the editor's view of it, changed. The scene document is
    /// made again only if the documents changed; the snap index waits for the
    /// next query.
    pub fn invalidate_geometry(&mut self)
        ensures
            old(self).geometry_invalidated(final(self)),
    {
        self.mirror_hidden_objects();
        let key: u64 = self.workspace.composite_key();
        self.refresh_scene_document(key);
        self.expand_layer_locks(key);
        if self.surface.is_some() {
            self.outbox.push(Effect::InvalidateGpuGeometry);
        }
        self.pacing.redraw_requested = true;
        proof {
            assert(self.outbox@ =~= old(self).outbox@ + old(self).geometry_effects());
        }
    }

    /// Mirrors whether there are tasks into the editor, for the pointer.
    pub fn update_background_task_cursor(&mut self)
        ensures
            final(self).editor.flags.background_busy == old(self).tasks.busy(),
            *final(self) == (App {
                editor: EditorState {
                    flags: EditorFlags {
                        background_busy: final(self).editor.flags.background_busy,
                        ..old(self).editor.flags
                    },
                    ..old(self).editor
                },
                ..*old(self)
            }),
    {
        self.editor.flags.background_busy = self.tasks.is_busy();
    }

    /// Nothing but the tasks, and what the pointer shows of them, differs.
    pub open spec fn same_but_tasks(&self, after: &App<P>) -> bool {
        *after == (App {
            tasks: after.tasks,
            editor: EditorState {
                flags: EditorFlags {
                    background_busy: after.editor.flags.background_busy,
                    ..self.editor.flags
                },
                ..self.editor
            },
            ..*self
        })
    }

    /// Starts a background task. A frame shows that there is one.
    pub fn begin_topology_load(&mut self) -> (ticket: BackgroundTaskTicket)
        requires
            old(self).wf(),
            old(self).tasks.in_flight_count() <= u64::MAX,
        ensures
            final(self).wf(),
            exists|k: nat| #[trigger]
                old(self).tasks.first_free(k) && ticket.0 == nth_ticket(
                    old(self).tasks.next_ticket,
                    k,
                ) && final(self).tasks.next_ticket == nth_ticket(
                    old(self).tasks.next_ticket,
                    k + 1,
                ),
            final(self).tasks.cpu_pending@ == old(self).tasks.cpu_pending@.insert(ticket.0),
            final(self).tasks.awaiting_apply == old(self).tasks.awaiting_apply,
            final(self).tasks.gpu_pending == old(self).tasks.gpu_pending,
            final(self).tasks.reported == old(self).tasks.reported,
            final(self).editor.flags.background_busy,
            (App {
                pacing: FramePacing { redraw_requested: true, ..old(self).pacing },
                ..*old(self)
            }).same_but_tasks(final(self)),
    {
        let ticket: BackgroundTaskTicket = self.tasks.begin();
        self.update_background_task_cursor();
        self.pacing.redraw_requested = true;
        proof {
            assert(self.tasks.in_flight(ticket.0));
        }
        ticket
    }

    /// Starts a background task that the status bar reports. The worker reports
    /// through the other end of `progress`.
    pub fn begin_reported_task(&mut self, label: String, progress: P) -> (ticket:
        BackgroundTaskTicket)
        requires
            old(self).wf(),
            old(self).tasks.in_flight_count() <= u64::MAX,
        ensures
            final(self).wf(),
            !old(self).tasks.in_flight(ticket.0),
            exists|k: nat| #[trigger]
                old(self).tasks.first_free(k) && ticket.0 == nth_ticket(
                    old(self).tasks.next_ticket,
                    k,
                ) && final(self).tasks.next_ticket == nth_ticket(
                    old(self).tasks.next_ticket,
                    k + 1,
                ),
            final(self).tasks.cpu_pending@ == old(self).tasks.cpu_pending@.insert(ticket.0),
            final(self).tasks.awaiting_apply == old(self).tasks.awaiting_apply,
            final(self).tasks.gpu_pending == old(self).tasks.gpu_pending,
            final(self).tasks.reported@ == old(self).tasks.reported@.push(
                ReportedTask { ticket, label, progress },
            ),
            (App {
                pacing: FramePacing { redraw_requested: true, ..old(self).pacing },
                ..*old(self)
            }).same_but_tasks(final(self)),
    {
        let ticket: BackgroundTaskTicket = self.begin_topology_load();
        self.tasks.report(ticket, label, progress);
        proof {
            assert(self.tasks.in_flight(ticket.0));
        }
        ticket
    }

    /// What the status bar shows of the longest-running task, given what its
    /// progress stands at; nothing, once none is left. Workers wake the loop only
    /// when they are done, so while one runs the interface is drawn again.
    pub fn refresh_status_message<F, U>(&mut self, snapshot: Option<ProgressSnapshot<F, U>>) -> (message: Option<
        StatusBarMessage<F, U>,
    >)
        ensures
            message is Some <==> old(self).tasks.reported@.len() > 0,
            message is Some ==> {
                &&& message->0.text@ == old(self).tasks.reported@[0].label@
                &&& message->0.progress == (match snapshot {
                    Some(s) => Some(s.fraction),
                    None => None,
                })
                &&& message->0.units == (match snapshot {
                    Some(s) => s.units,
                    None => None,
                })
            },
            *final(self) == (App {
                pacing: FramePacing {
                    redraw_requested: old(self).pacing.redraw_requested || message is Some,
                    ..old(self).pacing
                },
                ..*old(self)
            }),
    {
        let message: Option<StatusBarMessage<F, U>> = self.tasks.status_message(snapshot);
        self.pacing.redraw_requested = self.pacing.redraw_requested || message.is_some();
        message
    }

    /// Ends a ticket's background work; it is done, or waits for its upload.
    /// `known` tells whether the ticket had such work.
    pub fn finish_background_task(&mut self, ticket: BackgroundTaskTicket, needs_gpu: bool) -> (known:
        bool)
        requires
            old(self).wf(),
        ensures
            final(self).wf(),
            known == old(self).tasks.cpu_pending@.contains(ticket.0),
            final(self).tasks.next_ticket == old(self).tasks.next_ticket,
            final(self).tasks.cpu_pending@ == old(self).tasks.cpu_pending@.remove(ticket.0),
            final(self).tasks.awaiting_apply@ == old(self).tasks.awaiting_apply@,
            final(self).tasks.gpu_pending@ == (if known && needs_gpu {
                old(self).tasks.gpu_pending@.insert(ticket.0)
            } else {
                old(self).tasks.gpu_pending@
            }),
            final(self).tasks.reported@ == BackgroundTaskState::<P>::reports_without(
                old(self).tasks.reported@,
                ticket,
            ),
            old(self).same_but_tasks(final(self)),
    {
        let known: bool = self.tasks.settle_cpu(ticket, needs_gpu);
        proof {
            assert(known ==> old(self).tasks.awaiting_apply@.remove(ticket.0) =~= old(
                self,
            ).tasks.awaiting_apply@);
        }
        self.update_background_task_cursor();
        known
    }

    /// Cancels a ticket. `known` tells whether it was in flight.
    pub fn cancel_background_task(&mut self, ticket: BackgroundTaskTicket) -> (known: bool)
        requires
            old(self).wf(),
        ensures
            final(self).wf(),
            known == old(self).tasks.in_flight(ticket.0),
            final(self).tasks.next_ticket == old(self).tasks.next_ticket,
            final(self).tasks.cpu_pending@ == old(self).tasks.cpu_pending@.remove(ticket.0),
            final(self).tasks.awaiting_apply@ == old(self).tasks.awaiting_apply@.remove(ticket.0),
            final(self).tasks.gpu_pending@ == old(self).tasks.gpu_pending@.remove(ticket.0),
            final(self).tasks.reported@ == BackgroundTaskState::<P>::reports_without(
                old(self).tasks.reported@,
                ticket,
            ),
            old(self).same_but_tasks(final(self)),
    {
        let known: bool = self.tasks.cancel(ticket);
        proof {
            assert(self.tasks.awaiting_apply@ =~= old(self).tasks.awaiting_apply@.remove(ticket.0));
            assert(self.tasks.gpu_pending@ =~= old(self).tasks.gpu_pending@.remove(ticket.0));
        }
        self.update_background_task_cursor();
        known
    }

    /// The renderer has nothing left to upload.
    pub fn finish_topology_load(&mut self)
        requires
            old(self).wf(),
        ensures
            final(self).wf(),
            final(self).tasks.gpu_pending@ == Set::<u64>::empty(),
            final(self).tasks == (BackgroundTaskState {
                gpu_pending: final(self).tasks.gpu_pending,
                ..old(self).tasks
            }),
            old(self).same_but_tasks(final(self)),
    {
        self.tasks.finish_gpu_uploads();
        self.update_background_task_cursor();
    }

    /// Whether an upload is still to come.
    pub fn topology_uploads_pending(&self) -> (yes: bool)
        ensures
            yes == (exists|id: u64| self.tasks.gpu_pending@.contains(id)),
    {
        self.tasks.has_gpu_uploads()
    }

    /// Cancels loads, in the console too.
    pub fn cancel_loads(&mut self, loads: &Vec<PendingLoad>)
        requires
            old(self).wf(),
        ensures
            final(self).wf(),
            old(self).tasks.without_loads(loads@, &final(self).tasks),
            final(self).outbox@ == old(self).outbox@ + cancelled_reports(loads@),
            (App { outbox: final(self).outbox, ..*old(self) }).same_but_tasks(final(self)),
    {
        self.tasks.cancel_loads(loads);
        self.update_background_task_cursor();
        let ghost settled = *self;
        let mut i: usize = 0;
        proof {
            assert(self.outbox@ =~= old(self).outbox@ + cancelled_reports(loads@.take(0)));
        }
        while i < loads.len()
            invariant
                i <= loads@.len(),
                self.outbox@ == old(self).outbox@ + cancelled_reports(loads@.take(i as int)),
                *self == (App { outbox: self.outbox, ..settled }),
            decreases loads.len() - i,
        {
            proof {
                assert(loads@.take(i + 1).drop_last() =~= loads@.take(i as int));
            }
            if loads[i].has_report {
                self.outbox.push(Effect::CancelLoadReport(loads[i].ticket.0));
            }
            proof {
                assert(self.outbox@ =~= old(self).outbox@ + cancelled_reports(loads@.take(i + 1)));
            }
            i += 1;
        }
        proof {
            assert(loads@.take(i as int) =~= loads@);
        }
    }

    /// What the surroundings do when what belongs to a project is dropped.
    /// Previews that stand in the document are taken back first, while it is
    /// known where they came from.
    pub open spec fn transient_effects(flags: EditorFlags) -> Seq<Effect> {
        seq![Effect::ClearRotationCentre] + (if flags.pending_move_delta {
            seq![Effect::RestoreMoveSession, Effect::RestoreCollarSession]
        } else {
            Seq::empty()
        }) + (if flags.text_editing_enabled {
            seq![Effect::CancelTextEdit]
        } else {
            Seq::empty()
        }) + seq![Effect::LeaveSliceMode, Effect::ClearProjectTransients]
    }

    /// Drops what belongs to a project: drafts, the selection, and any gesture,
    /// so that none of it reaches into another project.
    pub fn clear_editor_transient_state(&mut self)
        ensures
            final(self).outbox@ == old(self).outbox@ + Self::transient_effects(
                old(self).editor.flags,
            ),
            old(self).editor.transients_cleared(&final(self).editor),
            *final(self) == (App {
                editor: final(self).editor,
                gestures: Gestures::idle(),
                outbox: final(self).outbox,
                ..*old(self)
            }),
    {
        self.outbox.push(Effect::ClearRotationCentre);
        if self.editor.flags.pending_move_delta {
            self.outbox.push(Effect::RestoreMoveSession);
            self.outbox.push(Effect::RestoreCollarSession);
        }
        if self.editor.flags.text_editing_enabled {
            self.outbox.push(Effect::CancelTextEdit);
        }
        self.outbox.push(Effect::LeaveSliceMode);
        self.outbox.push(Effect::ClearProjectTransients);
        self.editor.clear_project_transients();
        self.gestures = Gestures::none();
        proof {
            assert(self.outbox@ =~= old(self).outbox@ + Self::transient_effects(
                old(self).editor.flags,
            ));
        }
    }
}

/// While the documents stay as they are, the scene is not put together again,
/// whatever else of the geometry is invalidated.
pub proof fn unchanged_documents_are_not_rebuilt<P>(
    before: &App<P>,
    once: &App<P>,
    twice: &App<P>,
)
    requires
        before.geometry_invalidated(once),
        once.geometry_invalidated(twice),
    ensures
        twice.outbox@ == once.outbox@ + once.for_renderer(Effect::InvalidateGpuGeometry),
        twice.caches == once.caches,
{
    assert(once.composite() == before.composite());
    assert(Seq::<Effect>::empty() + once.for_renderer(Effect::InvalidateGpuGeometry)
        =~= once.for_renderer(Effect::InvalidateGpuGeometry));
}

/// Among the objects, those are hidden that the active project hides.
pub proof fn hidden_objects_are_the_projects<P>(before: &App<P>, after: &App<P>, id: u64)
    requires
        before.geometry_invalidated(after),
    ensures
        after.editor.hidden_handles@.contains(SceneEntityId::Object(id)) == (
        before.workspace.active() is Some
            && before.workspace.active()->0.document.hidden_objects@.contains(id)),
{
}

/// Hiding and showing objects leaves what is hidden besides them as it is.
pub proof fn other_hidden_handles_stay<P>(before: &App<P>, after: &App<P>, entity: SceneEntityId)
    requires
        before.geometry_invalidated(after),
        !(entity is Object),
    ensures
        after.editor.hidden_handles@.contains(entity) == before.editor.hidden_handles@.contains(
            entity,
        ),
{
}

/// Once the locks are expanded, every object on a locked layer is frozen, and
/// none of them is selected.
pub proof fn locked_objects_are_frozen<P>(
    before: &App<P>,
    composite_key: u64,
    after: &EditorState,
    i: int,
)
    requires
        before.locks_applied(composite_key, after),
        before.caches.layer_lock_key != Some(before.lock_key(composite_key)),
        before.workspace.active() is Some,
        0 <= i < before.workspace.active()->0.document.objects@.len(),
        before.editor.locked_layers@.contains(
            before.workspace.active()->0.document.objects@[i].layer,
        ),
    ensures
        ({
            let handle = SceneEntityId::Object(
                before.workspace.active()->0.document.objects@[i].id,
            );
            &&& after.frozen_handles@.contains(handle)
            &&& !after.selected_handles@.contains(handle)
        }),
{
    let objects = before.workspace.active()->0.document.objects@;
    let handle = SceneEntityId::Object(objects[i].id);
    assert(objects_on(objects, before.editor.locked_layers@).contains(handle));
}

} // verus!
