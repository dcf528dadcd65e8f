//! The open project's content: installing and replacing it, keeping the editor
//! in step with it, editing it, and telling what of it is unsaved.
use crate::app::{cancelled_reports, App, BrowserState, Gestures, Lifecycle, SceneCaches};
use crate::editor::{objects_on, without_objects, EditorFlags, EditorState};
use crate::effects::Effect;
use crate::items::ProjectItems;
use crate::language::Target;
use crate::model::SceneEntityId;
use crate::pacing::FramePacing;
use crate::project::{first_layer, first_object, OpenProject, ProjectPath, ProjectStore};
use crate::tasks::PendingLoad;
use std::collections::HashSet;
use vstd::prelude::*;

verus! {

/// `paths` with `path` as the one opened last.
pub open spec fn tracked_with(paths: Seq<ProjectPath>, path: ProjectPath) -> Seq<ProjectPath> {
    paths.filter(|p: ProjectPath| p.id != path.id).push(path)
}

/// The list after the paths were opened one after the other.
pub open spec fn tracked_all(paths: Seq<ProjectPath>) -> Seq<ProjectPath>
    decreases paths.len(),
{
    if paths.len() == 0 {
        Seq::empty()
    } else {
        tracked_with(tracked_all(paths.drop_last()), paths.last())
    }
}

/// No path is listed twice.
pub open spec fn distinct_paths(paths: Seq<ProjectPath>) -> bool {
    forall|i: int, j: int|
        0 <= i < j < paths.len() ==> (#[trigger] paths[i]).id != (#[trigger] paths[j]).id
}

/// `paths` with `path` as the one opened last.
pub fn track_path(paths: &Vec<ProjectPath>, path: ProjectPath) -> (list: Vec<ProjectPath>)
    ensures
        list@ == tracked_with(paths@, path),
{
    let ghost keep = |p: ProjectPath| p.id != path.id;
    let mut list: Vec<ProjectPath> = Vec::new();
    let mut i: usize = 0;
    proof {
        reveal(Seq::filter);
    }
    while i < paths.len()
        invariant
            i <= paths@.len(),
            keep == (|p: ProjectPath| p.id != path.id),
            list@ == paths@.take(i as int).filter(keep),
        decreases paths.len() - i,
    {
        proof {
            reveal(Seq::filter);
            assert(paths@.take(i + 1).drop_last() =~= paths@.take(i as int));
        }
        if paths[i].id != path.id {
            list.push(paths[i].copied());
        }
        i += 1;
    }
    proof {
        assert(paths@.take(i as int) =~= paths@);
    }
    list.push(path);
    list
}

/// Opening a project keeps every path listed once, with the opened one last,
/// and loses none.
pub proof fn opened_paths_stay_distinct(paths: Seq<ProjectPath>, path: ProjectPath)
    requires
        distinct_paths(paths),
    ensures
        distinct_paths(tracked_with(paths, path)),
        tracked_with(paths, path).last() == path,
        forall|i: int|
            0 <= i < paths.len() ==> exists|k: int|
                0 <= k < tracked_with(paths, path).len() && (#[trigger] tracked_with(
                    paths,
                    path,
                )[k]).id == (#[trigger] paths[i]).id,
{
    let keep = |p: ProjectPath| p.id != path.id;
    let list = tracked_with(paths, path);
    lemma_filtered_paths(paths, path.id);
    assert forall|i: int, j: int| 0 <= i < j < list.len() implies (#[trigger] list[i]).id != (
    #[trigger] list[j]).id by {
        if j == list.len() - 1 {
            paths.lemma_filter_pred(keep, i);
        } else {
            assert(paths.filter(keep)[i].id != paths.filter(keep)[j].id);
        }
    }
    assert forall|i: int| 0 <= i < paths.len() implies exists|k: int|
        0 <= k < list.len() && (#[trigger] list[k]).id == (#[trigger] paths[i]).id by {
        if paths[i].id == path.id {
            assert(list[list.len() - 1].id == paths[i].id);
        } else {
            paths.lemma_filter_contains(keep, i);
            let k = choose|k: int|
                0 <= k < paths.filter(keep).len() && paths.filter(keep)[k] == paths[i];
            assert(list[k] == paths[i]);
        }
    }
}

proof fn lemma_filtered_paths(paths: Seq<ProjectPath>, id: u64)
    requires
        distinct_paths(paths),
    ensures
        distinct_paths(paths.filter(|p: ProjectPath| p.id != id)),
    decreases paths.len(),
{
    reveal(Seq::filter);
    let keep = |p: ProjectPath| p.id != id;
    if paths.len() > 0 {
        let rest = paths.drop_last();
        assert(distinct_paths(rest)) by {
            assert forall|i: int, j: int| 0 <= i < j < rest.len() implies (#[trigger] rest[i]).id
                != (#[trigger] rest[j]).id by {
                assert(rest[i] == paths[i]);
                assert(rest[j] == paths[j]);
            }
        }
        lemma_filtered_paths(rest, id);
        let kept = rest.filter(keep);
        let all = paths.filter(keep);
        assert forall|i: int, j: int| 0 <= i < j < all.len() implies (#[trigger] all[i]).id != (
        #[trigger] all[j]).id by {
            if j == kept.len() {
                rest.lemma_filter_contains_rev(keep, kept[i]);
                let k = choose|k: int| 0 <= k < rest.len() && rest[k] == kept[i];
                assert(paths[k].id != paths[paths.len() - 1].id);
            } else {
                assert(kept[i].id != kept[j].id);
            }
        }
    }
}

/// Whatever the order in which projects were opened, no path is listed twice.
pub proof fn opened_lists_are_distinct(paths: Seq<ProjectPath>)
    ensures
        distinct_paths(tracked_all(paths)),
    decreases paths.len(),
{
    if paths.len() > 0 {
        opened_lists_are_distinct(paths.drop_last());
        opened_paths_stay_distinct(tracked_all(paths.drop_last()), paths.last());
    }
}

proof fn lemma_keep_all(paths: Seq<ProjectPath>, id: u64)
    requires
        forall|i: int| 0 <= i < paths.len() ==> (#[trigger] paths[i]).id != id,
    ensures
        paths.filter(|p: ProjectPath| p.id != id) == paths,
    decreases paths.len(),
{
    reveal(Seq::filter);
    if paths.len() > 0 {
        let rest = paths.drop_last();
        assert forall|i: int| 0 <= i < rest.len() implies (#[trigger] rest[i]).id != id by {
            assert(rest[i] == paths[i]);
        }
        lemma_keep_all(rest, id);
        assert(rest.push(paths.last()) =~= paths);
    }
}

/// What a session kept of the opened projects is read back as it was: the same
/// paths in the same order, where the open project is the one opened last or has
/// no path.
pub proof fn a_kept_list_is_read_back(paths: Seq<ProjectPath>)
    requires
        distinct_paths(paths),
    ensures
        tracked_all(paths) == paths,
        paths.len() > 0 ==> tracked_with(tracked_all(paths), paths.last()) == paths,
    decreases paths.len(),
{
    if paths.len() > 0 {
        let rest = paths.drop_last();
        let last = paths.last();
        assert forall|i: int, j: int| 0 <= i < j < rest.len() implies (#[trigger] rest[i]).id != (
        #[trigger] rest[j]).id by {
            assert(rest[i] == paths[i]);
            assert(rest[j] == paths[j]);
        }
        a_kept_list_is_read_back(rest);
        assert forall|i: int| 0 <= i < rest.len() implies (#[trigger] rest[i]).id != last.id by {
            assert(rest[i] == paths[i]);
            assert(paths[i].id != paths[paths.len() - 1].id);
        }
        lemma_keep_all(rest, last.id);
        assert(rest.push(last) =~= paths);
        assert(paths.filter(|p: ProjectPath| p.id != last.id) == rest) by {
            reveal(Seq::filter);
        }
    }
}

/// What a session keeps: the opened projects, and the one that was open.
pub struct Session {
    pub project_paths: Vec<ProjectPath>,
    pub current_project_path: Option<ProjectPath>,
}

proof fn lemma_joined<A>(before: Seq<A>, a: Seq<A>, b: Seq<A>, c: A, d: Seq<A>, e: Seq<A>)
    ensures
        (before + a + b).push(c) + d + e == before + (a + b + seq![c] + d + e),
{
    assert((before + a + b).push(c) + d + e =~= before + (a + b + seq![c] + d + e));
}

proof fn lemma_installed<A>(before: Seq<A>, a: Seq<A>, b: Seq<A>, c: A, d: Seq<A>, e: A)
    ensures
        before + a + b + (seq![c] + d + seq![e]) == before + (a + b.push(c) + d + seq![e]),
{
    assert(before + a + b + (seq![c] + d + seq![e]) =~= before + (a + b.push(c) + d + seq![e]));
}

impl<P> App<P> {
    /// Makes `path` the project opened last. One that is listed already moves
    /// to the end.
    pub fn track_project_path(&mut self, path: ProjectPath)
        ensures
            final(self).tracked_project_paths@ == tracked_with(
                old(self).tracked_project_paths@,
                path,
            ),
            *final(self) == (App {
                tracked_project_paths: final(self).tracked_project_paths,
                ..*old(self)
            }),
    {
        self.tracked_project_paths = track_path(&self.tracked_project_paths, path);
    }

    /// Takes the list of opened projects from a session. The project that was
    /// open is on the list, but is not opened again.
    pub fn load_session_projects(&mut self, session: &Session)
        ensures
            final(self).tracked_project_paths@ == (match session.current_project_path {
                Some(path) => tracked_with(tracked_all(session.project_paths@), path),
                None => tracked_all(session.project_paths@),
            }),
            *final(self) == (App {
                tracked_project_paths: final(self).tracked_project_paths,
                ..*old(self)
            }),
    {
        let mut list: Vec<ProjectPath> = Vec::new();
        let mut i: usize = 0;
        while i < session.project_paths.len()
            invariant
                i <= session.project_paths@.len(),
                list@ == tracked_all(session.project_paths@.take(i as int)),
            decreases session.project_paths.len() - i,
        {
            proof {
                assert(session.project_paths@.take(i + 1).drop_last()
                    =~= session.project_paths@.take(i as int));
            }
            list = track_path(&list, session.project_paths[i].copied());
            i += 1;
        }
        proof {
            assert(session.project_paths@.take(i as int) =~= session.project_paths@);
        }
        match &session.current_project_path {
            Some(path) => {
                list = track_path(&list, path.copied());
            },
            None => {},
        }
        self.tracked_project_paths = list;
    }

    /// What the session is to keep.
    pub fn session(&self) -> (session: Session)
        ensures
            session.project_paths@ == self.tracked_project_paths@,
            session.current_project_path == (match self.workspace.active() {
                Some(project) => project.path,
                None => None,
            }),
    {
        let mut project_paths: Vec<ProjectPath> = Vec::new();
        let mut i: usize = 0;
        while i < self.tracked_project_paths.len()
            invariant
                i <= self.tracked_project_paths@.len(),
                project_paths@ == self.tracked_project_paths@.take(i as int),
            decreases self.tracked_project_paths.len() - i,
        {
            project_paths.push(self.tracked_project_paths[i].copied());
            i += 1;
        }
        proof {
            assert(self.tracked_project_paths@.take(i as int) =~= self.tracked_project_paths@);
        }
        let current_project_path: Option<ProjectPath> = match self.workspace.active_project() {
            Some(project) => match &project.path {
                Some(path) => Some(path.copied()),
                None => None,
            },
            None => None,
        };
        Session { project_paths, current_project_path }
    }

    /// What the surroundings do when the project's data goes.
    pub open spec fn owned_effects(&self) -> Seq<Effect> {
        seq![Effect::CancelJobs { keep_browser_saves: self.target == Target::Web }]
            + cancelled_reports(self.loads.all()) + seq![Effect::ResetHistory]
            + Self::transient_effects(self.editor.flags) + self.for_renderer(
            Effect::ClearGpuItemCaches,
        )
    }

    /// Everything that belonged to the open project is gone.
    pub open spec fn owned_data_cleared(&self, after: &App<P>) -> bool {
        &&& after.workspace.projects@ == Seq::<OpenProject>::empty()
        &&& after.workspace.active_index is None
        &&& after.workspace.next_runtime_id == 1
        &&& after.items.is_blank()
        &&& after.loads.all() == Seq::<PendingLoad>::empty()
        &&& self.tasks.without_loads(self.loads.all(), &after.tasks)
        &&& (EditorState {
            flags: EditorFlags {
                background_busy: after.tasks.busy(),
                ..self.editor.flags
            },
            ..self.editor
        }).transients_cleared(&after.editor)
        &&& after.browser == (BrowserState {
            saves_pending: after.browser.saves_pending,
            ..self.browser
        })
        &&& match self.target {
            Target::Web => after.browser.saves_pending@ == Set::<u32>::empty(),
            Target::Native => after.browser.saves_pending == self.browser.saves_pending,
        }
        &&& after.outbox@ == self.outbox@ + self.owned_effects()
        &&& after.workspace_generation == self.workspace_generation.wrapping_add(1)
        &&& after.tracked_project_paths == self.tracked_project_paths
        &&& after.lifecycle == self.lifecycle
        &&& after.gestures == Gestures::idle()
        &&& after.caches == (SceneCaches { scene_document_key: None, ..self.caches })
        &&& after.pacing == (FramePacing { redraw_requested: true, ..self.pacing })
        &&& after.gesture_log == self.gesture_log
        &&& after.same_window(self)
    }

    /// Stops the work that goes on for the open project. A save to the
    /// browser's storage has its own copy of the project, and goes on.
    fn stop_project_work(&mut self)
        requires
            old(self).wf(),
        ensures
            final(self).wf(),
            final(self).loads.all() == Seq::<PendingLoad>::empty(),
            old(self).tasks.without_loads(old(self).loads.all(), &final(self).tasks),
            final(self).outbox@ == old(self).outbox@ + seq![
                Effect::CancelJobs { keep_browser_saves: old(self).target == Target::Web },
            ] + cancelled_reports(old(self).loads.all()),
            (App { outbox: final(self).outbox, loads: final(self).loads, ..*old(self)
            }).same_but_tasks(final(self)),
    {
        let keep_browser_saves: bool = match self.target {
            Target::Web => true,
            Target::Native => false,
        };
        self.outbox.push(Effect::CancelJobs { keep_browser_saves });
        let loads: Vec<PendingLoad> = self.loads.take_all();
        self.cancel_loads(&loads);
        proof {
            assert(self.outbox@ =~= old(self).outbox@ + seq![
                Effect::CancelJobs { keep_browser_saves: old(self).target == Target::Web },
            ] + cancelled_reports(old(self).loads.all()));
        }
    }

    /// Starts over with no project, no items and no history.
    fn forget_project(&mut self)
        ensures
            final(self).workspace.projects@ == Seq::<OpenProject>::empty(),
            final(self).workspace.active_index is None,
            final(self).workspace.next_runtime_id == 1,
            final(self).items.is_blank(),
            final(self).browser == (BrowserState {
                saves_pending: final(self).browser.saves_pending,
                ..old(self).browser
            }),
            match old(self).target {
                Target::Web => final(self).browser.saves_pending@ == Set::<u32>::empty(),
                Target::Native => final(self).browser.saves_pending == old(
                    self,
                ).browser.saves_pending,
            },
            final(self).outbox@ == old(self).outbox@.push(Effect::ResetHistory),
            *final(self) == (App {
                workspace: final(self).workspace,
                workspace_generation: old(self).workspace_generation.wrapping_add(1),
                items: final(self).items,
                browser: final(self).browser,
                outbox: final(self).outbox,
                ..*old(self)
            }),
    {
        self.workspace = ProjectStore::new();
        // Runtime ids start again at one; work still in flight must not follow.
        self.workspace_generation = self.workspace_generation.wrapping_add(1);
        match self.target {
            Target::Web => {
                self.browser.saves_pending = HashSet::new();
            },
            Target::Native => {},
        }
        self.outbox.push(Effect::ResetHistory);
        self.items = ProjectItems::new();
    }

    /// Drops what the scene was made of. Ids start again with the next project,
    /// so what the renderer keeps under them would be drawn for the wrong items.
    fn drop_scene(&mut self)
        ensures
            final(self).outbox@ == old(self).outbox@ + old(self).for_renderer(
                Effect::ClearGpuItemCaches,
            ),
            *final(self) == (App {
                caches: SceneCaches { scene_document_key: None, ..old(self).caches },
                pacing: FramePacing { redraw_requested: true, ..old(self).pacing },
                outbox: final(self).outbox,
                ..*old(self)
            }),
    {
        self.caches.scene_document_key = None;
        if self.surface.is_some() {
            self.outbox.push(Effect::ClearGpuItemCaches);
        }
        self.pacing.redraw_requested = true;
        proof {
            assert(self.outbox@ =~= old(self).outbox@ + old(self).for_renderer(
                Effect::ClearGpuItemCaches,
            ));
        }
    }

    /// Drops the open project's content and everything derived from it, before
    /// another project takes its place. What becomes of unsaved work is settled
    /// by then.
    pub fn clear_project_owned_data(&mut self)
        requires
            old(self).wf(),
        ensures
            old(self).owned_data_cleared(final(self)),
            final(self).wf(),
    {
        self.stop_project_work();
        let ghost stopped = *self;
        self.forget_project();
        let ghost forgotten = *self;
        self.clear_editor_transient_state();
        self.drop_scene();
        proof {
            assert(stopped.editor.flags.background_busy == stopped.tasks.busy());
            let jobs = seq![
                Effect::CancelJobs { keep_browser_saves: old(self).target == Target::Web },
            ];
            let reports = cancelled_reports(old(self).loads.all());
            let transients = Self::transient_effects(old(self).editor.flags);
            let renderer = old(self).for_renderer(Effect::ClearGpuItemCaches);
            assert(Self::transient_effects(forgotten.editor.flags) == transients);
            lemma_joined(old(self).outbox@, jobs, reports, Effect::ResetHistory, transients, renderer);
        }
    }

    /// The opened projects once `project` was installed: one from disk is the
    /// one opened last.
    pub open spec fn paths_with(&self, project: OpenProject) -> Seq<ProjectPath> {
        match project.path {
            Some(path) if self.target == Target::Native => tracked_with(
                self.tracked_project_paths@,
                path,
            ),
            _ => self.tracked_project_paths@,
        }
    }

    /// Adds a project to the workspace and to the opened ones.
    fn add_project(&mut self, project: OpenProject)
        ensures
            final(self).workspace.projects@ == old(self).workspace.projects@.push(
                OpenProject { runtime_id: old(self).workspace.next_runtime_id, ..project },
            ),
            final(self).workspace.active_index == Some(
                old(self).workspace.projects@.len() as usize,
            ),
            final(self).workspace.next_runtime_id == old(
                self,
            ).workspace.next_runtime_id.wrapping_add(1),
            final(self).tracked_project_paths@ == old(self).paths_with(project),
            *final(self) == (App {
                workspace: final(self).workspace,
                tracked_project_paths: final(self).tracked_project_paths,
                ..*old(self)
            }),
    {
        match self.target {
            Target::Native => match &project.path {
                Some(path) => {
                    let path: ProjectPath = path.copied();
                    self.track_project_path(path);
                },
                None => {},
            },
            Target::Web => {},
        }
        let _index: usize = self.workspace.add_and_activate(project);
    }

    /// Takes up the history of a project and leaves the splash.
    fn enter_project(&mut self, runtime_id: u32)
        ensures
            final(self).outbox@ == old(self).outbox@.push(Effect::ActivateHistory(runtime_id)),
            *final(self) == (App {
                lifecycle: Lifecycle { startup_dialog_dismissed: true, ..old(self).lifecycle },
                outbox: final(self).outbox,
                ..*old(self)
            }),
    {
        self.outbox.push(Effect::ActivateHistory(runtime_id));
        self.lifecycle.startup_dialog_dismissed = true;
    }

    /// Asks for the session to be written.
    pub fn persist_session(&mut self)
        ensures
            final(self).outbox@ == old(self).outbox@.push(Effect::PersistSession),
            *final(self) == (App { outbox: final(self).outbox, ..*old(self) }),
    {
        self.outbox.push(Effect::PersistSession);
    }

    /// What the surroundings do when a project is installed.
    pub open spec fn install_effects(&self) -> Seq<Effect> {
        self.owned_effects() + seq![
            Effect::ClearRotationCentre,
            Effect::LeaveSliceMode,
            Effect::ClearProjectTransients,
            Effect::ActivateHistory(1),
            Effect::RebuildSceneDocument,
        ] + self.for_renderer(Effect::InvalidateGpuGeometry) + seq![Effect::PersistSession]
    }

    /// `project` is the open project, and nothing is left of the one before.
    pub open spec fn project_installed(&self, project: OpenProject, after: &App<P>) -> bool {
        &&& after.workspace.projects@ == seq![OpenProject { runtime_id: 1, ..project }]
        &&& after.workspace.active_index == Some(0usize)
        &&& after.workspace.next_runtime_id == 2
        &&& after.tracked_project_paths@ == self.paths_with(project)
        &&& after.items.is_blank()
        &&& after.loads.all() == Seq::<PendingLoad>::empty()
        &&& self.tasks.without_loads(self.loads.all(), &after.tasks)
        &&& after.editor.hidden_handles@ == EditorState::hidden_mirrors(
            self.editor.hidden_handles@,
            Some(project.document),
        )
        &&& after.editor.selected_handles@ == Set::<SceneEntityId>::empty()
        &&& if self.caches.layer_lock_key == Some(self.lock_key(after.composite())) {
            after.editor.frozen_handles == self.editor.frozen_handles
        } else {
            after.editor.frozen_handles@ == without_objects(
                self.editor.frozen_handles@,
                self.editor.explicitly_frozen@,
            ).union(objects_on(project.document.objects@, self.editor.locked_layers@))
        }
        &&& (EditorState {
            flags: EditorFlags { background_busy: after.tasks.busy(), ..self.editor.flags },
            hidden_handles: after.editor.hidden_handles,
            frozen_handles: after.editor.frozen_handles,
            ..self.editor
        }).transients_cleared(&after.editor)
        &&& after.browser == (BrowserState {
            saves_pending: after.browser.saves_pending,
            ..self.browser
        })
        &&& match self.target {
            Target::Web => after.browser.saves_pending@ == Set::<u32>::empty(),
            Target::Native => after.browser.saves_pending == self.browser.saves_pending,
        }
        &&& after.outbox@ == self.outbox@ + self.install_effects()
        &&& after.workspace_generation == self.workspace_generation.wrapping_add(1)
        &&& after.lifecycle == (Lifecycle { startup_dialog_dismissed: true, ..self.lifecycle })
        &&& after.gestures == Gestures::idle()
        &&& after.caches == (SceneCaches {
            scene_document_key: Some(after.composite()),
            snap_index_dirty: true,
            layer_lock_key: Some(self.lock_key(after.composite())),
            ..self.caches
        })
        &&& after.pacing == (FramePacing { redraw_requested: true, ..self.pacing })
        &&& after.gesture_log == self.gesture_log
        &&& after.same_window(self)
    }

    /// Puts `project` into the empty workspace.
    fn prepare_project(&mut self, project: OpenProject)
        requires
            old(self).workspace.projects@ == Seq::<OpenProject>::empty(),
            old(self).workspace.next_runtime_id == 1,
            !old(self).editor.flags.pending_move_delta,
            !old(self).editor.flags.text_editing_enabled,
        ensures
            final(self).workspace.projects@ == seq![OpenProject { runtime_id: 1, ..project }],
            final(self).workspace.active_index == Some(0usize),
            final(self).workspace.next_runtime_id == 2,
            final(self).tracked_project_paths@ == old(self).paths_with(project),
            old(self).editor.transients_cleared(&final(self).editor),
            final(self).outbox@ == old(self).outbox@ + seq![
                Effect::ClearRotationCentre,
                Effect::LeaveSliceMode,
                Effect::ClearProjectTransients,
                Effect::ActivateHistory(1),
            ],
            *final(self) == (App {
                workspace: final(self).workspace,
                tracked_project_paths: final(self).tracked_project_paths,
                lifecycle: Lifecycle { startup_dialog_dismissed: true, ..old(self).lifecycle },
                editor: final(self).editor,
                gestures: Gestures::idle(),
                outbox: final(self).outbox,
                ..*old(self)
            }),
    {
        self.add_project(project);
        proof {
            assert(self.workspace.projects@ =~= seq![OpenProject { runtime_id: 1, ..project }]);
        }
        self.clear_editor_transient_state();
        self.enter_project(1);
        proof {
            assert(self.outbox@ =~= old(self).outbox@ + seq![
                Effect::ClearRotationCentre,
                Effect::LeaveSliceMode,
                Effect::ClearProjectTransients,
                Effect::ActivateHistory(1),
            ]);
        }
    }

    /// Shows the project that was put into the workspace.
    fn present_project(&mut self)
        requires
            old(self).caches.scene_document_key is None,
            old(self).editor.selected_handles@ == Set::<SceneEntityId>::empty(),
        ensures
            final(self).editor.hidden_handles@ == EditorState::hidden_mirrors(
                old(self).editor.hidden_handles@,
                old(self).active_document_view(),
            ),
            final(self).editor.selected_handles@ == Set::<SceneEntityId>::empty(),
            if old(self).caches.layer_lock_key == Some(old(self).lock_key(old(self).composite())) {
                final(self).editor.frozen_handles == old(self).editor.frozen_handles
            } else {
                final(self).editor.frozen_handles@ == without_objects(
                    old(self).editor.frozen_handles@,
                    old(self).editor.explicitly_frozen@,
                ).union(old(self).locked_objects())
            },
            final(self).outbox@ == old(self).outbox@ + (seq![Effect::RebuildSceneDocument] + old(
                self,
            ).for_renderer(Effect::InvalidateGpuGeometry) + seq![Effect::PersistSession]),
            *final(self) == (App {
                editor: EditorState {
                    hidden_handles: final(self).editor.hidden_handles,
                    frozen_handles: final(self).editor.frozen_handles,
                    selected_handles: final(self).editor.selected_handles,
                    ..old(self).editor
                },
                caches: SceneCaches {
                    scene_document_key: Some(old(self).composite()),
                    snap_index_dirty: true,
                    layer_lock_key: Some(old(self).lock_key(old(self).composite())),
                    ..old(self).caches
                },
                pacing: FramePacing { redraw_requested: true, ..old(self).pacing },
                outbox: final(self).outbox,
                ..*old(self)
            }),
    {
        self.invalidate_geometry();
        self.persist_session();
        proof {
            assert(self.editor.selected_handles@ =~= Set::<SceneEntityId>::empty());
            assert(self.outbox@ =~= old(self).outbox@ + (seq![Effect::RebuildSceneDocument] + old(
                self,
            ).for_renderer(Effect::InvalidateGpuGeometry) + seq![Effect::PersistSession]));
        }
    }

    /// Puts `project` in the place of the one that is open.
    pub fn set_active_project(&mut self, project: OpenProject)
        requires
            old(self).wf(),
        ensures
            old(self).project_installed(project, final(self)),
            final(self).wf(),
    {
        self.clear_project_owned_data();
        self.prepare_project(project);
        let ghost ready = *self;
        self.present_project();
        proof {
            assert(self.composite() == ready.composite());
            lemma_installed(
                old(self).outbox@,
                old(self).owned_effects(),
                seq![
                    Effect::ClearRotationCentre,
                    Effect::LeaveSliceMode,
                    Effect::ClearProjectTransients,
                    Effect::ActivateHistory(1),
                ],
                Effect::RebuildSceneDocument,
                old(self).for_renderer(Effect::InvalidateGpuGeometry),
                Effect::PersistSession,
            );
            assert(seq![
                Effect::ClearRotationCentre,
                Effect::LeaveSliceMode,
                Effect::ClearProjectTransients,
                Effect::ActivateHistory(1),
            ].push(Effect::RebuildSceneDocument) =~= seq![
                Effect::ClearRotationCentre,
                Effect::LeaveSliceMode,
                Effect::ClearProjectTransients,
                Effect::ActivateHistory(1),
                Effect::RebuildSceneDocument,
            ]);
        }
    }

    /// What the surroundings do when another open project becomes the active one.
    pub open spec fn activation_effects(&self, index: usize) -> Seq<Effect> {
        Self::transient_effects(self.editor.flags) + seq![
            Effect::ActivateHistory(self.workspace.projects@[index as int].runtime_id),
            Effect::PersistSession,
        ] + self.for_renderer(Effect::InvalidateGpuOverlay)
    }

    /// The open project at `index` is the active one. The tool in hand stays.
    pub open spec fn project_activated(&self, index: usize, after: &App<P>) -> bool {
        if self.workspace.active_index == Some(index) {
            *after == *self
        } else {
            &&& self.editor.transients_cleared(
                &EditorState { active_tool: 0, ..after.editor },
            )
            &&& after.editor.active_tool == self.editor.active_tool
            &&& after.outbox@ == self.outbox@ + self.activation_effects(index)
            &&& *after == (App {
                editor: after.editor,
                gestures: Gestures::idle(),
                workspace: ProjectStore { active_index: Some(index), ..self.workspace },
                pacing: FramePacing { redraw_requested: true, ..self.pacing },
                outbox: after.outbox,
                ..*self
            })
        }
    }

    /// Makes the project at `index` active, with `tool` in hand.
    fn switch_project(&mut self, index: usize, tool: u64)
        requires
            index < old(self).workspace.projects@.len(),
        ensures
            final(self).outbox@ == old(self).outbox@.push(
                Effect::ActivateHistory(old(self).workspace.projects@[index as int].runtime_id),
            ),
            *final(self) == (App {
                editor: EditorState { active_tool: tool, ..old(self).editor },
                workspace: ProjectStore { active_index: Some(index), ..old(self).workspace },
                outbox: final(self).outbox,
                ..*old(self)
            }),
    {
        self.editor.active_tool = tool;
        self.workspace.active_index = Some(index);
        self.outbox.push(Effect::ActivateHistory(self.workspace.projects[index].runtime_id));
    }

    /// Makes the open project at `index` the active one. What was previewed in
    /// the other is dropped, but the tool in hand stays: pointing at an object of
    /// another project carries it over.
    pub fn activate_project_index(&mut self, index: usize)
        requires
            index < old(self).workspace.projects@.len(),
        ensures
            old(self).project_activated(index, final(self)),
    {
        let active: bool = match self.workspace.active_index {
            Some(i) => i == index,
            None => false,
        };
        if active {
            return;
        }
        let tool: u64 = self.editor.active_tool;
        self.clear_editor_transient_state();
        self.switch_project(index, tool);
        self.persist_session();
        self.invalidate_overlay();
        proof {
            assert(self.outbox@ =~= old(self).outbox@ + old(self).activation_effects(index));
        }
    }

    /// Makes the project with the object the active one, if there is one.
    pub fn activate_project_for_object(&mut self, object_id: u64) -> (found: bool)
        ensures
            found == exists|i: int|
                0 <= i < old(self).workspace.projects@.len() && first_object(
                    (#[trigger] old(self).workspace.projects@[i]).document.objects@,
                    object_id,
                ) is Some,
            found ==> exists|i: usize|
                #![trigger old(self).project_activated(i, final(self))]
                old(self).project_activated(i, final(self)) && i < old(
                    self,
                ).workspace.projects@.len() && first_object(
                    old(self).workspace.projects@[i as int].document.objects@,
                    object_id,
                ) is Some && forall|j: int|
                    0 <= j < i ==> first_object(
                        (#[trigger] old(self).workspace.projects@[j]).document.objects@,
                        object_id,
                    ) is None,
            !found ==> *final(self) == *old(self),
    {
        match self.workspace.project_index_for_object(object_id) {
            Some(index) => {
                self.activate_project_index(index);
                true
            },
            None => false,
        }
    }

    /// Makes the project with the layer the active one, if there is one.
    pub fn activate_project_for_layer(&mut self, layer_id: u64) -> (found: bool)
        ensures
            found == exists|i: int|
                0 <= i < old(self).workspace.projects@.len() && first_layer(
                    (#[trigger] old(self).workspace.projects@[i]).document.layers@,
                    layer_id,
                ) is Some,
            found ==> exists|i: usize|
                #![trigger old(self).project_activated(i, final(self))]
                old(self).project_activated(i, final(self)) && i < old(
                    self,
                ).workspace.projects@.len() && first_layer(
                    old(self).workspace.projects@[i as int].document.layers@,
                    layer_id,
                ) is Some && forall|j: int|
                    0 <= j < i ==> first_layer(
                        (#[trigger] old(self).workspace.projects@[j]).document.layers@,
                        layer_id,
                    ) is None,
            !found ==> *final(self) == *old(self),
    {
        match self.workspace.project_index_for_layer(layer_id) {
            Some(index) => {
                self.activate_project_index(index);
                true
            },
            None => false,
        }
    }
}

} // verus!
