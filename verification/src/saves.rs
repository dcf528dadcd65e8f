//! Saves to the browser's storage: what a finished one changes, what waited for
//! it, and what becomes of deleted projects.
use crate::app::{App, BrowserProject, BrowserState, Lifecycle};
use crate::browser::{
    spoken, stored_with, BrowserSave, GraphicsOutcome, SaveFollowUp, SaveStep, SaveTask,
    SnapshotMark,
};
use crate::editor::{EditorFlags, EditorState};
use crate::effects::{Effect, Notice, NoticeKind};
use crate::items::{an_undisturbed_save_leaves_nothing_dirty, distinct_ids};
use crate::language::Target;
use crate::project::{OpenProject, ProjectPersistence};
use crate::tasks::BackgroundTaskTicket;
use vstd::prelude::*;

verus! {

impl OpenProject {
    /// The project once it is stored under `record_id`, with what still differs
    /// from the stored copy.
    pub open spec fn as_stored(self, record_id: u64, mark: SnapshotMark, stored: OpenProject) -> bool {
        &&& stored.lossy_save_warnings@ == Seq::<String>::empty()
        &&& stored == (OpenProject {
            id: record_id,
            persistence: ProjectPersistence::BrowserRecord(record_id),
            path: None,
            path_rank: 0,
            lossy_save_warnings: stored.lossy_save_warnings,
            lossy_save_confirmed: false,
            unsaved: mark.unsaved,
            savepoint_revision: mark.savepoint_revision,
            dirty_layers: mark.dirty_layers,
            ..self
        })
    }

    /// The project is stored under `record_id`.
    pub fn mark_stored(&mut self, record_id: u64, mark: SnapshotMark)
        ensures
            (*old(self)).as_stored(record_id, mark, *final(self)),
    {
        self.id = record_id;
        self.persistence = ProjectPersistence::BrowserRecord(record_id);
        self.path = None;
        self.path_rank = 0;
        self.lossy_save_warnings = Vec::new();
        self.lossy_save_confirmed = false;
        self.unsaved = mark.unsaved;
        self.savepoint_revision = mark.savepoint_revision;
        self.dirty_layers = mark.dirty_layers;
    }
}

/// The open project at `i` is the first with the runtime id.
pub open spec fn first_open(projects: Seq<OpenProject>, runtime_id: u32, i: int) -> bool {
    0 <= i < projects.len() && projects[i].runtime_id == runtime_id && forall|j: int|
        0 <= j < i ==> (#[trigger] projects[j]).runtime_id != runtime_id
}

/// Some open project has the runtime id.
pub open spec fn is_open(projects: Seq<OpenProject>, runtime_id: u32) -> bool {
    exists|i: int| 0 <= i < projects.len() && (#[trigger] projects[i]).runtime_id == runtime_id
}

/// The open project with the runtime id warns of what a save leaves out.
pub open spec fn warns_of_loss(projects: Seq<OpenProject>, runtime_id: u32) -> bool {
    exists|i: int| #[trigger]
        first_open(projects, runtime_id, i) && projects[i].lossy_save_warnings@.len() > 0
}

/// The projects, with the one that warns of what a save leaves out to be
/// confirmed again.
pub open spec fn to_be_confirmed(
    before: Seq<OpenProject>,
    runtime_id: u32,
    after: Seq<OpenProject>,
) -> bool {
    &&& after.len() == before.len()
    &&& forall|i: int|
        0 <= i < before.len() ==> #[trigger] after[i] == (if warns_of_loss(before, runtime_id)
            && first_open(before, runtime_id, i) {
            OpenProject { lossy_save_confirmed: false, ..before[i] }
        } else {
            before[i]
        })
}

impl<P> App<P> {
    /// The active project has the runtime id.
    pub open spec fn is_active(&self, runtime_id: u32) -> bool {
        self.workspace.active() is Some && self.workspace.active()->0.runtime_id == runtime_id
    }

    /// The replacement of the active project waits for it to be saved.
    pub open spec fn replacement_waits(&self, runtime_id: u32) -> bool {
        self.lifecycle.project_replacement_after_save && self.is_active(runtime_id)
    }

    /// Whether the replacement of the active project waits for it to be saved.
    fn awaits_replacement(&self, runtime_id: u32) -> (yes: bool)
        ensures
            yes == self.replacement_waits(runtime_id),
    {
        self.lifecycle.project_replacement_after_save && match self.workspace.active_project() {
            Some(project) => project.runtime_id == runtime_id,
            None => false,
        }
    }

    /// The project at `i` is stored, and with it what the save held.
    pub open spec fn stored_at(&self, i: int, save: &BrowserSave, after: &App<P>) -> bool {
        let project = self.workspace.projects@[i];
        &&& self.items.after_save(&save.asset_token, &after.items)
        &&& after.workspace.active_index == self.workspace.active_index
        &&& after.workspace.next_runtime_id == self.workspace.next_runtime_id
        &&& after.workspace.projects@.len() == self.workspace.projects@.len()
        &&& project.as_stored(save.project_id, save.mark, after.workspace.projects@[i])
        &&& after.workspace.projects@ == self.workspace.projects@.update(
            i,
            after.workspace.projects@[i],
        )
        &&& stored_with(
            self.browser.stored@,
            BrowserProject {
                id: save.project_id,
                name: project.name,
                name_rank: project.name_rank,
            },
            after.browser.stored@,
        )
        &&& after.browser == (BrowserState { stored: after.browser.stored, ..self.browser })
        &&& after.outbox@ == self.outbox@ + seq![
            Effect::Notify(Notice { kind: NoticeKind::BrowserSaved, detail: project.name }),
            Effect::PersistSession,
        ]
        &&& *after == (App {
            items: after.items,
            workspace: after.workspace,
            browser: after.browser,
            outbox: after.outbox,
            ..*self
        })
    }

    /// Counts what a save held as saved, and the project as stored.
    fn store_project(&mut self, i: usize, save: BrowserSave)
        requires
            i < old(self).workspace.projects@.len(),
        ensures
            old(self).stored_at(i as int, &save, final(self)),
    {
        let record_id: u64 = save.project_id;
        self.items.mark_project_asset_snapshot_saved(&save.asset_token);
        let name: String = self.workspace.projects[i].name.clone();
        let name_rank: u64 = self.workspace.projects[i].name_rank;
        self.workspace.projects[i].mark_stored(record_id, save.mark);
        self.browser.track(BrowserProject { id: record_id, name: name.clone(), name_rank });
        self.outbox.push(Effect::Notify(Notice { kind: NoticeKind::BrowserSaved, detail: name }));
        self.outbox.push(Effect::PersistSession);
        proof {
            assert(self.workspace.projects@ =~= old(self).workspace.projects@.update(
                i as int,
                self.workspace.projects@[i as int],
            ));
            assert(self.outbox@ =~= old(self).outbox@ + seq![
                Effect::Notify(Notice { kind: NoticeKind::BrowserSaved, detail: name }),
                Effect::PersistSession,
            ]);
        }
    }

    /// A failed save asks again about a replacement that waited for it, and
    /// about a save that leaves something out.
    pub open spec fn save_refused(&self, runtime_id: u32, reason: String, after: &App<P>) -> bool {
        let asks = self.replacement_waits(runtime_id);
        let lossy = warns_of_loss(self.workspace.projects@, runtime_id);
        &&& after.workspace.active_index == self.workspace.active_index
        &&& after.workspace.next_runtime_id == self.workspace.next_runtime_id
        &&& to_be_confirmed(self.workspace.projects@, runtime_id, after.workspace.projects@)
        &&& after.outbox@ == self.outbox@.push(
            Effect::Notify(Notice { kind: NoticeKind::BrowserSaveFailed, detail: reason }),
        )
        &&& after.lifecycle == (Lifecycle {
            project_replacement_after_save: self.lifecycle.project_replacement_after_save && !asks,
            ..self.lifecycle
        })
        &&& after.editor == (EditorState {
            flags: EditorFlags {
                replace_project_confirm_open: self.editor.flags.replace_project_confirm_open
                    || asks,
                lossy_save_confirm_open: self.editor.flags.lossy_save_confirm_open || lossy,
                ..self.editor.flags
            },
            ..self.editor
        })
        &&& *after == (App {
            lifecycle: after.lifecycle,
            editor: after.editor,
            workspace: after.workspace,
            outbox: after.outbox,
            ..*self
        })
    }

    /// Asks again about a replacement that waited for the failed save.
    fn ask_replacement_again(&mut self, runtime_id: u32)
        ensures
            ({
                let asks = old(self).replacement_waits(runtime_id);
                *final(self) == (App {
                    lifecycle: Lifecycle {
                        project_replacement_after_save: old(
                            self,
                        ).lifecycle.project_replacement_after_save && !asks,
                        ..old(self).lifecycle
                    },
                    editor: EditorState {
                        flags: EditorFlags {
                            replace_project_confirm_open: old(
                                self,
                            ).editor.flags.replace_project_confirm_open || asks,
                            ..old(self).editor.flags
                        },
                        ..old(self).editor
                    },
                    ..*old(self)
                })
            }),
    {
        if self.awaits_replacement(runtime_id) {
            self.lifecycle.project_replacement_after_save = false;
            self.editor.flags.replace_project_confirm_open = true;
        }
    }

    /// Asks again about a failed save that leaves something out.
    fn ask_lossy_save_again(&mut self, runtime_id: u32)
        ensures
            final(self).workspace.active_index == old(self).workspace.active_index,
            final(self).workspace.next_runtime_id == old(self).workspace.next_runtime_id,
            to_be_confirmed(
                old(self).workspace.projects@,
                runtime_id,
                final(self).workspace.projects@,
            ),
            *final(self) == (App {
                editor: EditorState {
                    flags: EditorFlags {
                        lossy_save_confirm_open: old(self).editor.flags.lossy_save_confirm_open
                            || warns_of_loss(old(self).workspace.projects@, runtime_id),
                        ..old(self).editor.flags
                    },
                    ..old(self).editor
                },
                workspace: final(self).workspace,
                ..*old(self)
            }),
    {
        if let Some(i) = self.workspace.project_index_for_runtime_id(runtime_id) {
            proof {
                assert(first_open(self.workspace.projects@, runtime_id, i as int));
            }
            if self.workspace.projects[i].lossy_save_warnings.len() > 0 {
                self.workspace.projects[i].lossy_save_confirmed = false;
                self.editor.flags.lossy_save_confirm_open = true;
            }
        }
    }

    /// A save failed.
    fn refuse_save(&mut self, runtime_id: u32, reason: String)
        ensures
            old(self).save_refused(runtime_id, reason, final(self)),
    {
        self.ask_replacement_again(runtime_id);
        self.ask_lossy_save_again(runtime_id);
        self.notify(Notice { kind: NoticeKind::BrowserSaveFailed, detail: reason });
    }

    /// A save no longer counts as pending.
    fn end_browser_save(&mut self, runtime_id: u32)
        ensures
            final(self).browser.saves_pending@ == old(self).browser.saves_pending@.remove(
                runtime_id,
            ),
            *final(self) == (App {
                browser: BrowserState {
                    saves_pending: final(self).browser.saves_pending,
                    ..old(self).browser
                },
                ..*old(self)
            }),
    {
        broadcast use vstd::std_specs::hash::group_hash_axioms;

        let _was: bool = self.browser.saves_pending.remove(&runtime_id);
        proof {
            assert(self.browser.saves_pending@ =~= old(self).browser.saves_pending@.remove(
                runtime_id,
            ));
        }
    }

    /// The application without a pending save of the project.
    pub open spec fn save_ended(&self, runtime_id: u32, after: &App<P>) -> bool {
        &&& after.browser.saves_pending@ == self.browser.saves_pending@.remove(runtime_id)
        &&& *after == (App {
            browser: BrowserState { saves_pending: after.browser.saves_pending, ..self.browser },
            ..*self
        })
    }

    /// What a finished save changes: nothing but a notice if its project was
    /// replaced meanwhile; else the save is no longer pending, and it is recorded
    /// or refused.
    pub open spec fn save_finished(&self, save: &BrowserSave, after: &App<P>) -> bool {
        if save.workspace != self.workspace_generation {
            &&& after.outbox@ == (match save.failure {
                Some(reason) => self.outbox@.push(
                    Effect::Notify(Notice { kind: NoticeKind::BrowserSaveFailed, detail: reason }),
                ),
                None => self.outbox@,
            })
            &&& *after == (App { outbox: after.outbox, ..*self })
        } else {
            exists|ended: App<P>| #[trigger]
                self.save_ended(save.runtime_id, &ended) && match save.failure {
                    Some(reason) => ended.save_refused(save.runtime_id, reason, after),
                    None => if is_open(self.workspace.projects@, save.runtime_id) {
                        exists|i: int| #[trigger]
                            first_open(self.workspace.projects@, save.runtime_id, i)
                                && ended.stored_at(i, save, after)
                    } else {
                        *after == ended
                    },
                }
        }
    }

    /// What follows a finished save.
    pub open spec fn step_after(&self, save: &BrowserSave) -> SaveStep {
        if save.workspace != self.workspace_generation {
            SaveStep::Stale
        } else {
            SaveStep::Proceed(
                SaveFollowUp {
                    runtime_id: save.runtime_id,
                    saved: save.failure is None,
                    replace: save.failure is None && self.replacement_waits(save.runtime_id),
                    next: Some(SaveTask::Replace),
                },
            )
        }
    }

    /// A save to the browser's storage is done. One of a project that was
    /// replaced meanwhile changes nothing: its runtime id may be another
    /// project's by now.
    pub fn browser_project_saved(&mut self, save: BrowserSave) -> (step: SaveStep)
        ensures
            old(self).save_finished(&save, final(self)),
            step == old(self).step_after(&save),
    {
        if save.workspace != self.workspace_generation {
            if let Some(reason) = save.failure {
                self.notify(Notice { kind: NoticeKind::BrowserSaveFailed, detail: reason });
            }
            return SaveStep::Stale;
        }
        let runtime_id: u32 = save.runtime_id;
        let replace: bool = self.awaits_replacement(runtime_id);
        self.end_browser_save(runtime_id);
        let ghost ended = *self;
        proof {
            assert(old(self).save_ended(runtime_id, &ended));
        }
        if save.failure.is_some() {
            let failure: Option<String> = save.failure;
            if let Some(reason) = failure {
                self.refuse_save(runtime_id, reason);
            }
            return SaveStep::Proceed(
                SaveFollowUp {
                    runtime_id,
                    saved: false,
                    replace: false,
                    next: Some(SaveTask::Replace),
                },
            );
        }
        if let Some(i) = self.workspace.project_index_for_runtime_id(runtime_id) {
            proof {
                assert(first_open(ended.workspace.projects@, runtime_id, i as int));
                assert(is_open(ended.workspace.projects@, runtime_id));
            }
            self.store_project(i, save);
        }
        SaveStep::Proceed(
            SaveFollowUp { runtime_id, saved: true, replace, next: Some(SaveTask::Replace) },
        )
    }

    /// The replacement that waited for a save could not go on.
    pub fn replacement_failed(&mut self, reason: String)
        ensures
            final(self).outbox@ == old(self).outbox@.push(
                Effect::Notify(Notice { kind: NoticeKind::ReplacementFailed, detail: reason }),
            ),
            *final(self) == (App { outbox: final(self).outbox, ..*old(self) }),
    {
        self.notify(Notice { kind: NoticeKind::ReplacementFailed, detail: reason });
    }

    /// Whether the saved project is to be closed: that waited for the save, too.
    pub fn closes_after_save(&self, runtime_id: u32) -> (yes: bool)
        ensures
            yes == (self.editor.pending_close_project == Some(runtime_id)),
    {
        match self.editor.pending_close_project {
            Some(id) => id == runtime_id,
            None => false,
        }
    }

    /// Whether a project is to be closed after a save of it. A save that failed
    /// closes nothing.
    pub fn closes_after(&self, runtime_id: u32, saved: bool) -> (yes: bool)
        ensures
            yes == (saved && self.editor.pending_close_project == Some(runtime_id)),
    {
        saved && self.closes_after_save(runtime_id)
    }

    /// Whether the saved project is to be deleted from the browser's storage.
    /// It is asked once.
    pub fn take_delete_after_save(&mut self, runtime_id: u32) -> (yes: bool)
        ensures
            yes == old(self).browser.delete_after_save@.contains(runtime_id),
            final(self).browser.delete_after_save@ == old(self).browser.delete_after_save@.remove(
                runtime_id,
            ),
            *final(self) == (App {
                browser: BrowserState {
                    delete_after_save: final(self).browser.delete_after_save,
                    ..old(self).browser
                },
                ..*old(self)
            }),
    {
        broadcast use vstd::std_specs::hash::group_hash_axioms;

        let yes: bool = self.browser.delete_after_save.remove(&runtime_id);
        proof {
            assert(self.browser.delete_after_save@ =~= old(self).browser.delete_after_save@.remove(
                runtime_id,
            ));
        }
        yes
    }

    /// The task waited for the save.
    pub open spec fn waits(&self, task: SaveTask, follow: SaveFollowUp) -> bool {
        match task {
            SaveTask::Replace => follow.replace,
            SaveTask::Close => follow.saved && self.editor.pending_close_project == Some(
                follow.runtime_id,
            ),
            SaveTask::Delete => self.browser.delete_after_save@.contains(follow.runtime_id),
            SaveTask::Leave => true,
        }
    }

    /// The first task from `from` on that waited for the save.
    pub open spec fn first_waiting(&self, from: Option<SaveTask>, follow: SaveFollowUp) -> Option<
        SaveTask,
    >
        decreases
                match from {
                    Some(SaveTask::Replace) => 4nat,
                    Some(SaveTask::Close) => 3,
                    Some(SaveTask::Delete) => 2,
                    Some(SaveTask::Leave) => 1,
                    None => 0,
                },
    {
        match from {
            Some(task) => if self.waits(task, follow) {
                Some(task)
            } else {
                self.first_waiting(task.following(), follow)
            },
            None => None,
        }
    }

    /// The next thing to do after a save, if there is any left. Each task is
    /// looked at once, after those before it are done, as these can change what
    /// waits. A deletion is struck off when it comes up.
    pub fn next_after_save(&mut self, follow: &mut SaveFollowUp) -> (task: Option<SaveTask>)
        ensures
            task == old(self).first_waiting(old(follow).next, *old(follow)),
            *final(follow) == (SaveFollowUp {
                next: match task {
                    Some(t) => t.following(),
                    None => None,
                },
                ..*old(follow)
            }),
            final(self).browser.delete_after_save@ == (if task == Some(SaveTask::Delete) {
                old(self).browser.delete_after_save@.remove(old(follow).runtime_id)
            } else {
                old(self).browser.delete_after_save@
            }),
            *final(self) == (App {
                browser: BrowserState {
                    delete_after_save: final(self).browser.delete_after_save,
                    ..old(self).browser
                },
                ..*old(self)
            }),
    {
        proof {
            reveal_with_fuel(App::first_waiting, 5);
        }
        if follow.next == Some(SaveTask::Replace) {
            follow.next = Some(SaveTask::Close);
            if follow.replace {
                return Some(SaveTask::Replace);
            }
        }
        if follow.next == Some(SaveTask::Close) {
            follow.next = Some(SaveTask::Delete);
            if self.closes_after(follow.runtime_id, follow.saved) {
                return Some(SaveTask::Close);
            }
        }
        if follow.next == Some(SaveTask::Delete) {
            follow.next = Some(SaveTask::Leave);
            if self.take_delete_after_save(follow.runtime_id) {
                return Some(SaveTask::Delete);
            }
            proof {
                assert(self.browser.delete_after_save@ =~= old(self).browser.delete_after_save@);
            }
        }
        if follow.next == Some(SaveTask::Leave) {
            follow.next = None;
            return Some(SaveTask::Leave);
        }
        None
    }

    /// A project could not be deleted from the browser's storage after its save.
    pub fn delete_refused(&mut self, reason: String)
        ensures
            final(self).outbox@ == old(self).outbox@.push(
                Effect::Notify(Notice { kind: NoticeKind::BrowserDeleteRefused, detail: reason }),
            ),
            *final(self) == (App { outbox: final(self).outbox, ..*old(self) }),
    {
        self.notify(Notice { kind: NoticeKind::BrowserDeleteRefused, detail: reason });
    }

    /// A deletion no longer counts as pending.
    fn end_browser_delete(&mut self, project_id: u64)
        ensures
            final(self).browser.deletes_pending@ == old(self).browser.deletes_pending@.remove(
                project_id,
            ),
            *final(self) == (App {
                browser: BrowserState {
                    deletes_pending: final(self).browser.deletes_pending,
                    ..old(self).browser
                },
                ..*old(self)
            }),
    {
        broadcast use vstd::std_specs::hash::group_hash_axioms;

        let _was: bool = self.browser.deletes_pending.remove(&project_id);
        proof {
            assert(self.browser.deletes_pending@ =~= old(self).browser.deletes_pending@.remove(
                project_id,
            ));
        }
    }

    /// What the surroundings do when a stored project was deleted: close it if
    /// it is open, write the session, and say so.
    pub open spec fn delete_effects(&self, runtime_id: Option<u32>, nothing: String) -> Seq<Effect> {
        (match runtime_id {
            Some(id) if is_open(self.workspace.projects@, id) => seq![Effect::CloseProject(id)],
            _ => Seq::empty(),
        }) + seq![
            Effect::PersistSession,
            Effect::Notify(Notice { kind: NoticeKind::BrowserDeleted, detail: nothing }),
        ]
    }

    /// What the end of a deletion changes.
    pub open spec fn delete_finished(
        &self,
        project_id: u64,
        runtime_id: Option<u32>,
        failure: Option<String>,
        after: &App<P>,
    ) -> bool {
        &&& after.browser.deletes_pending@ == self.browser.deletes_pending@.remove(
            project_id,
        )
        &&& match failure {
            Some(reason) => {
                &&& after.browser.stored == self.browser.stored
                &&& after.outbox@ == self.outbox@.push(
                    Effect::Notify(
                        Notice { kind: NoticeKind::BrowserDeleteFailed, detail: reason },
                    ),
                )
            },
            None => {
                &&& after.browser.stored@ == self.browser.stored@.filter(
                    |p: BrowserProject| p.id != project_id,
                )
                &&& exists|nothing: String| #[trigger]
                    spoken(nothing, Seq::empty()) && after.outbox@ == self.outbox@
                        + self.delete_effects(runtime_id, nothing)
            },
        }
        &&& *after == (App {
            browser: BrowserState {
                deletes_pending: after.browser.deletes_pending,
                stored: after.browser.stored,
                ..self.browser
            },
            outbox: after.outbox,
            ..*self
        })
    }

    /// A project was deleted from the browser's storage, or was not for a
    /// reason.
    pub fn browser_project_deleted(
        &mut self,
        project_id: u64,
        runtime_id: Option<u32>,
        failure: Option<String>,
    )
        ensures
            old(self).delete_finished(project_id, runtime_id, failure, final(self)),
    {
        self.end_browser_delete(project_id);
        match failure {
            Some(reason) => {
                self.notify(Notice { kind: NoticeKind::BrowserDeleteFailed, detail: reason });
            },
            None => {
                self.browser.forget(project_id);
                self.announce_deletion(runtime_id);
            },
        }
    }

    /// Closes a deleted project if it is open, and says that it is gone.
    fn announce_deletion(&mut self, runtime_id: Option<u32>)
        ensures
            exists|nothing: String| #[trigger]
                spoken(nothing, Seq::empty()) && final(self).outbox@ == old(self).outbox@ + old(
                    self,
                ).delete_effects(runtime_id, nothing),
            *final(self) == (App { outbox: final(self).outbox, ..*old(self) }),
    {
        if let Some(id) = runtime_id {
            if let Some(i) = self.workspace.project_index_for_runtime_id(id) {
                proof {
                    assert(self.workspace.projects@[i as int].runtime_id == id);
                }
                self.outbox.push(Effect::CloseProject(id));
            }
        }
        self.outbox.push(Effect::PersistSession);
        let nothing: String = String::new();
        let ghost word = nothing;
        self.outbox.push(Effect::Notify(Notice { kind: NoticeKind::BrowserDeleted, detail: nothing }));
        proof {
            assert(word@ =~= Seq::<char>::empty());
            assert(spoken(word, Seq::empty()));
            assert(self.outbox@ =~= old(self).outbox@ + old(self).delete_effects(runtime_id, word));
        }
    }

    /// The session could not be written, for this reason.
    pub fn session_save_failed(&mut self, reason: String)
        ensures
            final(self).outbox@ == old(self).outbox@.push(
                Effect::Notify(
                    Notice {
                        kind: if old(self).target == Target::Web {
                            NoticeKind::BrowserSessionSaveFailed
                        } else {
                            NoticeKind::SessionSaveFailed
                        },
                        detail: reason,
                    },
                ),
            ),
            *final(self) == (App { outbox: final(self).outbox, ..*old(self) }),
    {
        let kind: NoticeKind = match self.target {
            Target::Web => NoticeKind::BrowserSessionSaveFailed,
            Target::Native => NoticeKind::SessionSaveFailed,
        };
        self.notify(Notice { kind, detail: reason });
    }

    /// What the session on a page keeps: the stored project that is open.
    pub fn session_record(&self) -> (id: Option<u64>)
        ensures
            id == (match self.workspace.active() {
                Some(project) => match project.persistence {
                    ProjectPersistence::BrowserRecord(record) => Some(record),
                    ProjectPersistence::Native => None,
                },
                None => None,
            }),
    {
        match self.workspace.active_project() {
            Some(project) => match project.persistence {
                ProjectPersistence::BrowserRecord(record) => Some(record),
                ProjectPersistence::Native => None,
            },
            None => None,
        }
    }
}

/// Something that happened on the page or in the background.
pub enum AppEvent {
    GraphicsInitializationFinished(GraphicsOutcome),
    BrowserProjectsRestored(Result<Vec<BrowserProject>, String>),
    /// A stored project was read: it is there or not, or reading it failed.
    BrowserProjectLoaded {
        project_id: u64,
        ticket: BackgroundTaskTicket,
        result: Result<bool, String>,
    },
    BrowserProjectSaved(BrowserSave),
    BrowserProjectDeleted { project_id: u64, runtime_id: Option<u32>, failure: Option<String> },
    BrowserClipboardPasted(String),
}

impl<P> App<P> {
    /// What an event changes.
    pub open spec fn event_handled(&self, event: AppEvent, after: &App<P>) -> bool {
        match event {
            AppEvent::GraphicsInitializationFinished(outcome) => self.graphics_settled(
                outcome,
                after,
            ),
            AppEvent::BrowserProjectsRestored(result) => self.projects_restored(result, after),
            AppEvent::BrowserProjectLoaded { project_id, ticket, result } => self.load_finished(
                project_id,
                ticket,
                result,
                after,
            ),
            AppEvent::BrowserProjectSaved(save) => self.save_finished(&save, after),
            AppEvent::BrowserProjectDeleted { project_id, runtime_id, failure } => {
                self.delete_finished(project_id, runtime_id, failure, after)
            },
            AppEvent::BrowserClipboardPasted(text) => self.pasted(text, after),
        }
    }

    /// Takes in an event. A save hands back what follows it.
    pub fn user_event(&mut self, event: AppEvent) -> (step: Option<SaveStep>)
        requires
            old(self).wf(),
        ensures
            old(self).event_handled(event, final(self)),
            final(self).wf(),
            step == (match event {
                AppEvent::BrowserProjectSaved(save) => Some(old(self).step_after(&save)),
                _ => None,
            }),
    {
        match event {
            AppEvent::GraphicsInitializationFinished(outcome) => {
                self.graphics_initialization_finished(outcome);
                None
            },
            AppEvent::BrowserProjectsRestored(result) => {
                self.browser_projects_restored(result);
                None
            },
            AppEvent::BrowserProjectLoaded { project_id, ticket, result } => {
                self.browser_project_loaded(project_id, ticket, result);
                None
            },
            AppEvent::BrowserProjectSaved(save) => Some(self.browser_project_saved(save)),
            AppEvent::BrowserProjectDeleted { project_id, runtime_id, failure } => {
                self.browser_project_deleted(project_id, runtime_id, failure);
                None
            },
            AppEvent::BrowserClipboardPasted(text) => {
                self.browser_clipboard_pasted(text);
                None
            },
        }
    }
}

/// Once its project was replaced, a save changes no project and no item: runtime
/// ids start again, and the save is told from those of the next project.
pub proof fn saves_of_replaced_projects_change_nothing<P>(
    before: &App<P>,
    replaced: &App<P>,
    save: &BrowserSave,
    after: &App<P>,
)
    requires
        save.workspace == before.workspace_generation,
        before.owned_data_cleared(replaced),
        replaced.save_finished(save, after),
    ensures
        *after == (App { outbox: after.outbox, ..*replaced }),
{
}

/// After a save that failed, no project is replaced or closed, whatever waited
/// for the save and whatever changes meanwhile.
pub proof fn a_failed_save_replaces_and_closes_nothing<P>(
    before: &App<P>,
    save: &BrowserSave,
    follow: SaveFollowUp,
    later: &App<P>,
    from: Option<SaveTask>,
)
    requires
        save.failure is Some,
        before.step_after(save) == SaveStep::Proceed(follow),
    ensures
        later.first_waiting(from, follow) != Some(SaveTask::Replace),
        later.first_waiting(from, follow) != Some(SaveTask::Close),
{
    reveal_with_fuel(App::first_waiting, 5);
}

/// A save that nothing interfered with leaves the saved project without unsaved
/// work: its items were as the save found them, and so was its document.
pub proof fn an_undisturbed_save_leaves_the_project_clean<P>(
    before: &App<P>,
    save: &BrowserSave,
    after: &App<P>,
)
    requires
        save.workspace == before.workspace_generation,
        save.failure is None,
        before.is_active(save.runtime_id),
        first_open(
            before.workspace.projects@,
            save.runtime_id,
            before.workspace.active_index->0 as int,
        ),
        before.saved_by(&save.asset_token),
        !save.mark.unsaved,
        distinct_ids(before.items.triangulations@),
        distinct_ids(before.items.block_models@),
        distinct_ids(before.items.drill_holes@),
        distinct_ids(before.items.point_clouds@),
        distinct_ids(before.items.rasters@),
        before.save_finished(save, after),
    ensures
        after.workspace.active()->0.runtime_id == save.runtime_id,
        !after.content_dirty(save.runtime_id),
{
    let active = before.workspace.active_index->0 as int;
    let ended = choose|ended: App<P>| #[trigger]
        before.save_ended(save.runtime_id, &ended) && if is_open(
            before.workspace.projects@,
            save.runtime_id,
        ) {
            exists|i: int| #[trigger]
                first_open(before.workspace.projects@, save.runtime_id, i) && ended.stored_at(
                    i,
                    save,
                    after,
                )
        } else {
            *after == ended
        };
    assert(is_open(before.workspace.projects@, save.runtime_id)) by {
        assert(before.workspace.projects@[active].runtime_id == save.runtime_id);
    }
    let i = choose|i: int| #[trigger]
        first_open(before.workspace.projects@, save.runtime_id, i) && ended.stored_at(
            i,
            save,
            after,
        );
    assert(i == active) by {
        if i < active {
            assert(before.workspace.projects@[i].runtime_id != save.runtime_id);
        }
        if active < i {
            assert(before.workspace.projects@[active].runtime_id != save.runtime_id);
        }
    }
    an_undisturbed_save_leaves_nothing_dirty(
        &before.items,
        &before.workspace.active()->0.folders,
        &save.asset_token,
        &after.items,
    );
}

} // verus!
