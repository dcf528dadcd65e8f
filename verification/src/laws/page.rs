//! Pages: saving to the browser's storage, and what comes back from it.
use crate::app::{App, BrowserProject, BrowserState, GraphicsState};
use crate::browser::{BrowserSave, GraphicsOutcome, SaveFollowUp, SaveStep, SaveTask};
use crate::effects::{Effect, Notice, NoticeKind};
use crate::language::Target;
use crate::project::ProjectPersistence;
use crate::saves::{first_open, is_open, AppEvent};
use crate::tasks::BackgroundTaskTicket;
use vstd::prelude::*;

verus! {

/// A project that was stored is known by the id and persistence of its record, is
/// as unsaved as the save left it, warns of nothing any more, and has everything
/// else as before.
pub proof fn a_stored_project_is_its_record<P>(
    app: &mut App<P>,
    save: BrowserSave,
    i: int,
    step: SaveStep,
)
    requires
        call_ensures(App::<P>::browser_project_saved, (app, save), step),
        save.workspace == old(app).workspace_generation,
        save.failure is None,
        0 <= i < old(app).workspace.projects@.len(),
        old(app).workspace.projects@[i].runtime_id == save.runtime_id,
        forall|j: int|
            0 <= j < i ==> (#[trigger] old(app).workspace.projects@[j]).runtime_id
                != save.runtime_id,
    ensures
        ({
            let was = old(app).workspace.projects@[i];
            let now = final(app).workspace.projects@[i];
            &&& now.id == save.project_id
            &&& now.persistence == ProjectPersistence::BrowserRecord(save.project_id)
            &&& now.path is None
            &&& now.lossy_save_warnings@.len() == 0
            &&& !now.lossy_save_confirmed
            &&& now.unsaved == save.mark.unsaved
            &&& now.savepoint_revision == save.mark.savepoint_revision
            &&& now.dirty_layers == save.mark.dirty_layers
            &&& now.runtime_id == was.runtime_id
            &&& now.name == was.name
            &&& now.document == was.document
            &&& now.folders == was.folders
        }),
        final(app).workspace.projects@.len() == old(app).workspace.projects@.len(),
        forall|j: int|
            0 <= j < old(app).workspace.projects@.len() && j != i
                ==> #[trigger] final(app).workspace.projects@[j]
                == old(app).workspace.projects@[j],
        final(app).workspace.active_index == old(app).workspace.active_index,
        final(app).workspace_generation == old(app).workspace_generation,
        final(app).editor == old(app).editor,
        final(app).lifecycle == old(app).lifecycle,
        !final(app).browser.saves_pending@.contains(save.runtime_id),
        forall|r: u32|
            r != save.runtime_id ==> (#[trigger] final(app).browser.saves_pending@.contains(r)
                <==> old(app).browser.saves_pending@.contains(r)),
        exists|k: int|
            #![trigger final(app).browser.stored@[k]]
            0 <= k < final(app).browser.stored@.len() && final(app).browser.stored@[k].id
                == save.project_id && final(app).browser.stored@[k].name
                == old(app).workspace.projects@[i].name,
        final(app).outbox@.len() == old(app).outbox@.len() + 2,
        final(app).outbox@[old(app).outbox@.len() as int] == Effect::Notify(
            Notice {
                kind: NoticeKind::BrowserSaved,
                detail: old(app).workspace.projects@[i].name,
            },
        ),
        final(app).outbox@.last() == Effect::PersistSession,
{
    lemma_stored(old(app), &save, i, final(app));
    lemma_offered(
        old(app).browser.stored@,
        BrowserProject {
            id: save.project_id,
            name: old(app).workspace.projects@[i].name,
            name_rank: old(app).workspace.projects@[i].name_rank,
        },
        final(app).browser.stored@,
    );
}

/// What `save_finished` comes to where the project is open and the save succeeded.
proof fn lemma_stored<P>(before: &App<P>, save: &BrowserSave, i: int, after: &App<P>)
    requires
        before.save_finished(save, after),
        save.workspace == before.workspace_generation,
        save.failure is None,
        first_open(before.workspace.projects@, save.runtime_id, i),
    ensures
        exists|ended: App<P>| #[trigger]
            before.save_ended(save.runtime_id, &ended) && ended.stored_at(i, save, after),
        after.workspace_generation == before.workspace_generation,
        after.editor == before.editor,
        after.lifecycle == before.lifecycle,
{
    let projects = before.workspace.projects@;
    assert(projects[i].runtime_id == save.runtime_id);
    assert(is_open(projects, save.runtime_id));
    let ended = choose|ended: App<P>| #[trigger]
        before.save_ended(save.runtime_id, &ended) && exists|k: int| #[trigger]
            first_open(projects, save.runtime_id, k) && ended.stored_at(k, save, after);
    let k = choose|k: int| #[trigger]
        first_open(projects, save.runtime_id, k) && ended.stored_at(k, save, after);
    if k < i {
        assert(projects[k].runtime_id != save.runtime_id);
    }
    if i < k {
        assert(projects[i].runtime_id != save.runtime_id);
    }
}

proof fn lemma_offered(
    before: Seq<BrowserProject>,
    project: BrowserProject,
    after: Seq<BrowserProject>,
)
    requires
        crate::browser::stored_with(before, project, after),
    ensures
        exists|k: int| 0 <= k < after.len() && #[trigger] after[k] == project,
        forall|j: int|
            0 <= j < before.len() && before[j].id != project.id ==> #[trigger] after[j]
                == before[j],
        after.len() >= before.len(),
{
    if exists|i: int| 0 <= i < before.len() && (#[trigger] before[i]).id == project.id {
        let i = choose|i: int| #[trigger]
            crate::browser::first_stored(before, project.id, i) && after == before.update(
                i,
                project,
            );
        assert(after[i] == project);
    } else {
        assert(after[before.len() as int] == project);
    }
}

/// A stored project is listed once: it takes the place of its older entry, or is
/// added; the others stay.
pub proof fn stored_projects_are_listed_once(
    state: &mut BrowserState,
    project: BrowserProject,
    j: int,
)
    requires
        call_ensures(BrowserState::track, (state, project), ()),
    ensures
        exists|k: int|
            0 <= k < final(state).stored@.len() && #[trigger] final(state).stored@[k] == project,
        0 <= j < old(state).stored@.len() && old(state).stored@[j].id != project.id
            ==> final(state).stored@[j] == old(state).stored@[j],
        (forall|i: int|
            0 <= i < old(state).stored@.len() ==> (#[trigger] old(state).stored@[i]).id
                != project.id) ==> final(state).stored@.len() == old(state).stored@.len() + 1,
        (exists|i: int|
            0 <= i < old(state).stored@.len() && (#[trigger] old(state).stored@[i]).id
                == project.id) ==> final(state).stored@.len() == old(state).stored@.len(),
        final(state).saves_pending == old(state).saves_pending,
        final(state).loads_pending == old(state).loads_pending,
{
    lemma_offered(old(state).stored@, project, final(state).stored@);
}

/// A forgotten project is no longer listed, and every other one still is.
pub proof fn only_the_forgotten_project_goes(
    state: &mut BrowserState,
    id: u64,
    p: BrowserProject,
)
    requires
        call_ensures(BrowserState::forget, (state, id), ()),
    ensures
        final(state).stored@.contains(p) <==> old(state).stored@.contains(p) && p.id != id,
{
    lemma_forgotten(old(state).stored@, id, p);
}

proof fn lemma_forgotten(stored: Seq<BrowserProject>, id: u64, p: BrowserProject)
    ensures
        stored.filter(|q: BrowserProject| q.id != id).contains(p) <==> stored.contains(p) && p.id
            != id,
    decreases stored.len(),
{
    let keep = |q: BrowserProject| q.id != id;
    reveal(Seq::filter);
    if stored.len() > 0 {
        let rest = stored.drop_last();
        let kept = rest.filter(keep);
        let all = stored.filter(keep);
        lemma_forgotten(rest, id, p);
        if all.contains(p) {
            let k = choose|k: int| 0 <= k < all.len() && all[k] == p;
            if k < kept.len() {
                assert(kept[k] == p);
                let i = choose|i: int| 0 <= i < rest.len() && rest[i] == p;
                assert(stored[i] == p);
            } else {
                assert(stored[stored.len() - 1] == p);
            }
        }
        if stored.contains(p) && p.id != id {
            let i = choose|i: int| 0 <= i < stored.len() && stored[i] == p;
            if i < rest.len() {
                assert(rest[i] == p);
                let k = choose|k: int| 0 <= k < kept.len() && kept[k] == p;
                assert(all[k] == p);
            } else {
                assert(all[all.len() - 1] == p);
            }
        }
    }
}

/// A save that failed leaves every project, item and choice as it is, says why, and
/// no longer counts as pending. What waited for it is asked about again.
pub proof fn a_failed_save_loses_nothing<P>(app: &mut App<P>, save: BrowserSave, step: SaveStep)
    requires
        call_ensures(App::<P>::browser_project_saved, (app, save), step),
        save.failure is Some,
    ensures
        final(app).items == old(app).items,
        final(app).workspace.active_index == old(app).workspace.active_index,
        final(app).workspace.projects@.len() == old(app).workspace.projects@.len(),
        forall|i: int|
            0 <= i < old(app).workspace.projects@.len() ==> {
                let was = old(app).workspace.projects@[i];
                let now = #[trigger] final(app).workspace.projects@[i];
                &&& now.unsaved == was.unsaved
                &&& now.dirty_layers == was.dirty_layers
                &&& now.savepoint_revision == was.savepoint_revision
                &&& now.persistence == was.persistence
                &&& now.id == was.id
                &&& now.name == was.name
                &&& now.document == was.document
                &&& now.lossy_save_warnings == was.lossy_save_warnings
            },
        final(app).browser.stored == old(app).browser.stored,
        final(app).outbox@ == old(app).outbox@.push(
            Effect::Notify(
                Notice { kind: NoticeKind::BrowserSaveFailed, detail: save.failure->0 },
            ),
        ),
        save.workspace == old(app).workspace_generation ==> {
            &&& !final(app).browser.saves_pending@.contains(save.runtime_id)
            &&& step == SaveStep::Proceed(
                SaveFollowUp {
                    runtime_id: save.runtime_id,
                    saved: false,
                    replace: false,
                    next: Some(SaveTask::Replace),
                },
            )
            &&& old(app).lifecycle.project_replacement_after_save
                && old(app).workspace.active() is Some
                && old(app).workspace.active()->0.runtime_id == save.runtime_id
                ==> final(app).editor.flags.replace_project_confirm_open
                && !final(app).lifecycle.project_replacement_after_save
        },
        save.workspace != old(app).workspace_generation ==> step == SaveStep::Stale
            && final(app).browser == old(app).browser && final(app).workspace
            == old(app).workspace && final(app).editor == old(app).editor,
{
}

/// A save that succeeded lets the replacement go on that waited for that very
/// project, and no other; one from a workspace that is gone lets nothing go on.
pub proof fn replacements_wait_for_their_own_project<P>(
    app: &mut App<P>,
    save: BrowserSave,
    step: SaveStep,
)
    requires
        call_ensures(App::<P>::browser_project_saved, (app, save), step),
        save.failure is None,
    ensures
        save.workspace != old(app).workspace_generation ==> step == SaveStep::Stale && *final(app)
            == (App { outbox: final(app).outbox, ..*old(app) }) && final(app).outbox@
            == old(app).outbox@,
        save.workspace == old(app).workspace_generation ==> step == SaveStep::Proceed(
            SaveFollowUp {
                runtime_id: save.runtime_id,
                saved: true,
                replace: old(app).lifecycle.project_replacement_after_save
                    && old(app).workspace.active() is Some
                    && old(app).workspace.active()->0.runtime_id == save.runtime_id,
                next: Some(SaveTask::Replace),
            },
        ),
{
}

/// What waited for a save is done in turn: the replacement, the closing, the
/// deletion, the leaving. Each comes up only if it waited, and leaving always does.
pub proof fn waiting_tasks_come_up_in_turn<P>(
    app: &mut App<P>,
    follow: &mut SaveFollowUp,
    task: Option<SaveTask>,
)
    requires
        call_ensures(App::<P>::next_after_save, (app, follow), task),
    ensures
        ({
            let replaces = old(follow).replace;
            let closes = old(follow).saved && old(app).editor.pending_close_project == Some(
                old(follow).runtime_id,
            );
            let deletes = old(app).browser.delete_after_save@.contains(old(follow).runtime_id);
            &&& old(follow).next is None ==> task is None
            &&& old(follow).next == Some(SaveTask::Leave) ==> task == Some(SaveTask::Leave)
            &&& old(follow).next == Some(SaveTask::Delete) ==> task == (if deletes {
                Some(SaveTask::Delete)
            } else {
                Some(SaveTask::Leave)
            })
            &&& old(follow).next == Some(SaveTask::Close) && closes ==> task == Some(
                SaveTask::Close,
            )
            &&& old(follow).next == Some(SaveTask::Close) && !closes ==> task == (if deletes {
                Some(SaveTask::Delete)
            } else {
                Some(SaveTask::Leave)
            })
            &&& old(follow).next == Some(SaveTask::Replace) && replaces ==> task == Some(
                SaveTask::Replace,
            )
            &&& old(follow).next == Some(SaveTask::Replace) && !replaces && closes ==> task
                == Some(SaveTask::Close)
            &&& old(follow).next == Some(SaveTask::Replace) && !replaces && !closes ==> task == (
            if deletes {
                Some(SaveTask::Delete)
            } else {
                Some(SaveTask::Leave)
            })
        }),
        task == Some(SaveTask::Replace) ==> final(follow).next == Some(SaveTask::Close),
        task == Some(SaveTask::Close) ==> final(follow).next == Some(SaveTask::Delete),
        task == Some(SaveTask::Delete) ==> final(follow).next == Some(SaveTask::Leave)
            && !final(app).browser.delete_after_save@.contains(old(follow).runtime_id),
        task == Some(SaveTask::Leave) ==> final(follow).next is None,
        task != Some(SaveTask::Delete) ==> final(app).browser.delete_after_save@
            == old(app).browser.delete_after_save@,
        final(follow).runtime_id == old(follow).runtime_id,
        final(follow).saved == old(follow).saved,
        final(follow).replace == old(follow).replace,
        final(app).workspace == old(app).workspace,
        final(app).editor == old(app).editor,
        final(app).browser.saves_pending == old(app).browser.saves_pending,
{
    reveal_with_fuel(App::first_waiting, 5);
}

/// A deleted project leaves the list; one that could not be deleted stays on it.
/// Either way the deletion is over, and the user is told.
pub proof fn deletions_end<P>(
    app: &mut App<P>,
    project_id: u64,
    runtime_id: Option<u32>,
    failure: Option<String>,
    p: BrowserProject,
)
    requires
        call_ensures(
            App::<P>::browser_project_deleted,
            (app, project_id, runtime_id, failure),
            (),
        ),
    ensures
        !final(app).browser.deletes_pending@.contains(project_id),
        failure is None ==> (final(app).browser.stored@.contains(p)
            <==> old(app).browser.stored@.contains(p) && p.id != project_id),
        failure is Some ==> final(app).browser.stored == old(app).browser.stored
            && final(app).outbox@ == old(app).outbox@.push(
            Effect::Notify(Notice { kind: NoticeKind::BrowserDeleteFailed, detail: failure->0 }),
        ),
        failure is None && runtime_id is Some && (exists|i: int|
            0 <= i < old(app).workspace.projects@.len() && (
            #[trigger] old(app).workspace.projects@[i]).runtime_id == runtime_id->0) ==> final(app).outbox@.len() == old(app).outbox@.len() + 3 && final(app).outbox@[old(app).outbox@.len() as int] == Effect::CloseProject(runtime_id->0),
        failure is None && runtime_id is None ==> final(app).outbox@.len()
            == old(app).outbox@.len() + 2,
        failure is None ==> final(app).outbox@[final(app).outbox@.len() - 2]
            == Effect::PersistSession && final(app).outbox@.last() is Notify && final(app).outbox@.last()->Notify_0.kind == NoticeKind::BrowserDeleted,
        final(app).workspace == old(app).workspace,
        final(app).items == old(app).items,
        final(app).editor == old(app).editor,
{
    if failure is None {
        lemma_forgotten(old(app).browser.stored@, project_id, p);
    }
}

/// A stored project that was read is opened, and its load goes on; one that is gone
/// or cannot be read is said to be so, and its load is over.
pub proof fn read_projects_are_opened<P>(
    app: &mut App<P>,
    project_id: u64,
    ticket: BackgroundTaskTicket,
    result: Result<bool, String>,
)
    requires
        call_ensures(App::<P>::browser_project_loaded, (app, project_id, ticket, result), ()),
    ensures
        final(app).outbox@.len() == old(app).outbox@.len() + 1,
        result is Ok && result->Ok_0 ==> final(app).outbox@.last() == Effect::OpenBrowserRecord(
            project_id,
        ) && final(app).browser.loads_pending@ == old(app).browser.loads_pending@,
        result is Ok && !result->Ok_0 ==> final(app).outbox@.last() is Notify && final(app).outbox@.last()->Notify_0.kind == NoticeKind::BrowserProjectGone,
        result is Err ==> final(app).outbox@.last() == Effect::Notify(
            Notice { kind: NoticeKind::BrowserLoadFailed, detail: result->Err_0 },
        ),
        !(result is Ok && result->Ok_0) ==> !final(app).browser.loads_pending@.contains(
            project_id,
        ),
        !final(app).tasks.cpu_pending@.contains(ticket.0),
        final(app).workspace == old(app).workspace,
        final(app).items == old(app).items,
        final(app).browser.stored == old(app).browser.stored,
{
}

/// The record that was opened is what the active project is stored as, and nothing
/// else of the project or of the others changes.
pub proof fn opened_records_are_the_active_project<P>(
    app: &mut App<P>,
    project_id: u64,
    result: Result<(u64, String), String>,
    i: int,
)
    requires
        call_ensures(App::<P>::browser_record_opened, (app, project_id, result), ()),
        0 <= i < old(app).workspace.projects@.len(),
    ensures
        ({
            let was = old(app).workspace.projects@[i];
            let now = final(app).workspace.projects@[i];
            &&& result is Ok && old(app).workspace.active_index is Some
                && old(app).workspace.active_index->0 == i ==> now.id == (result->Ok_0).0
                && now.persistence == ProjectPersistence::BrowserRecord((result->Ok_0).0)
            &&& old(app).workspace.active_index is None || old(app).workspace.active_index->0 != i
                || result is Err ==> now == was
            &&& now.name == was.name
            &&& now.document == was.document
            &&& now.unsaved == was.unsaved
            &&& now.path == was.path
        }),
        final(app).workspace.projects@.len() == old(app).workspace.projects@.len(),
        final(app).workspace.active_index == old(app).workspace.active_index,
        !final(app).browser.loads_pending@.contains(project_id),
        result is Ok ==> final(app).outbox@.last() == Effect::Notify(
            Notice { kind: NoticeKind::BrowserActivated, detail: (result->Ok_0).1 },
        ) && final(app).outbox@[old(app).outbox@.len() as int] == Effect::PersistSession,
        result is Err ==> final(app).outbox@ == old(app).outbox@.push(
            Effect::Notify(
                Notice { kind: NoticeKind::BrowserActivationFailed, detail: result->Err_0 },
            ),
        ),
        final(app).items == old(app).items,
        final(app).editor == old(app).editor,
{
}

/// The list of stored projects is taken as it comes; if it does not come, the one
/// there is stays and the user is told.
pub proof fn the_stored_list_is_taken<P>(
    app: &mut App<P>,
    result: Result<Vec<BrowserProject>, String>,
)
    requires
        call_ensures(App::<P>::browser_projects_restored, (app, result), ()),
    ensures
        result is Ok ==> final(app).browser.stored == result->Ok_0 && final(app).outbox
            == old(app).outbox,
        result is Err ==> final(app).browser.stored == old(app).browser.stored && final(app).outbox@ == old(app).outbox@.push(
            Effect::Notify(Notice { kind: NoticeKind::BrowserRestoreFailed, detail: result->Err_0 }),
        ),
        final(app).workspace == old(app).workspace,
        final(app).lifecycle == old(app).lifecycle,
        final(app).browser.saves_pending == old(app).browser.saves_pending,
{
}

/// The renderer is started once, if it can wake the event loop; if it cannot, it is
/// given up and the application closes.
pub proof fn the_renderer_is_started_once<P>(app: &mut App<P>)
    requires
        call_ensures(App::<P>::web_graphics_initialization, (app,), ()),
    ensures
        old(app).browser.graphics_state != GraphicsState::NotStarted ==> *final(app) == *old(app),
        old(app).browser.graphics_state == GraphicsState::NotStarted
            && old(app).browser.event_loop_proxy ==> final(app).browser.graphics_state
            == GraphicsState::Initializing && final(app).outbox@ == old(app).outbox@.push(
            Effect::SpawnGraphics,
        ) && final(app).lifecycle == old(app).lifecycle,
        old(app).browser.graphics_state == GraphicsState::NotStarted
            && !old(app).browser.event_loop_proxy ==> final(app).browser.graphics_state
            == GraphicsState::Failed && final(app).lifecycle.close_requested,
        final(app).workspace == old(app).workspace,
{
}

/// A renderer that started is used and a frame is asked for; without one the
/// application closes, with the reason on the page.
pub proof fn the_renderer_is_used_or_given_up<P>(app: &mut App<P>, outcome: GraphicsOutcome)
    requires
        call_ensures(App::<P>::graphics_initialization_finished, (app, outcome), ()),
    ensures
        outcome is Ready ==> {
            &&& final(app).surface == Some(outcome->Ready_0)
            &&& final(app).browser.graphics_state == GraphicsState::Ready
            &&& final(app).pacing.redraw_requested
            &&& final(app).lifecycle.close_requested == old(app).lifecycle.close_requested
            &&& final(app).outbox@.contains(Effect::ShowStartupReady)
            &&& final(app).outbox@.contains(Effect::ApplyPresentMode)
        },
        !(outcome is Ready) ==> {
            &&& final(app).surface == old(app).surface
            &&& final(app).browser.graphics_state == GraphicsState::Failed
            &&& final(app).lifecycle.close_requested
            &&& final(app).outbox@.len() == old(app).outbox@.len() + 2
            &&& final(app).outbox@.last() is ShowStartupError
        },
        final(app).workspace == old(app).workspace,
        final(app).items == old(app).items,
        final(app).browser.stored == old(app).browser.stored,
{
    if outcome is Ready {
        let n = old(app).outbox@.len() as int;
        assert(final(app).outbox@[n] == Effect::ApplyPresentMode);
        assert(final(app).outbox@[n + 1] == Effect::ShowStartupReady);
    }
}

/// Pasted text reaches the interface if there is one, and is drawn.
pub proof fn pasted_text_reaches_the_interface<P>(app: &mut App<P>, text: String)
    requires
        call_ensures(App::<P>::browser_clipboard_pasted, (app, text), ()),
    ensures
        old(app).surface is Some ==> final(app).outbox@ == old(app).outbox@.push(
            Effect::QueuePaste(text),
        ) && final(app).pacing.redraw_requested,
        old(app).surface is None ==> *final(app) == *old(app),
        final(app).workspace == old(app).workspace,
        final(app).editor == old(app).editor,
{
    if old(app).surface is Some {
        assert(final(app).outbox@ =~= old(app).outbox@.push(Effect::QueuePaste(text)));
    }
}

/// An event of the page reaches the operation it is named after.
pub proof fn events_reach_their_operation<P>(
    app: &mut App<P>,
    event: AppEvent,
    step: Option<SaveStep>,
)
    requires
        call_ensures(App::<P>::user_event, (app, event), step),
    ensures
        step is Some <==> event is BrowserProjectSaved,
        event is GraphicsInitializationFinished && event->GraphicsInitializationFinished_0 is Ready
            ==> final(app).surface == Some(event->GraphicsInitializationFinished_0->Ready_0),
        event is BrowserProjectsRestored && event->BrowserProjectsRestored_0 is Ok ==> final(app).browser.stored == event->BrowserProjectsRestored_0->Ok_0,
        event is BrowserProjectDeleted ==> !final(app).browser.deletes_pending@.contains(
            event->BrowserProjectDeleted_project_id,
        ),
        event is BrowserProjectLoaded ==> !final(app).tasks.cpu_pending@.contains(
            event->BrowserProjectLoaded_ticket.0,
        ),
        event is BrowserProjectSaved && event->BrowserProjectSaved_0.workspace
            == old(app).workspace_generation ==> !final(app).browser.saves_pending@.contains(
            event->BrowserProjectSaved_0.runtime_id,
        ),
        event is BrowserProjectSaved ==> (step == Some(SaveStep::Stale)
            <==> event->BrowserProjectSaved_0.workspace != old(app).workspace_generation),
        event is BrowserClipboardPasted && old(app).surface is Some ==> final(app).outbox@.last()
            == Effect::QueuePaste(event->BrowserClipboardPasted_0),
{
}

/// A session that could not be written is said to be so, in the words of the build.
pub proof fn unwritten_sessions_are_told<P>(app: &mut App<P>, reason: String)
    requires
        call_ensures(App::<P>::session_save_failed, (app, reason), ()),
    ensures
        final(app).outbox@.len() == old(app).outbox@.len() + 1,
        final(app).outbox@.last() is Notify,
        final(app).outbox@.last()->Notify_0.detail == reason,
        old(app).target == Target::Web ==> final(app).outbox@.last()->Notify_0.kind
            == NoticeKind::BrowserSessionSaveFailed,
        old(app).target == Target::Native ==> final(app).outbox@.last()->Notify_0.kind
            == NoticeKind::SessionSaveFailed,
        final(app).workspace == old(app).workspace,
{
}

/// The session of a page keeps the record of the open project, if it has one.
pub proof fn page_sessions_keep_the_open_record<P>(app: &App<P>, id: Option<u64>)
    requires
        call_ensures(App::<P>::session_record, (app,), id),
    ensures
        app.workspace.active() is None ==> id is None,
        app.workspace.active() is Some && app.workspace.active()->0.persistence is Native ==> id
            is None,
        app.workspace.active() is Some && app.workspace.active()->0.persistence is BrowserRecord
            ==> id == Some(app.workspace.active()->0.persistence->BrowserRecord_0),
{
}

/// A project is closed after its own save only, and only if that succeeded.
pub proof fn only_saved_projects_close<P>(app: &App<P>, runtime_id: u32, saved: bool, yes: bool)
    requires
        call_ensures(App::<P>::closes_after, (app, runtime_id, saved), yes),
    ensures
        yes ==> saved && app.editor.pending_close_project == Some(runtime_id),
        saved && app.editor.pending_close_project == Some(runtime_id) ==> yes,
{
}

} // verus!
