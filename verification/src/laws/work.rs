//! Work in the background, and what the scene is told of changes.
use crate::app::{cancelled_reports, App};
use crate::editor::EditorState;
use crate::effects::Effect;
use crate::language::Target;
use crate::model::SceneEntityId;
use crate::tasks::{
    loads_hold, BackgroundTaskState, BackgroundTaskTicket, PendingLoad, ProgressSnapshot,
    ReportedTask, StatusBarMessage,
};
use vstd::prelude::*;

verus! {

/// A task that begins has a ticket of its own, is at its first stage, and disturbs no
/// other task.
pub proof fn tasks_have_their_own_ticket<P>(
    state: &mut BackgroundTaskState<P>,
    ticket: BackgroundTaskTicket,
    id: u64,
)
    requires
        call_ensures(BackgroundTaskState::<P>::begin, (state,), ticket),
    ensures
        !old(state).cpu_pending@.contains(ticket.0),
        !old(state).awaiting_apply@.contains(ticket.0),
        !old(state).gpu_pending@.contains(ticket.0),
        final(state).cpu_pending@.contains(ticket.0),
        id != ticket.0 ==> (final(state).cpu_pending@.contains(id)
            <==> old(state).cpu_pending@.contains(id)),
        final(state).awaiting_apply == old(state).awaiting_apply,
        final(state).gpu_pending == old(state).gpu_pending,
        final(state).reported == old(state).reported,
{
    let k = choose|k: nat| #[trigger]
        old(state).first_free(k) && ticket.0 == crate::tasks::nth_ticket(
            old(state).next_ticket,
            k,
        ) && final(state).next_ticket == crate::tasks::nth_ticket(old(state).next_ticket, k + 1);
    assert(!old(state).in_flight(ticket.0));
}

/// Work that ended is no longer at its first stage: it waits for its upload if it has
/// one, and is done otherwise. Nothing is shown of it any more, and no other task
/// changes.
pub proof fn ended_work_moves_on<P>(
    state: &mut BackgroundTaskState<P>,
    ticket: BackgroundTaskTicket,
    needs_gpu: bool,
    known: bool,
    id: u64,
    r: int,
)
    requires
        call_ensures(BackgroundTaskState::<P>::settle_cpu, (state, ticket, needs_gpu), known),
    ensures
        known <==> old(state).cpu_pending@.contains(ticket.0),
        !final(state).cpu_pending@.contains(ticket.0),
        known && needs_gpu ==> final(state).gpu_pending@.contains(ticket.0),
        !needs_gpu || !known ==> final(state).gpu_pending@ == old(state).gpu_pending@,
        id != ticket.0 ==> (final(state).cpu_pending@.contains(id)
            <==> old(state).cpu_pending@.contains(id)),
        id != ticket.0 ==> (final(state).gpu_pending@.contains(id)
            <==> old(state).gpu_pending@.contains(id)),
        id != ticket.0 ==> (final(state).awaiting_apply@.contains(id)
            <==> old(state).awaiting_apply@.contains(id)),
        0 <= r < final(state).reported@.len() ==> final(state).reported@[r].ticket != ticket
            && old(state).reported@.contains(final(state).reported@[r]),
        0 <= r < old(state).reported@.len() && old(state).reported@[r].ticket != ticket ==> final(state).reported@.contains(old(state).reported@[r]),
{
    lemma_reports(old(state).reported@, ticket, r);
}

/// What is reported of other tasks stays, and nothing of this one.
proof fn lemma_reports<P>(reports: Seq<ReportedTask<P>>, ticket: BackgroundTaskTicket, r: int)
    ensures
        ({
            let kept = BackgroundTaskState::<P>::reports_without(reports, ticket);
            &&& 0 <= r < kept.len() ==> kept[r].ticket != ticket && reports.contains(kept[r])
            &&& 0 <= r < reports.len() && reports[r].ticket != ticket ==> kept.contains(reports[r])
        }),
{
    let keep = |task: ReportedTask<P>| task.ticket != ticket;
    let kept = reports.filter(keep);
    if 0 <= r < kept.len() {
        reports.lemma_filter_pred(keep, r);
        lemma_kept_from(reports, keep, r);
    }
    if 0 <= r < reports.len() && reports[r].ticket != ticket {
        reports.lemma_filter_contains(keep, r);
    }
}

proof fn lemma_kept_from<A>(list: Seq<A>, keep: spec_fn(A) -> bool, k: int)
    requires
        0 <= k < list.filter(keep).len(),
    ensures
        list.contains(list.filter(keep)[k]),
    decreases list.len(),
{
    reveal(Seq::filter);
    if list.len() > 0 {
        let rest = list.drop_last();
        let kept = rest.filter(keep);
        if k < kept.len() {
            lemma_kept_from(rest, keep, k);
            let i = choose|i: int| 0 <= i < rest.len() && rest[i] == kept[k];
            assert(list[i] == kept[k]);
        } else {
            assert(list[list.len() - 1] == list.filter(keep)[k]);
        }
    }
}

/// A task that is given up is nowhere any more, and no other task changes.
pub proof fn cancelled_tasks_are_gone<P>(
    app: &mut App<P>,
    ticket: BackgroundTaskTicket,
    known: bool,
    id: u64,
    r: int,
)
    requires
        call_ensures(App::<P>::cancel_background_task, (app, ticket), known),
    ensures
        known <==> old(app).tasks.cpu_pending@.contains(ticket.0)
            || old(app).tasks.awaiting_apply@.contains(ticket.0)
            || old(app).tasks.gpu_pending@.contains(ticket.0),
        !final(app).tasks.cpu_pending@.contains(ticket.0),
        !final(app).tasks.awaiting_apply@.contains(ticket.0),
        !final(app).tasks.gpu_pending@.contains(ticket.0),
        id != ticket.0 ==> (final(app).tasks.cpu_pending@.contains(id)
            <==> old(app).tasks.cpu_pending@.contains(id)),
        id != ticket.0 ==> (final(app).tasks.awaiting_apply@.contains(id)
            <==> old(app).tasks.awaiting_apply@.contains(id)),
        id != ticket.0 ==> (final(app).tasks.gpu_pending@.contains(id)
            <==> old(app).tasks.gpu_pending@.contains(id)),
        0 <= r < final(app).tasks.reported@.len() ==> final(app).tasks.reported@[r].ticket
            != ticket,
        0 <= r < old(app).tasks.reported@.len() && old(app).tasks.reported@[r].ticket != ticket
            ==> final(app).tasks.reported@.contains(old(app).tasks.reported@[r]),
        final(app).workspace == old(app).workspace,
        final(app).items == old(app).items,
        final(app).outbox == old(app).outbox,
{
    lemma_reports(old(app).tasks.reported@, ticket, r);
}

/// The pointer shows that work goes on exactly while some task is at some stage.
pub proof fn the_pointer_shows_work<P>(app: &mut App<P>, id: u64)
    requires
        call_ensures(App::<P>::update_background_task_cursor, (app,), ()),
    ensures
        old(app).tasks.cpu_pending@.contains(id) || old(app).tasks.awaiting_apply@.contains(id)
            || old(app).tasks.gpu_pending@.contains(id)
            ==> final(app).editor.flags.background_busy,
        (forall|i: u64|
            !(#[trigger] old(app).tasks.cpu_pending@.contains(i))
                && !old(app).tasks.awaiting_apply@.contains(i)
                && !old(app).tasks.gpu_pending@.contains(i))
            ==> !final(app).editor.flags.background_busy,
        final(app).tasks == old(app).tasks,
{
    if old(app).tasks.cpu_pending@.contains(id) || old(app).tasks.awaiting_apply@.contains(id)
        || old(app).tasks.gpu_pending@.contains(id) {
        assert(old(app).tasks.in_flight(id));
    }
}

/// A load that begins is seen: the pointer shows it and a frame is asked for. One with
/// a label is shown by the status bar, behind those that began before.
pub proof fn begun_tasks_are_seen<P>(
    app: &mut App<P>,
    label: String,
    progress: P,
    ticket: BackgroundTaskTicket,
    r: int,
)
    requires
        call_ensures(App::<P>::begin_reported_task, (app, label, progress), ticket),
    ensures
        final(app).tasks.cpu_pending@.contains(ticket.0),
        !old(app).tasks.cpu_pending@.contains(ticket.0),
        final(app).pacing.redraw_requested,
        final(app).editor.flags.background_busy,
        final(app).tasks.reported@.len() == old(app).tasks.reported@.len() + 1,
        final(app).tasks.reported@.last().ticket == ticket,
        final(app).tasks.reported@.last().label == label,
        final(app).tasks.reported@.last().progress == progress,
        0 <= r < old(app).tasks.reported@.len() ==> final(app).tasks.reported@[r]
            == old(app).tasks.reported@[r],
        final(app).workspace == old(app).workspace,
        final(app).outbox == old(app).outbox,
{
    assert(final(app).tasks.in_flight(ticket.0));
    assert(!old(app).tasks.in_flight(ticket.0));
}

/// The status bar shows the task that was reported first, with its own label and
/// progress, and a frame is asked for while it does.
pub proof fn the_bar_shows_the_first_task<P, F, U>(
    app: &mut App<P>,
    snapshot: Option<ProgressSnapshot<F, U>>,
    message: Option<StatusBarMessage<F, U>>,
)
    requires
        call_ensures(App::<P>::refresh_status_message::<F, U>, (app, snapshot), message),
    ensures
        message is None <==> old(app).tasks.reported@.len() == 0,
        message is Some ==> message->0.text@ == old(app).tasks.reported@[0].label@,
        message is Some && snapshot is Some ==> message->0.progress == Some(snapshot->0.fraction)
            && message->0.units == snapshot->0.units,
        message is Some && snapshot is None ==> message->0.progress is None
            && message->0.units is None,
        message is Some ==> final(app).pacing.redraw_requested,
        message is None ==> final(app).pacing == old(app).pacing,
        final(app).tasks == old(app).tasks,
{
}

/// All uploads end together, and no other stage is touched.
pub proof fn uploads_end_together<P>(app: &mut App<P>, id: u64)
    requires
        call_ensures(App::<P>::finish_topology_load, (app,), ()),
    ensures
        !final(app).tasks.gpu_pending@.contains(id),
        final(app).tasks.cpu_pending == old(app).tasks.cpu_pending,
        final(app).tasks.awaiting_apply == old(app).tasks.awaiting_apply,
        final(app).tasks.reported == old(app).tasks.reported,
        final(app).workspace == old(app).workspace,
{
}

/// Of the loads that are given up nothing goes on; all other work does. The console
/// is told of those it has a report of.
pub proof fn other_work_survives_cancelled_loads<P>(
    app: &mut App<P>,
    loads: &Vec<PendingLoad>,
    i: int,
    id: u64,
)
    requires
        call_ensures(App::<P>::cancel_loads, (app, loads), ()),
    ensures
        0 <= i < loads@.len() ==> !final(app).tasks.cpu_pending@.contains(loads@[i].ticket.0)
            && !final(app).tasks.awaiting_apply@.contains(loads@[i].ticket.0)
            && !final(app).tasks.gpu_pending@.contains(loads@[i].ticket.0),
        (forall|k: int| 0 <= k < loads@.len() ==> (#[trigger] loads@[k]).ticket.0 != id) ==> (
        final(app).tasks.cpu_pending@.contains(id) <==> old(app).tasks.cpu_pending@.contains(id))
            && (final(app).tasks.gpu_pending@.contains(id)
            <==> old(app).tasks.gpu_pending@.contains(id)) && (
        final(app).tasks.awaiting_apply@.contains(id)
            <==> old(app).tasks.awaiting_apply@.contains(id)),
        0 <= i < loads@.len() && loads@[i].has_report ==> final(app).outbox@.contains(
            Effect::CancelLoadReport(loads@[i].ticket.0),
        ),
        final(app).outbox@.take(old(app).outbox@.len() as int) == old(app).outbox@,
        (forall|k: int| 0 <= k < loads@.len() ==> !(#[trigger] loads@[k]).has_report) ==> final(app).outbox@ == old(app).outbox@,
        final(app).workspace == old(app).workspace,
        final(app).items == old(app).items,
{
    if 0 <= i < loads@.len() {
        assert(loads_hold(loads@, loads@[i].ticket.0));
        lemma_told(loads@, i);
        if loads@[i].has_report {
            let told = cancelled_reports(loads@);
            let effect = Effect::CancelLoadReport(loads@[i].ticket.0);
            let k = choose|k: int| 0 <= k < told.len() && told[k] == effect;
            assert(final(app).outbox@[old(app).outbox@.len() + k] == effect);
        }
    }
    assert(final(app).outbox@.take(old(app).outbox@.len() as int) =~= old(app).outbox@);
    if forall|k: int| 0 <= k < loads@.len() ==> !(#[trigger] loads@[k]).has_report {
        lemma_none_told(loads@);
        assert(final(app).outbox@ =~= old(app).outbox@);
    }
}

proof fn lemma_told(loads: Seq<PendingLoad>, i: int)
    requires
        0 <= i < loads.len(),
    ensures
        loads[i].has_report ==> cancelled_reports(loads).contains(
            Effect::CancelLoadReport(loads[i].ticket.0),
        ),
    decreases loads.len(),
{
    if loads[i].has_report {
        let rest = loads.drop_last();
        let told = cancelled_reports(loads);
        let effect = Effect::CancelLoadReport(loads[i].ticket.0);
        if i < rest.len() {
            lemma_told(rest, i);
            let before = cancelled_reports(rest);
            let k = choose|k: int| 0 <= k < before.len() && before[k] == effect;
            assert(told[k] == effect);
        } else {
            assert(told[told.len() - 1] == effect);
        }
    }
}

proof fn lemma_none_told(loads: Seq<PendingLoad>)
    requires
        forall|k: int| 0 <= k < loads.len() ==> !(#[trigger] loads[k]).has_report,
    ensures
        cancelled_reports(loads) == Seq::<Effect>::empty(),
    decreases loads.len(),
{
    if loads.len() > 0 {
        assert(!loads[loads.len() - 1].has_report);
        lemma_none_told(loads.drop_last());
    }
}

/// Once the geometry changed, exactly those objects are hidden that the active project
/// hides; what else is hidden stays so. The renderer is told, if there is one, and a
/// frame is asked for.
pub proof fn the_scene_hides_what_the_project_hides<P>(app: &mut App<P>, entity: SceneEntityId)
    requires
        call_ensures(App::<P>::invalidate_geometry, (app,), ()),
    ensures
        entity is Object && old(app).workspace.active() is Some ==> (
        final(app).editor.hidden_handles@.contains(entity)
            <==> old(app).workspace.active()->0.document.hidden_objects@.contains(
            entity->Object_0,
        )),
        entity is Object && old(app).workspace.active() is None
            ==> !final(app).editor.hidden_handles@.contains(entity),
        !(entity is Object) ==> (final(app).editor.hidden_handles@.contains(entity)
            <==> old(app).editor.hidden_handles@.contains(entity)),
        final(app).pacing.redraw_requested,
        old(app).surface is Some ==> final(app).outbox@.len() > 0 && final(app).outbox@.last()
            == Effect::InvalidateGpuGeometry,
        old(app).caches.scene_document_key is None ==> final(app).caches.snap_index_dirty
            && final(app).outbox@[old(app).outbox@.len() as int] == Effect::RebuildSceneDocument,
        final(app).caches.scene_document_key is Some,
        final(app).workspace == old(app).workspace,
        final(app).items == old(app).items,
        final(app).editor.locked_layers == old(app).editor.locked_layers,
        final(app).editor.active_layer == old(app).editor.active_layer,
{
    if entity is Object {
        assert(entity == SceneEntityId::Object(entity->Object_0));
    }
}

/// Once the locks are expanded, exactly those objects are frozen that stand on a
/// locked layer or were frozen by name, and none that stands on a locked layer is
/// selected. Nothing else is frozen, released or deselected.
pub proof fn locks_freeze_their_objects<P>(
    app: &mut App<P>,
    key: u64,
    id: u64,
    entity: SceneEntityId,
)
    requires
        call_ensures(App::<P>::expand_layer_locks, (app, key), ()),
        old(app).caches.layer_lock_key is None,
        old(app).workspace.active() is Some,
    ensures
        ({
            let objects = old(app).workspace.active()->0.document.objects@;
            let locked = exists|i: int|
                0 <= i < objects.len() && (#[trigger] objects[i]).id == id
                    && old(app).editor.locked_layers@.contains(objects[i].layer);
            let handle = SceneEntityId::Object(id);
            &&& locked ==> final(app).editor.frozen_handles@.contains(handle)
                && !final(app).editor.selected_handles@.contains(handle)
            &&& !locked ==> (final(app).editor.selected_handles@.contains(handle)
                <==> old(app).editor.selected_handles@.contains(handle))
            &&& !locked && !old(app).editor.explicitly_frozen@.contains(handle)
                ==> !final(app).editor.frozen_handles@.contains(handle)
            &&& !locked && old(app).editor.explicitly_frozen@.contains(handle) ==> (
            final(app).editor.frozen_handles@.contains(handle)
                <==> old(app).editor.frozen_handles@.contains(handle))
        }),
        !(entity is Object) ==> (final(app).editor.frozen_handles@.contains(entity)
            <==> old(app).editor.frozen_handles@.contains(entity)),
        !(entity is Object) ==> (final(app).editor.selected_handles@.contains(entity)
            <==> old(app).editor.selected_handles@.contains(entity)),
        final(app).editor.hidden_handles == old(app).editor.hidden_handles,
        final(app).editor.locked_layers == old(app).editor.locked_layers,
        final(app).workspace == old(app).workspace,
{
}

/// The snap index is made again if it is out of date, and only then; afterwards it
/// is not.
pub proof fn the_snap_index_is_made_when_needed<P>(app: &mut App<P>)
    requires
        call_ensures(App::<P>::refresh_snap_index, (app,), ()),
    ensures
        !final(app).caches.snap_index_dirty,
        old(app).caches.snap_index_dirty ==> final(app).outbox@ == old(app).outbox@.push(
            Effect::RebuildSnapIndex,
        ),
        !old(app).caches.snap_index_dirty ==> final(app).outbox@ == old(app).outbox@,
        final(app).workspace == old(app).workspace,
{
}

/// Changes that only the overlay or the bounds show ask for a frame, and tell the
/// renderer, if there is one, which of them changed.
pub proof fn the_renderer_is_told_what_changed<P>(app: &mut App<P>)
    requires
        call_ensures(App::<P>::invalidate_overlay, (app,), ()),
    ensures
        final(app).pacing.redraw_requested,
        old(app).surface is Some ==> final(app).outbox@ == old(app).outbox@.push(
            Effect::InvalidateGpuOverlay,
        ),
        old(app).surface is None ==> final(app).outbox@ == old(app).outbox@,
        final(app).editor == old(app).editor,
        final(app).workspace == old(app).workspace,
{
    if old(app).surface is Some {
        assert(final(app).outbox@ =~= old(app).outbox@.push(Effect::InvalidateGpuOverlay));
    } else {
        assert(final(app).outbox@ =~= old(app).outbox@);
    }
}

/// Changed bounds ask for a frame and are told to the renderer, if there is one.
pub proof fn the_renderer_is_told_of_bounds<P>(app: &mut App<P>)
    requires
        call_ensures(App::<P>::invalidate_topology_bounds_and_redraw, (app,), ()),
    ensures
        final(app).pacing.redraw_requested,
        old(app).surface is Some ==> final(app).outbox@ == old(app).outbox@.push(
            Effect::InvalidateGpuBounds,
        ),
        old(app).surface is None ==> final(app).outbox@ == old(app).outbox@,
        final(app).editor == old(app).editor,
        final(app).workspace == old(app).workspace,
{
    if old(app).surface is Some {
        assert(final(app).outbox@ =~= old(app).outbox@.push(Effect::InvalidateGpuBounds));
    } else {
        assert(final(app).outbox@ =~= old(app).outbox@);
    }
}

/// Dropping what belongs to a project drops the selection, the open references, the
/// previews and the gestures; what is hidden, frozen, locked or set stays.
pub proof fn dropped_drafts_leave_nothing_begun<P>(app: &mut App<P>)
    requires
        call_ensures(App::<P>::clear_editor_transient_state, (app,), ()),
    ensures
        final(app).editor.selected_handles@ == Set::<SceneEntityId>::empty(),
        final(app).editor.selected_drill_holes@.len() == 0,
        final(app).editor.selected_tie_ins@.len() == 0,
        final(app).editor.active_layer is None,
        final(app).editor.active_drill_hole is None,
        final(app).editor.tie_anchor is None,
        final(app).editor.initiation_dialog is None,
        final(app).editor.active_tool == 0,
        final(app).editor.gizmo_drag_axis_index is None,
        final(app).editor.gizmo_drag_plane_index is None,
        final(app).editor.rotate_gizmo_drag_ring is None,
        !final(app).editor.flags.text_editing_enabled,
        !final(app).editor.flags.pending_move_delta,
        !final(app).editor.flags.rotate_preview_active,
        final(app).editor.flags.fly_mode_enabled == old(app).editor.flags.fly_mode_enabled,
        final(app).editor.flags.slice_preview_detached
            == old(app).editor.flags.slice_preview_detached,
        final(app).editor.flags.show_import == old(app).editor.flags.show_import,
        final(app).editor.flags.show_export == old(app).editor.flags.show_export,
        final(app).editor.flags.show_about == old(app).editor.flags.show_about,
        final(app).editor.flags.background_busy == old(app).editor.flags.background_busy,
        final(app).editor.hidden_handles == old(app).editor.hidden_handles,
        final(app).editor.frozen_handles == old(app).editor.frozen_handles,
        final(app).editor.explicitly_frozen == old(app).editor.explicitly_frozen,
        final(app).editor.translucent_handles == old(app).editor.translucent_handles,
        final(app).editor.locked_layers == old(app).editor.locked_layers,
        final(app).editor.preferences == old(app).editor.preferences,
        final(app).editor.language == old(app).editor.language,
        final(app).editor.pending_close_project == old(app).editor.pending_close_project,
        !final(app).gestures.drag && !final(app).gestures.move_session
            && !final(app).gestures.gizmo_drag && !final(app).gestures.selection_click
            && !final(app).gestures.collar_move_session && !final(app).gestures.collar_rotation
            && !final(app).gestures.collar_rotate_drag,
        final(app).workspace == old(app).workspace,
        final(app).items == old(app).items,
        old(app).editor.flags.pending_move_delta ==> final(app).outbox@.contains(
            Effect::RestoreMoveSession,
        ) && final(app).outbox@.contains(Effect::RestoreCollarSession),
        old(app).editor.flags.text_editing_enabled ==> final(app).outbox@.contains(
            Effect::CancelTextEdit,
        ),
        final(app).outbox@.last() == Effect::ClearProjectTransients,
{
    let n = old(app).outbox@.len() as int;
    if old(app).editor.flags.pending_move_delta {
        assert(final(app).outbox@[n + 1] == Effect::RestoreMoveSession);
        assert(final(app).outbox@[n + 2] == Effect::RestoreCollarSession);
        if old(app).editor.flags.text_editing_enabled {
            assert(final(app).outbox@[n + 3] == Effect::CancelTextEdit);
        }
    } else if old(app).editor.flags.text_editing_enabled {
        assert(final(app).outbox@[n + 1] == Effect::CancelTextEdit);
    }
}

/// The application begins with nothing: no window, project, item, load, task, gesture
/// or request, for the build it is made for and with the editor it is given.
pub proof fn the_application_begins_with_nothing<P>(
    target: Target,
    editor: EditorState,
    app: App<P>,
)
    requires
        call_ensures(App::<P>::default, (target, editor), app),
    ensures
        app.target == target,
        app.editor == editor,
        !app.window_open,
        app.surface is None,
        app.workspace.projects@.len() == 0,
        app.workspace.active_index is None,
        app.items.triangulations@.len() == 0,
        app.items.block_models@.len() == 0,
        app.items.drill_holes@.len() == 0,
        app.items.point_clouds@.len() == 0,
        app.items.rasters@.len() == 0,
        app.loads.all().len() == 0,
        app.tasks.reported@.len() == 0,
        app.tracked_project_paths@.len() == 0,
        !app.lifecycle.close_requested,
        !app.lifecycle.fatal_shutdown,
        !app.lifecycle.exit_after_pending_saves,
        !app.lifecycle.startup_dialog_dismissed,
        !app.lifecycle.project_replacement_after_save,
        app.lifecycle.window_focused,
        !app.pacing.redraw_requested,
        app.caches.scene_document_key is None,
        app.browser.stored@.len() == 0,
        app.browser.saves_pending@ == Set::<u32>::empty(),
        forall|id: u64| !(#[trigger] app.tasks.cpu_pending@.contains(id)),
{
}

} // verus!
