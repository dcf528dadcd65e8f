//! Sessions: what the application starts with, and what opening and switching
//! projects keeps and drops.
use crate::app::App;
use crate::config::{deduplicated, lemma_deduplicated, Config, Preferences};
use crate::content::Session;
use crate::editor::EditorState;
use crate::effects::{Effect, Notice, NoticeKind};
use crate::items::ProjectItems;
use crate::language::{LanguageChoice, Target};
use crate::model::SceneEntityId;
use crate::project::{Document, OpenProject, ProjectPath};
use crate::startup::{can_apply, read_or_default, Stored};
use vstd::prelude::*;

verus! {

/// A stored value that could be read is used; what is used in its place otherwise
/// is the default, and only what could not be read is worth a notice.
pub proof fn stored_values_are_used<T>(
    stored: Stored<T>,
    default: T,
    kind: NoticeKind,
    result: (T, Option<Notice>),
)
    requires
        call_ensures(read_or_default::<T>, (stored, default, kind), result),
    ensures
        stored is Found ==> result.0 == stored->Found_0 && result.1 is None,
        !(stored is Found) ==> result.0 == default,
        stored is Absent ==> result.1 is None,
        stored is Unreadable ==> result.1 is Some && result.1->0.kind == kind && result.1->0.detail
            == stored->Unreadable_0,
{
}

/// Every setting is in force as it is stored. The four that have a range are kept
/// in it.
pub proof fn settings_are_in_force<P>(
    app: &mut App<P>,
    config: &Config,
    workspaces: &Vec<u8>,
    resolves: &Vec<bool>,
)
    requires
        call_ensures(App::<P>::apply_config, (app, config, workspaces, resolves), ()),
    ensures
        final(app).editor.preferences.dark_mode == config.preferences.dark_mode,
        final(app).editor.preferences.show_console == config.preferences.show_console,
        final(app).editor.preferences.panel_chrome == config.preferences.panel_chrome,
        final(app).editor.preferences.show_world_axis_gizmo == config.preferences.show_world_axis_gizmo,
        final(app).editor.preferences.show_scale_bar == config.preferences.show_scale_bar,
        final(app).editor.preferences.renderer_background_color == config.preferences.renderer_background_color,
        final(app).editor.preferences.vsync_enabled == config.preferences.vsync_enabled,
        final(app).editor.preferences.show_block_model_boundary_highlights == config.preferences.show_block_model_boundary_highlights,
        final(app).editor.preferences.downscale_raster_previews == config.preferences.downscale_raster_previews,
        final(app).editor.preferences.frame_counter_enabled == config.preferences.frame_counter_enabled,
        final(app).editor.preferences.debug_surface_chunks == config.preferences.debug_surface_chunks,
        final(app).editor.preferences.debug_clip_planes == config.preferences.debug_clip_planes,
        final(app).editor.preferences.debug_point_cloud_chunks == config.preferences.debug_point_cloud_chunks,
        final(app).editor.preferences.plan_invert_vertical_look == config.preferences.plan_invert_vertical_look,
        final(app).editor.preferences.plan_invert_horizontal_look == config.preferences.plan_invert_horizontal_look,
        final(app).editor.preferences.plan_zoom_towards_cursor == config.preferences.plan_zoom_towards_cursor,
        final(app).editor.preferences.fly_invert_vertical_look == config.preferences.fly_invert_vertical_look,
        final(app).editor.preferences.fly_invert_horizontal_look == config.preferences.fly_invert_horizontal_look,
        5 <= config.preferences.snap_poll_rate <= 1000 ==> final(app).editor.preferences.snap_poll_rate
            == config.preferences.snap_poll_rate,
        config.preferences.snap_poll_rate < 5 ==> final(app).editor.preferences.snap_poll_rate == 5,
        config.preferences.snap_poll_rate > 1000 ==> final(app).editor.preferences.snap_poll_rate == 1000,
        20 <= config.preferences.frame_rate_cap <= 1000 ==> final(app).editor.preferences.frame_rate_cap
            == config.preferences.frame_rate_cap,
        config.preferences.frame_rate_cap < 20 ==> final(app).editor.preferences.frame_rate_cap == 20,
        config.preferences.frame_rate_cap > 1000 ==> final(app).editor.preferences.frame_rate_cap == 1000,
        20 <= config.preferences.resize_frame_rate_cap <= 1000 ==> final(app).editor.preferences.resize_frame_rate_cap
            == config.preferences.resize_frame_rate_cap,
        config.preferences.resize_frame_rate_cap < 20 ==> final(app).editor.preferences.resize_frame_rate_cap == 20,
        config.preferences.resize_frame_rate_cap > 1000 ==> final(app).editor.preferences.resize_frame_rate_cap == 1000,
        1 <= config.preferences.block_model_interaction_resolution_divisor <= 64 ==> final(app).editor.preferences.block_model_interaction_resolution_divisor
            == config.preferences.block_model_interaction_resolution_divisor,
        config.preferences.block_model_interaction_resolution_divisor < 1 ==> final(app).editor.preferences.block_model_interaction_resolution_divisor == 1,
        config.preferences.block_model_interaction_resolution_divisor > 64 ==> final(app).editor.preferences.block_model_interaction_resolution_divisor == 64,
{
}

/// The language in force is the stored one, but for one that a page has no letters
/// for, whose place English takes. A desktop has letters for all.
pub proof fn the_language_can_be_drawn<P>(
    app: &mut App<P>,
    config: &Config,
    workspaces: &Vec<u8>,
    resolves: &Vec<bool>,
)
    requires
        call_ensures(App::<P>::apply_config, (app, config, workspaces, resolves), ()),
    ensures
        old(app).target == Target::Native ==> final(app).editor.language == config.language,
        old(app).target == Target::Web && !(config.language is ChineseSimplified
            || config.language is Arabic || config.language is Farsi || config.language is Hindi
            || config.language is Japanese || config.language is Korean)
            ==> final(app).editor.language == config.language,
        old(app).target == Target::Web && (config.language is ChineseSimplified
            || config.language is Arabic || config.language is Farsi || config.language is Hindi
            || config.language is Japanese || config.language is Korean)
            ==> final(app).editor.language == LanguageChoice::English,
        final(app).outbox@.len() == old(app).outbox@.len() + 3,
        final(app).outbox@.take(old(app).outbox@.len() as int) == old(app).outbox@,
        final(app).outbox@[old(app).outbox@.len() as int] == Effect::RefreshAxisNames,
        final(app).outbox@[old(app).outbox@.len() + 1int] == Effect::SelectLanguage(
            final(app).editor.language,
        ),
        final(app).outbox@[old(app).outbox@.len() + 2int] == Effect::ConfigureCamera,
{
    assert(final(app).outbox@.take(old(app).outbox@.len() as int) =~= old(app).outbox@);
}

/// Every workspace can be reached, once; the first of the user's order is the one
/// that is shown, and those that the user arranged stand first, as arranged.
pub proof fn every_workspace_is_reachable<P>(
    app: &mut App<P>,
    config: &Config,
    workspaces: &Vec<u8>,
    resolves: &Vec<bool>,
    w: u8,
    i: int,
)
    requires
        call_ensures(App::<P>::apply_config, (app, config, workspaces, resolves), ()),
        workspaces@.len() > 0,
    ensures
        final(app).editor.workspace_order@.no_duplicates(),
        final(app).editor.workspace_order@.contains(w) <==> config.workspace_order@.contains(w)
            || workspaces@.contains(w),
        final(app).editor.workspace_order@.len() > 0,
        final(app).editor.active_workspace == Some(final(app).editor.workspace_order@[0]),
        config.workspace_order@.no_duplicates() && 0 <= i < config.workspace_order@.len()
            ==> final(app).editor.workspace_order@[i] == config.workspace_order@[i],
        config.workspace_order@.len() == 0 && workspaces@.no_duplicates()
            ==> final(app).editor.workspace_order@ == workspaces@,
{
    let list = config.workspace_order@ + workspaces@;
    lemma_deduplicated(list);
    if config.workspace_order@.contains(w) {
        let k = choose|k: int|
            0 <= k < config.workspace_order@.len() && config.workspace_order@[k] == w;
        assert(list[k] == w);
        assert(list.contains(w));
    }
    if workspaces@.contains(w) {
        let k = choose|k: int| 0 <= k < workspaces@.len() && workspaces@[k] == w;
        assert(list[config.workspace_order@.len() + k] == w);
        assert(list.contains(w));
    }
    if list.contains(w) {
        let k = choose|k: int| 0 <= k < list.len() && list[k] == w;
        if k < config.workspace_order@.len() {
            assert(config.workspace_order@[k] == w);
        } else {
            assert(workspaces@[k - config.workspace_order@.len()] == w);
        }
    }
    assert(deduplicated(list).contains(w) <==> list.contains(w));
    assert(list[list.len() - 1] == workspaces@.last());
    assert(list.contains(workspaces@.last()));
    assert(deduplicated(list).contains(workspaces@.last()));
    if config.workspace_order@.no_duplicates() && 0 <= i < config.workspace_order@.len() {
        crate::config::workspaces_stand_as_arranged(config.workspace_order@, workspaces@, i, 0);
    }
    if config.workspace_order@.len() == 0 && workspaces@.no_duplicates() {
        let order = deduplicated(list);
        assert(list =~= workspaces@ + Seq::<u8>::empty());
        assert forall|k: int| 0 <= k < workspaces@.len() implies k < order.len() && order[k]
            == workspaces@[k] by {
            crate::config::workspaces_stand_as_arranged(workspaces@, Seq::<u8>::empty(), k, 0);
        }
        if order.len() > workspaces@.len() {
            let extra = order[workspaces@.len() as int];
            assert(order.contains(extra));
            assert(list.contains(extra));
            let k = choose|k: int| 0 <= k < list.len() && list[k] == extra;
            assert(order[k] == order[workspaces@.len() as int]);
        }
        if workspaces@.len() > 0 {
            assert(order[workspaces@.len() - 1] == workspaces@[workspaces@.len() - 1]);
        }
        assert(order =~= workspaces@);
    }
}

/// A system of coordinates is in use only if it is defined, and the stored one is
/// used if it is. The delay products are the stored ones, and the first is at hand.
pub proof fn what_is_in_use_is_defined<P>(
    app: &mut App<P>,
    config: &Config,
    workspaces: &Vec<u8>,
    resolves: &Vec<bool>,
)
    requires
        call_ensures(App::<P>::apply_config, (app, config, workspaces, resolves), ()),
    ensures
        final(app).editor.local_system is Some ==> config.mine_coordinate_system is Some && final(app).editor.local_system->0@ == config.mine_coordinate_system->0@,
        final(app).editor.local_system is Some <==> config.mine_coordinate_system is Some
            && exists|d: int|
            0 <= d < final(app).editor.coordinate_systems@.len() && (#[trigger] final(app).editor.coordinate_systems@[d]).name@ == config.mine_coordinate_system->0@,
        final(app).editor.delay_products@ == config.delay_products@,
        final(app).editor.next_delay_product_id == config.delay_products@.len(),
        config.delay_products@.len() == 0 ==> final(app).editor.active_delay_product is None,
        config.delay_products@.len() > 0 ==> final(app).editor.active_delay_product == Some(
            config.delay_products@[0],
        ),
{
}

/// Putting settings in force touches nothing else.
pub proof fn settings_leave_the_work_alone<P>(
    app: &mut App<P>,
    config: &Config,
    workspaces: &Vec<u8>,
    resolves: &Vec<bool>,
)
    requires
        call_ensures(App::<P>::apply_config, (app, config, workspaces, resolves), ()),
    ensures
        final(app).editor.selected_handles == old(app).editor.selected_handles,
        final(app).editor.hidden_handles == old(app).editor.hidden_handles,
        final(app).editor.explicitly_frozen == old(app).editor.explicitly_frozen,
        final(app).editor.frozen_handles == old(app).editor.frozen_handles,
        final(app).editor.translucent_handles == old(app).editor.translucent_handles,
        final(app).editor.locked_layers == old(app).editor.locked_layers,
        final(app).editor.active_layer == old(app).editor.active_layer,
        final(app).editor.active_drill_hole == old(app).editor.active_drill_hole,
        final(app).editor.tie_anchor == old(app).editor.tie_anchor,
        final(app).editor.selected_drill_holes == old(app).editor.selected_drill_holes,
        final(app).editor.selected_tie_ins == old(app).editor.selected_tie_ins,
        final(app).editor.initiation_dialog == old(app).editor.initiation_dialog,
        final(app).editor.active_tool == old(app).editor.active_tool,
        final(app).editor.gizmo_drag_axis_index == old(app).editor.gizmo_drag_axis_index,
        final(app).editor.gizmo_drag_plane_index == old(app).editor.gizmo_drag_plane_index,
        final(app).editor.rotate_gizmo_drag_ring == old(app).editor.rotate_gizmo_drag_ring,
        final(app).editor.pending_close_project == old(app).editor.pending_close_project,
        final(app).editor.flags == old(app).editor.flags,
        final(app).target == old(app).target,
        final(app).lifecycle == old(app).lifecycle,
        final(app).pacing == old(app).pacing,
        final(app).window_open == old(app).window_open,
        final(app).surface == old(app).surface,
        final(app).slice_window_open == old(app).slice_window_open,
        final(app).workspace == old(app).workspace,
        final(app).workspace_generation == old(app).workspace_generation,
        final(app).tracked_project_paths == old(app).tracked_project_paths,
        final(app).items == old(app).items,
        final(app).loads == old(app).loads,
        final(app).tasks == old(app).tasks,
        final(app).caches == old(app).caches,
        final(app).gestures == old(app).gestures,
        final(app).gesture_log == old(app).gesture_log,
        final(app).browser == old(app).browser,
{
}

/// Opening a project puts its path last on the list. Every other path stays on it,
/// and none comes to it.
pub proof fn the_opened_path_is_listed_last<P>(app: &mut App<P>, path: ProjectPath, p: ProjectPath)
    requires
        call_ensures(App::<P>::track_project_path, (app, path), ()),
    ensures
        final(app).tracked_project_paths@.len() > 0,
        final(app).tracked_project_paths@.last() == path,
        p.id != path.id ==> (final(app).tracked_project_paths@.contains(p) <==> old(app).tracked_project_paths@.contains(p)),
        final(app).workspace == old(app).workspace,
        final(app).items == old(app).items,
        final(app).editor == old(app).editor,
        final(app).outbox == old(app).outbox,
{
    let paths = old(app).tracked_project_paths@;
    let keep = |q: ProjectPath| q.id != path.id;
    let list = final(app).tracked_project_paths@;
    let kept = paths.filter(keep);
    if p.id != path.id {
        if paths.contains(p) {
            let i = choose|i: int| 0 <= i < paths.len() && paths[i] == p;
            paths.lemma_filter_contains(keep, i);
            let k = choose|k: int| 0 <= k < kept.len() && kept[k] == p;
            assert(list[k] == p);
        }
        if list.contains(p) {
            let k = choose|k: int| 0 <= k < list.len() && list[k] == p;
            assert(kept[k] == p);
            lemma_filter_from(paths, keep, k);
        }
    }
}

proof fn lemma_filter_from<A>(list: Seq<A>, keep: spec_fn(A) -> bool, k: int)
    requires
        0 <= k < list.filter(keep).len(),
    ensures
        list.contains(list.filter(keep)[k]),
    decreases list.len(),
{
    reveal(Seq::filter);
    if list.len() > 0 {
        let rest = list.drop_last();
        let kept = rest.filter(keep);
        if k < kept.len() {
            lemma_filter_from(rest, keep, k);
            let i = choose|i: int| 0 <= i < rest.len() && rest[i] == kept[k];
            assert(list[i] == kept[k]);
        } else {
            assert(list[list.len() - 1] == list.filter(keep)[k]);
        }
    }
}

/// What a session keeps is taken back as it was: the paths in their order, if none
/// is on the list twice and the open project is the one opened last, or has no path.
pub proof fn sessions_are_resumed<P>(app: &App<P>, later: &mut App<P>, session: &Session)
    requires
        call_ensures(App::<P>::session, (app,), *session),
        call_ensures(App::<P>::load_session_projects, (later, session), ()),
        forall|i: int, j: int|
            0 <= i < j < app.tracked_project_paths@.len() ==> (
            #[trigger] app.tracked_project_paths@[i]).id != (
            #[trigger] app.tracked_project_paths@[j]).id,
        app.workspace.active() is Some && app.workspace.active()->0.path is Some
            ==> app.tracked_project_paths@.len() > 0 && app.tracked_project_paths@.last()
            == app.workspace.active()->0.path->0,
    ensures
        final(later).tracked_project_paths@ == app.tracked_project_paths@,
        session.project_paths@ == app.tracked_project_paths@,
        app.workspace.active() is Some ==> session.current_project_path
            == app.workspace.active()->0.path,
        app.workspace.active() is None ==> session.current_project_path is None,
        final(later).workspace == old(later).workspace,
        final(later).outbox == old(later).outbox,
{
    crate::content::a_kept_list_is_read_back(app.tracked_project_paths@);
}

/// The project that is put in is the only one and the active one, with everything
/// it brings, and nothing of the items, the selection, the previews or the running
/// loads of the one before is left.
pub proof fn a_new_project_takes_over<P>(app: &mut App<P>, project: OpenProject)
    requires
        call_ensures(App::<P>::set_active_project, (app, project), ()),
    ensures
        final(app).workspace.projects@.len() == 1,
        final(app).workspace.active_index == Some(0usize),
        final(app).workspace.projects@[0].runtime_id == 1,
        final(app).workspace.next_runtime_id == 2,
        final(app).workspace.projects@[0].id == project.id,
        final(app).workspace.projects@[0].name == project.name,
        final(app).workspace.projects@[0].path == project.path,
        final(app).workspace.projects@[0].document == project.document,
        final(app).workspace.projects@[0].folders == project.folders,
        final(app).workspace.projects@[0].persistence == project.persistence,
        final(app).workspace.projects@[0].unsaved == project.unsaved,
        final(app).workspace.projects@[0].dirty_layers == project.dirty_layers,
        final(app).workspace.projects@[0].savepoint_revision == project.savepoint_revision,
        final(app).items.triangulations@.len() == 0,
        final(app).items.block_models@.len() == 0,
        final(app).items.drill_holes@.len() == 0,
        final(app).items.point_clouds@.len() == 0,
        final(app).items.rasters@.len() == 0,
        final(app).items.active_triangulation is None,
        final(app).loads.all().len() == 0,
        final(app).editor.selected_handles@ == Set::<SceneEntityId>::empty(),
        final(app).editor.selected_drill_holes@.len() == 0,
        final(app).editor.selected_tie_ins@.len() == 0,
        final(app).editor.active_layer is None,
        final(app).editor.active_drill_hole is None,
        final(app).editor.tie_anchor is None,
        final(app).editor.initiation_dialog is None,
        final(app).editor.active_tool == 0,
        !final(app).editor.flags.pending_move_delta,
        !final(app).editor.flags.text_editing_enabled,
        !final(app).editor.flags.rotate_preview_active,
        final(app).editor.preferences == old(app).editor.preferences,
        final(app).editor.language == old(app).editor.language,
        final(app).editor.locked_layers == old(app).editor.locked_layers,
        final(app).workspace_generation != old(app).workspace_generation,
        final(app).lifecycle.startup_dialog_dismissed,
        final(app).lifecycle.close_requested == old(app).lifecycle.close_requested,
        final(app).lifecycle.exit_after_pending_saves
            == old(app).lifecycle.exit_after_pending_saves,
        final(app).pacing.redraw_requested,
        !final(app).gestures.drag && !final(app).gestures.move_session
            && !final(app).gestures.gizmo_drag && !final(app).gestures.selection_click
            && !final(app).gestures.collar_move_session && !final(app).gestures.collar_rotation
            && !final(app).gestures.collar_rotate_drag,
        final(app).caches.snap_index_dirty,
        final(app).caches.scene_document_key is Some,
        final(app).surface == old(app).surface,
        final(app).window_open == old(app).window_open,
        final(app).target == old(app).target,
        final(app).outbox@.last() == Effect::PersistSession,
        final(app).browser.stored == old(app).browser.stored,
        final(app).browser.deletes_pending == old(app).browser.deletes_pending,
{
    let generation = old(app).workspace_generation;
    assert(generation.wrapping_add(1) != generation);
}

/// On a desktop a project from disk is the one opened last; a project that was
/// never saved, or any on a page, leaves the list as it is.
pub proof fn projects_from_disk_are_listed<P>(app: &mut App<P>, project: OpenProject)
    requires
        call_ensures(App::<P>::set_active_project, (app, project), ()),
    ensures
        project.path is None || old(app).target == Target::Web ==> final(app).tracked_project_paths@ == old(app).tracked_project_paths@,
        project.path is Some && old(app).target == Target::Native ==> final(app).tracked_project_paths@.len() > 0 && final(app).tracked_project_paths@.last()
            == project.path->0,
        old(app).target == Target::Web ==> final(app).browser.saves_pending@ == Set::<u32>::empty(),
        old(app).target == Target::Native ==> final(app).browser.saves_pending
            == old(app).browser.saves_pending,
{
}

/// Exactly those objects are hidden in a new project that it hides itself, and what
/// is hidden besides objects stays hidden.
pub proof fn a_project_brings_its_hidden_objects<P>(
    app: &mut App<P>,
    project: OpenProject,
    entity: SceneEntityId,
)
    requires
        call_ensures(App::<P>::set_active_project, (app, project), ()),
    ensures
        entity is Object ==> (final(app).editor.hidden_handles@.contains(entity)
            <==> project.document.hidden_objects@.contains(entity->Object_0)),
        !(entity is Object) ==> (final(app).editor.hidden_handles@.contains(entity) <==> old(app).editor.hidden_handles@.contains(entity)),
{
    if entity is Object {
        assert(entity == SceneEntityId::Object(entity->Object_0));
    }
}

/// Dropping a project leaves no project, no item and no load behind, and lets the
/// scene be made anew; what the user chose and what is stored stays.
pub proof fn nothing_is_left_of_a_dropped_project<P>(app: &mut App<P>)
    requires
        call_ensures(App::<P>::clear_project_owned_data, (app,), ()),
    ensures
        final(app).workspace.projects@.len() == 0,
        final(app).workspace.active_index is None,
        final(app).items.triangulations@.len() == 0,
        final(app).items.block_models@.len() == 0,
        final(app).items.drill_holes@.len() == 0,
        final(app).items.point_clouds@.len() == 0,
        final(app).items.rasters@.len() == 0,
        final(app).loads.all().len() == 0,
        final(app).editor.selected_handles@ == Set::<SceneEntityId>::empty(),
        final(app).editor.active_layer is None,
        final(app).editor.active_tool == 0,
        final(app).editor.hidden_handles == old(app).editor.hidden_handles,
        final(app).editor.frozen_handles == old(app).editor.frozen_handles,
        final(app).editor.preferences == old(app).editor.preferences,
        final(app).workspace_generation != old(app).workspace_generation,
        final(app).tracked_project_paths == old(app).tracked_project_paths,
        final(app).lifecycle == old(app).lifecycle,
        final(app).caches.scene_document_key is None,
        final(app).pacing.redraw_requested,
        final(app).surface == old(app).surface,
        final(app).browser.stored == old(app).browser.stored,
        old(app).target == Target::Web ==> final(app).browser.saves_pending@ == Set::<u32>::empty(),
        old(app).target == Target::Native ==> final(app).browser.saves_pending
            == old(app).browser.saves_pending,
        final(app).outbox@.len() > old(app).outbox@.len(),
        final(app).outbox@[old(app).outbox@.len() as int] == (Effect::CancelJobs {
            keep_browser_saves: old(app).target == Target::Web,
        }),
{
    let generation = old(app).workspace_generation;
    assert(generation.wrapping_add(1) != generation);
}

/// Switching to another open project makes it the active one and keeps the tool in
/// hand; what was selected or begun in the other is dropped, and its document and
/// those of the others stay as they are.
pub proof fn switching_keeps_the_tool<P>(app: &mut App<P>, index: usize)
    requires
        call_ensures(App::<P>::activate_project_index, (app, index), ()),
    ensures
        final(app).workspace.active_index == Some(index),
        final(app).workspace.projects == old(app).workspace.projects,
        final(app).editor.active_tool == old(app).editor.active_tool,
        final(app).items == old(app).items,
        final(app).tracked_project_paths == old(app).tracked_project_paths,
        final(app).lifecycle == old(app).lifecycle,
        final(app).editor.hidden_handles == old(app).editor.hidden_handles,
        final(app).editor.preferences == old(app).editor.preferences,
        old(app).workspace.active_index == Some(index) ==> *final(app) == *old(app),
        old(app).workspace.active_index != Some(index) ==> {
            &&& final(app).editor.selected_handles@ == Set::<SceneEntityId>::empty()
            &&& final(app).editor.selected_drill_holes@.len() == 0
            &&& final(app).editor.active_layer is None
            &&& final(app).editor.active_drill_hole is None
            &&& final(app).editor.tie_anchor is None
            &&& !final(app).editor.flags.pending_move_delta
            &&& !final(app).editor.flags.text_editing_enabled
            &&& !final(app).gestures.drag
            &&& !final(app).gestures.move_session
            &&& final(app).pacing.redraw_requested
            &&& final(app).outbox@.contains(Effect::PersistSession)
            &&& final(app).outbox@.contains(
                Effect::ActivateHistory(old(app).workspace.projects@[index as int].runtime_id),
            )
        },
{
    if old(app).workspace.active_index != Some(index) {
        let before = old(app).outbox@;
        let first = App::<P>::transient_effects(old(app).editor.flags);
        let n = before.len() + first.len();
        assert(final(app).outbox@[n as int] == Effect::ActivateHistory(
            old(app).workspace.projects@[index as int].runtime_id,
        ));
        assert(final(app).outbox@[n + 1int] == Effect::PersistSession);
    }
}

/// Pointing at an object makes the first project that holds it the active one, and
/// changes nothing if none does.
pub proof fn pointing_switches_to_the_holder<P>(
    app: &mut App<P>,
    id: u64,
    found: bool,
    p: int,
    k: int,
)
    requires
        call_ensures(App::<P>::activate_project_for_object, (app, id), found),
    ensures
        0 <= p < old(app).workspace.projects@.len() && 0 <= k < old(app).workspace.projects@[p].document.objects@.len() && old(app).workspace.projects@[p].document.objects@[k].id == id ==> found && final(app).workspace.active_index is Some && final(app).workspace.active_index->0 <= p,
        !found ==> *final(app) == *old(app),
        found ==> exists|i: int, j: int|
            #![trigger old(app).workspace.projects@[i].document.objects@[j]]
            final(app).workspace.active_index == Some(i as usize) && 0 <= i < old(app).workspace.projects@.len() && 0 <= j < old(app).workspace.projects@[i].document.objects@.len() && old(app).workspace.projects@[i].document.objects@[j].id == id,
{
    let projects = old(app).workspace.projects@;
    if 0 <= p < projects.len() && 0 <= k < projects[p].document.objects@.len()
        && projects[p].document.objects@[k].id == id {
        crate::laws::project::lemma_object(projects[p].document.objects@, id);
        assert(projects[p].document.objects@[k].id == id);
    }
    if found {
        let i = choose|i: usize|
            #![trigger old(app).project_activated(i, final(app))]
            old(app).project_activated(i, final(app)) && i < projects.len()
                && crate::project::first_object(
                projects[i as int].document.objects@,
                id,
            ) is Some && forall|j: int|
                0 <= j < i ==> crate::project::first_object(
                    (#[trigger] projects[j]).document.objects@,
                    id,
                ) is None;
        crate::laws::project::lemma_object(projects[i as int].document.objects@, id);
    }
}

/// Pointing at a layer makes the first project that holds it the active one, and
/// changes nothing if none does.
pub proof fn layers_switch_to_the_holder<P>(
    app: &mut App<P>,
    id: u64,
    found: bool,
    p: int,
    k: int,
)
    requires
        call_ensures(App::<P>::activate_project_for_layer, (app, id), found),
    ensures
        0 <= p < old(app).workspace.projects@.len() && 0 <= k < old(app).workspace.projects@[p].document.layers@.len() && old(app).workspace.projects@[p].document.layers@[k].id == id ==> found && final(app).workspace.active_index is Some && final(app).workspace.active_index->0 <= p,
        !found ==> *final(app) == *old(app),
        found ==> exists|i: int, j: int|
            #![trigger old(app).workspace.projects@[i].document.layers@[j]]
            final(app).workspace.active_index == Some(i as usize) && 0 <= i < old(app).workspace.projects@.len() && 0 <= j < old(app).workspace.projects@[i].document.layers@.len() && old(app).workspace.projects@[i].document.layers@[j].id == id,
{
    let projects = old(app).workspace.projects@;
    if 0 <= p < projects.len() && 0 <= k < projects[p].document.layers@.len()
        && projects[p].document.layers@[k].id == id {
        crate::laws::project::lemma_layer(projects[p].document.layers@, id);
        assert(projects[p].document.layers@[k].id == id);
    }
    if found {
        let i = choose|i: usize|
            #![trigger old(app).project_activated(i, final(app))]
            old(app).project_activated(i, final(app)) && i < projects.len()
                && crate::project::first_layer(
                projects[i as int].document.layers@,
                id,
            ) is Some && forall|j: int|
                0 <= j < i ==> crate::project::first_layer(
                    (#[trigger] projects[j]).document.layers@,
                    id,
                ) is None;
        crate::laws::project::lemma_layer(projects[i as int].document.layers@, id);
    }
}

/// An editor begins with nothing selected, hidden, frozen, locked or open, with the
/// settings it is given.
pub proof fn an_editor_begins_with_nothing(
    preferences: Preferences,
    language: LanguageChoice,
    editor: EditorState,
)
    requires
        call_ensures(EditorState::new, (preferences, language), editor),
    ensures
        editor.preferences == preferences,
        editor.language == language,
        editor.selected_handles@ == Set::<SceneEntityId>::empty(),
        editor.hidden_handles@ == Set::<SceneEntityId>::empty(),
        editor.frozen_handles@ == Set::<SceneEntityId>::empty(),
        editor.explicitly_frozen@ == Set::<SceneEntityId>::empty(),
        editor.translucent_handles@ == Set::<SceneEntityId>::empty(),
        editor.locked_layers@ == Set::<u64>::empty(),
        editor.active_layer is None,
        editor.active_drill_hole is None,
        editor.tie_anchor is None,
        editor.active_tool == 0,
        editor.pending_close_project is None,
        editor.local_system is None,
        editor.active_workspace is None,
        editor.active_delay_product is None,
        editor.delay_products@.len() == 0,
        !editor.flags.show_import,
        !editor.flags.show_export,
        !editor.flags.show_about,
        !editor.flags.fly_mode_enabled,
        !editor.flags.text_editing_enabled,
        !editor.flags.pending_move_delta,
        !editor.flags.slice_preview_detached,
        !editor.flags.background_busy,
        !editor.flags.rotate_preview_active,
        !editor.flags.replace_project_confirm_open,
        !editor.flags.lossy_save_confirm_open,
{
}

/// On a page the application starts with the stored settings, or as it is without any,
/// with no project open and the stored ones on their way.
pub proof fn a_page_starts_with_its_settings<P>(
    editor: EditorState,
    config: Stored<Config>,
    workspaces: &Vec<u8>,
    resolves: &Vec<bool>,
    app: App<P>,
)
    requires
        call_ensures(App::<P>::web_new, (editor, config, workspaces, resolves), app),
    ensures
        app.target == Target::Web,
        app.browser.event_loop_proxy,
        app.workspace.projects@.len() == 0,
        app.workspace.active_index is None,
        app.tracked_project_paths@.len() == 0,
        app.surface is None,
        !app.window_open,
        !(config is Found) ==> app.editor == editor,
        config is Found ==> app.editor.preferences.dark_mode
            == config->Found_0.preferences.dark_mode && app.editor.preferences.vsync_enabled
            == config->Found_0.preferences.vsync_enabled && app.editor.hidden_handles
            == editor.hidden_handles,
        config is Found && config->Found_0.language is Arabic ==> app.editor.language
            == LanguageChoice::English,
        config is Found && config->Found_0.language is German ==> app.editor.language
            == LanguageChoice::German,
        app.outbox@[0] == Effect::InitializeBrowserStorage,
        app.outbox@.last() == Effect::LoadBrowserSession,
        app.outbox@[app.outbox@.len() - 2] == Effect::InstallBrowserGuards,
        config is Unreadable ==> app.outbox@.len() == 4 && app.outbox@[1] == Effect::Notify(
            Notice {
                kind: NoticeKind::BrowserPreferencesFailed,
                detail: config->Unreadable_0,
            },
        ),
        config is Absent ==> app.outbox@.len() == 3,
{
}

/// Settings can be applied exactly if there are workspaces, none of them twice, the
/// user's order holds no other, and it is told of each named system of coordinates
/// whether it resolves.
pub proof fn settings_need_their_workspaces(
    config: &Config,
    workspaces: &Vec<u8>,
    resolves: &Vec<bool>,
    yes: bool,
    i: int,
    j: int,
)
    requires
        call_ensures(can_apply, (config, workspaces, resolves), yes),
    ensures
        yes ==> workspaces@.len() > 0,
        yes && 0 <= i < j < workspaces@.len() ==> workspaces@[i] != workspaces@[j],
        yes && 0 <= i < config.workspace_order@.len() ==> workspaces@.contains(
            config.workspace_order@[i],
        ),
        config.coordinate_systems@.len() == 0 && yes ==> resolves@.len() == 0,
        config.coordinate_systems@.len() == 0 && resolves@.len() == 0 && workspaces@.len() == 1
            && config.workspace_order@.len() == 0 ==> yes,
{
    reveal(Seq::filter);
    if workspaces@.len() == 1 {
        assert(workspaces@.no_duplicates());
    }
}

/// The scene has something to show exactly if some project has, or some item is loaded.
pub proof fn the_scene_shows_projects_and_items<P>(
    app: &App<P>,
    p: int,
    document: bool,
    items: bool,
    yes: bool,
)
    requires
        call_ensures(App::<P>::scene_has_renderables, (app,), yes),
        call_ensures(ProjectItems::has_loaded_items, (&app.items,), items),
        0 <= p < app.workspace.projects@.len() ==> call_ensures(
            Document::holds_renderables,
            (&app.workspace.projects@[p].document,),
            document,
        ),
    ensures
        items ==> yes,
        0 <= p < app.workspace.projects@.len() && document ==> yes,
        app.workspace.projects@.len() == 0 ==> yes == items,
        app.workspace.projects@.len() == 1 && p == 0 ==> yes == (items || document),
{
}

/// Everything is shown if there is something to show it with.
pub proof fn the_view_is_fitted<P>(app: &mut App<P>)
    requires
        call_ensures(App::<P>::fit_view_to_extents, (app,), ()),
    ensures
        old(app).surface is Some ==> final(app).outbox@ == old(app).outbox@.push(Effect::FitView)
            && final(app).pacing.redraw_requested,
        old(app).surface is None ==> final(app).outbox@ == old(app).outbox@ && final(app).pacing
            == old(app).pacing,
        final(app).workspace == old(app).workspace,
{
    if old(app).surface is Some {
        assert(final(app).outbox@ =~= old(app).outbox@.push(Effect::FitView));
    } else {
        assert(final(app).outbox@ =~= old(app).outbox@);
    }
}

/// The application starts with the stored settings, or the fallback's where none
/// could be read, an empty drawing, no window yet, and the splash.
pub proof fn the_application_starts_afresh<P>(
    editor: EditorState,
    session: Stored<Session>,
    config: Stored<Config>,
    fallback: Config,
    workspaces: &Vec<u8>,
    resolves: &Vec<bool>,
    untitled: OpenProject,
    app: App<P>,
)
    requires
        call_ensures(
            App::<P>::new,
            (editor, session, config, fallback, workspaces, resolves, untitled),
            app,
        ),
    ensures
        app.target == Target::Native,
        config is Found ==> app.editor.language == config->Found_0.language,
        !(config is Found) ==> app.editor.language == fallback.language,
        config is Found ==> app.editor.preferences.dark_mode
            == config->Found_0.preferences.dark_mode,
        !(config is Found) ==> app.editor.preferences.dark_mode == fallback.preferences.dark_mode,
        app.workspace.projects@.len() == 1,
        app.workspace.active_index == Some(0usize),
        app.workspace.projects@[0].name == untitled.name,
        app.workspace.projects@[0].document == untitled.document,
        app.workspace.projects@[0].unsaved == untitled.unsaved,
        app.items.triangulations@.len() == 0,
        app.items.rasters@.len() == 0,
        !app.window_open,
        app.surface is None,
        !app.lifecycle.startup_dialog_dismissed,
        !(session is Found) && untitled.path is None ==> app.tracked_project_paths@.len() == 0,
        session is Found && untitled.path is None && session->Found_0.current_project_path is Some
            ==> app.tracked_project_paths@.len() > 0 && app.tracked_project_paths@.last()
            == session->Found_0.current_project_path->0,
        session is Unreadable ==> app.outbox@.len() > 0 && app.outbox@[0] == Effect::Notify(
            Notice {
                kind: NoticeKind::SessionLoadFailed,
                detail: session->Unreadable_0,
            },
        ),
        config is Unreadable && !(session is Unreadable) ==> app.outbox@.len() > 0
            && app.outbox@[0] == Effect::Notify(
            Notice {
                kind: NoticeKind::ConfigLoadFailed,
                detail: config->Unreadable_0,
            },
        ),
        app.outbox@.last() == Effect::PersistSession,
{
}

} // verus!
