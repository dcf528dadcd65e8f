//! Edits, what they need and what follows from them.
use incline_design::app::App;
use incline_design::config::Preferences;
use incline_design::edits::{Command, EditStep, StepEffects};
use incline_design::editor::{DatasetPart, EditorState};
use incline_design::effects::Effect;
use incline_design::language::{LanguageChoice, Target};
use incline_design::model::{
    ColorBits, DrillHoleDetail, ItemRef, ItemState, OpenItem, SceneEntityId, SectionKind,
    TriangulationDetail,
};
use incline_design::pacing::SurfaceSize;
use incline_design::project::{
    Document, Folders, Layer, ObjectRow, OpenProject, ProjectPersistence,
};

fn preferences() -> Preferences {
    Preferences {
        dark_mode: true,
        show_console: false,
        panel_chrome: 0,
        show_world_axis_gizmo: true,
        show_scale_bar: true,
        renderer_background_color: ColorBits { r: 0, g: 0, b: 0, a: 0 },
        snap_poll_rate: 60,
        vsync_enabled: true,
        frame_rate_cap: 144,
        resize_frame_rate_cap: 60,
        block_model_interaction_resolution_divisor: 4,
        show_block_model_boundary_highlights: false,
        downscale_raster_previews: true,
        frame_counter_enabled: false,
        debug_surface_chunks: false,
        debug_clip_planes: false,
        debug_point_cloud_chunks: false,
        plan_invert_vertical_look: false,
        plan_invert_horizontal_look: false,
        plan_zoom_towards_cursor: true,
        fly_invert_vertical_look: false,
        fly_invert_horizontal_look: false,
    }
}

fn app(target: Target) -> App<u8> {
    App::default(target, EditorState::new(preferences(), LanguageChoice::English))
}

fn layer(id: u64, name: &str, loaded: bool) -> Layer {
    Layer {
        id,
        name: name.to_string(),
        name_rank: id,
        loaded,
        folder: None,
        section: SectionKind::Designs,
    }
}

fn project(id: u64, name: &str) -> OpenProject {
    OpenProject {
        runtime_id: 0,
        id,
        path: None,
        name: name.to_string(),
        name_rank: id,
        path_rank: 0,
        persistence: ProjectPersistence::Native,
        lossy_save_warnings: Vec::new(),
        lossy_save_confirmed: false,
        unsaved: false,
        content_epoch: 0,
        savepoint_revision: 0,
        dirty_layers: Vec::new(),
        document: Document::new(),
        folders: Folders::new(),
    }
}


fn state(epoch: u64, saved_epoch: u64, loaded: bool) -> ItemState {
    ItemState {
        epoch,
        saved_epoch,
        loaded,
        deferred: false,
        style: 7,
        source_name: "source".to_string(),
        folder: None,
        section: SectionKind::Triangulations,
        summary: None,
    }
}

fn triangulation(id: u64, name: &str, rank: u64) -> OpenItem<TriangulationDetail> {
    OpenItem {
        id,
        name: name.to_string(),
        name_rank: rank,
        state: state(0, 0, true),
        detail: TriangulationDetail {
            raster_texture: None,
            color: ColorBits { r: 1, g: 2, b: 3, a: 4 },
        },
    }
}

fn drill_holes(id: u64) -> OpenItem<DrillHoleDetail> {
    OpenItem {
        id,
        name: "holes".to_string(),
        name_rank: id,
        state: state(0, 0, true),
        detail: DrillHoleDetail { holes: 3, fields: 2 },
    }
}

fn no_effects() -> StepEffects {
    StepEffects {
        unloaded_items: Vec::new(),
        document_changed: false,
        items_changed: false,
        membership_changed: false,
        block_model_decodes: Vec::new(),
    }
}

#[test]
fn references_to_missing_items_are_dropped() {
    let mut app = app(Target::Native);
    let mut open = project(1, "p");
    open.document.layers.push(layer(1, "in", true));
    open.document.layers.push(layer(2, "out", false));
    open.document.objects.push(ObjectRow { id: 10, layer: 1 });
    open.document.objects.push(ObjectRow { id: 20, layer: 2 });
    app.set_active_project(open);
    app.outbox.clear();
    app.items.triangulations.push(triangulation(5, "t", 1));
    app.items.active_triangulation = Some(6);
    app.items.drill_holes.push(drill_holes(3));
    let held = [SceneEntityId::Object(10), SceneEntityId::Triangulation(5)];
    let gone = [
        SceneEntityId::Object(20),
        SceneEntityId::Object(30),
        SceneEntityId::Triangulation(6),
        SceneEntityId::BlockModel(5),
        SceneEntityId::PointCloud(5),
        SceneEntityId::Raster(5),
        SceneEntityId::DrillHole(4),
    ];
    for entity in held.into_iter().chain(gone) {
        app.editor.selected_handles.insert(entity);
        app.editor.hidden_handles.insert(entity);
        app.editor.explicitly_frozen.insert(entity);
        app.editor.frozen_handles.insert(entity);
        app.editor.translucent_handles.insert(entity);
    }
    app.editor.active_layer = Some(2);
    app.editor.active_drill_hole = Some(4);
    app.editor.tie_anchor = Some(DatasetPart { dataset: 4, part: 0 });
    app.editor.initiation_dialog = Some(DatasetPart { dataset: 4, part: 0 });
    let kept = DatasetPart { dataset: 3, part: 1 };
    let lost = DatasetPart { dataset: 4, part: 1 };
    app.editor.selected_drill_holes = vec![lost, kept];
    app.editor.selected_tie_ins = vec![kept, lost, kept];

    app.drop_editor_references_to_missing_items();

    for handles in [
        &app.editor.selected_handles,
        &app.editor.hidden_handles,
        &app.editor.explicitly_frozen,
        &app.editor.frozen_handles,
        &app.editor.translucent_handles,
    ] {
        assert_eq!(handles.len(), 2);
        assert!(held.into_iter().all(|entity| handles.contains(entity)));
    }
    assert_eq!(app.editor.active_layer, None);
    assert_eq!(app.items.active_triangulation, None);
    assert_eq!(app.editor.active_drill_hole, None);
    assert_eq!(app.editor.tie_anchor, None);
    assert_eq!(app.editor.initiation_dialog, None);
    assert_eq!(app.editor.selected_drill_holes, vec![kept]);
    assert_eq!(app.editor.selected_tie_ins, vec![kept, kept]);
    assert_eq!(app.outbox, vec![Effect::EndTieChain]);
}

#[test]
fn references_to_held_items_stay() {
    let mut app = app(Target::Native);
    app.items.triangulations.push(triangulation(5, "t", 1));
    app.items.drill_holes.push(drill_holes(3));
    app.items.active_triangulation = Some(5);
    app.editor.active_drill_hole = Some(3);
    app.editor.tie_anchor = Some(DatasetPart { dataset: 3, part: 0 });
    app.drop_editor_references_to_missing_items();
    assert_eq!(app.items.active_triangulation, Some(5));
    assert_eq!(app.editor.active_drill_hole, Some(3));
    assert_eq!(app.editor.tie_anchor, Some(DatasetPart { dataset: 3, part: 0 }));
    assert!(app.outbox.is_empty());
}

#[test]
fn a_step_is_followed_up_in_order() {
    let mut app = app(Target::Native);
    app.set_active_project(project(1, "p"));
    app.surface = Some(SurfaceSize { width: 1, height: 1 });
    app.outbox.clear();
    app.workspace.projects[0].document.revision = 4;
    app.editor.tie_anchor = Some(DatasetPart { dataset: 4, part: 0 });
    app.pacing.redraw_requested = false;
    app.apply_step_effects(&StepEffects {
        unloaded_items: vec![ItemRef::Raster(1), ItemRef::BlockModel(2)],
        document_changed: true,
        items_changed: true,
        membership_changed: true,
        block_model_decodes: vec![2, 3],
    });
    assert_eq!(
        app.outbox,
        vec![
            Effect::ReleaseRuntime(ItemRef::Raster(1)),
            Effect::ReleaseRuntime(ItemRef::BlockModel(2)),
            Effect::EvictUnloadedItems,
            Effect::EvictUnloadedLayers,
            Effect::EndTieChain,
            Effect::RebuildSceneDocument,
            Effect::InvalidateGpuGeometry,
            Effect::InvalidateGpuBounds,
            Effect::InvalidateGpuOverlay,
            Effect::PersistSession,
            Effect::DecodeBlockModelValues(2),
            Effect::DecodeBlockModelValues(3),
        ]
    );
    assert!(app.pacing.redraw_requested);
}

#[test]
fn a_step_that_changed_nothing_only_sweeps() {
    let mut app = app(Target::Native);
    app.editor.selected_handles.insert(SceneEntityId::Raster(8));
    app.apply_step_effects(&no_effects());
    assert_eq!(app.outbox, vec![Effect::EvictUnloadedItems, Effect::EvictUnloadedLayers]);
    assert_eq!(app.editor.selected_handles.len(), 0);
    assert!(app.pacing.redraw_requested);
}

#[test]
fn edits_wait_for_what_is_on_disk() {
    let mut app = app(Target::Native);
    assert_eq!(app.execute_edit(&vec![], &vec![]), EditStep::NoProject);
    let mut open = project(1, "p");
    open.document.deferred_layers.push(5);
    app.set_active_project(open);
    app.items.triangulations.push(triangulation(9, "t", 0));
    app.items.triangulations[0].state.deferred = true;
    let waiting = ItemRef::Triangulation(9);
    assert_eq!(app.execute_edit(&vec![4, 5], &vec![waiting]), EditStep::RestoreLayers);
    assert_eq!(
        app.execute_edit(&vec![4], &vec![ItemRef::Raster(9), waiting]),
        EditStep::RestoreItems
    );
    assert_eq!(app.execute_edit(&vec![4], &vec![]), EditStep::Apply { continuing: false });
    app.set_ui_pointer_gesture_active(true);
    assert_eq!(app.execute_edit(&vec![], &vec![]), EditStep::Apply { continuing: true });
}

#[test]
fn style_edits_that_change_nothing_are_none() {
    let mut app = app(Target::Native);
    app.items.triangulations.push(triangulation(9, "t", 0));
    let item = ItemRef::Triangulation(9);
    assert_eq!(app.item_style(item), Some(7));
    assert_eq!(app.item_style(ItemRef::BlockModel(9)), None);
    assert_eq!(app.set_item_style(item, 7), None);
    assert_eq!(
        app.set_item_style(item, 8),
        Some(Command::SetItemStyle { item, before: 7, after: 8 })
    );
    assert_eq!(app.set_item_style(ItemRef::Raster(9), 8), None);
    assert_eq!(
        app.item_style_command(item, |style| style + 2),
        Some(Command::SetItemStyle { item, before: 7, after: 9 })
    );
    assert_eq!(app.item_style_command(item, |style| style), None);
    assert_eq!(app.delete_project_item(item), Some(Command::DeleteItem { item }));
    assert_eq!(app.delete_project_item(ItemRef::Raster(1)), None);
}

#[test]
fn a_gesture_writes_one_line() {
    let mut app = app(Target::Native);
    app.log_when_gesture_ends("now".to_string());
    app.set_ui_pointer_gesture_active(true);
    app.log_when_gesture_ends("1".to_string());
    app.log_when_gesture_ends("2".to_string());
    assert_eq!(app.outbox, vec![Effect::Log("now".to_string())]);
    app.set_ui_pointer_gesture_active(false);
    assert_eq!(
        app.outbox,
        vec![
            Effect::Log("now".to_string()),
            Effect::EndHistoryInteraction,
            Effect::Log("2".to_string()),
        ]
    );
    app.set_ui_pointer_gesture_active(true);
    app.set_ui_pointer_gesture_active(false);
    assert_eq!(app.outbox.len(), 4);
    assert_eq!(app.outbox[3], Effect::EndHistoryInteraction);
}

#[test]
fn a_gesture_reports_each_kind_once() {
    let mut app = app(Target::Native);
    assert!(app.should_report_to_console(1));
    assert!(app.should_report_to_console(1));
    app.set_ui_pointer_gesture_active(true);
    assert!(app.should_report_to_console(1));
    assert!(!app.should_report_to_console(1));
    assert!(app.should_report_to_console(2));
    app.set_ui_pointer_gesture_active(false);
    app.set_ui_pointer_gesture_active(true);
    assert!(app.should_report_to_console(1));
}

#[test]
fn every_change_is_unsaved_work() {
    let mut app = app(Target::Native);
    assert!(!app.project_content_is_dirty(1));
    app.set_active_project(project(1, "p"));
    assert!(!app.project_content_is_dirty(1));
    app.touch_active_project_content();
    assert_eq!(app.active_project_content_epoch(), 1);
    assert!(app.project_content_is_dirty(1));
    assert!(!app.project_content_is_dirty(2));
    app.mark_all_project_content_saved();
    assert!(!app.project_content_is_dirty(1));
    app.items.triangulations.push(triangulation(3, "t", 0));
    assert!(app.project_content_is_dirty(1));
    app.mark_all_project_content_saved();
    assert!(!app.project_content_is_dirty(1));
    app.items.triangulations[0].state.epoch += 1;
    assert!(app.project_content_is_dirty(1));
    app.mark_all_project_content_saved();
    app.items.triangulations.clear();
    assert!(app.project_content_is_dirty(1));
}

#[test]
fn what_changes_while_a_save_runs_stays_dirty() {
    let mut app = app(Target::Native);
    app.set_active_project(project(1, "p"));
    app.items.triangulations.push(triangulation(3, "a", 0));
    app.items.triangulations.push(triangulation(4, "b", 0));
    app.items.triangulations[0].state.epoch = 5;
    app.items.triangulations[1].state.epoch = 6;
    app.workspace.projects[0].folders.rasters.push("maps".to_string());
    let token = app.project_asset_save_token();
    assert_eq!(token.triangulations, vec![(3, 5), (4, 6)]);
    assert_eq!(token.folders.rasters, vec!["maps".to_string()]);
    app.items.triangulations[1].state.epoch = 7;
    app.items.mark_project_asset_snapshot_saved(&token);
    assert!(!app.items.triangulations[0].state.is_dirty());
    assert!(app.items.triangulations[1].state.is_dirty());
    assert!(app.project_content_is_dirty(1));
    assert_eq!(app.items.baseline.folders.rasters, vec!["maps".to_string()]);
}

#[test]
fn drawing_goes_to_a_loaded_layer() {
    let mut app = app(Target::Native);
    let mut open = project(1, "p");
    open.document.layers.push(layer(1, "a", true));
    open.document.layers.push(layer(2, "b", false));
    app.set_active_project(open);
    assert_eq!(app.active_layer(), None);
    app.editor.active_layer = Some(1);
    assert_eq!(app.active_layer(), Some(1));
    app.editor.active_layer = Some(2);
    assert_eq!(app.active_layer(), None);
    app.editor.active_layer = Some(3);
    assert_eq!(app.active_layer(), None);
    assert!(app.editing_ready());
    app.editor.flags.fly_mode_enabled = true;
    assert!(!app.editing_ready());
}

#[test]
fn edits_are_handed_to_the_history() {
    let mut app = app(Target::Native);
    assert!(!app.execute_edit_for(1, Command::ChangeDocument(4)));
    assert!(app.outbox.is_empty());
    app.record_applied_edit(Command::ChangeDocument(4));
    assert_eq!(
        app.outbox,
        vec![Effect::RecordEdit { epoch: 0, command: Command::ChangeDocument(4) }]
    );
    app.set_active_project(project(1, "p"));
    app.touch_active_project_content();
    app.outbox.clear();
    assert!(app.execute_edit_for(1, Command::ChangeDocument(5)));
    app.record_applied_edit(Command::ChangeDocument(6));
    assert_eq!(
        app.outbox,
        vec![
            Effect::ExecuteEditFor { runtime_id: 1, command: Command::ChangeDocument(5) },
            Effect::RecordEdit { epoch: 1, command: Command::ChangeDocument(6) },
        ]
    );
}

#[test]
fn a_change_right_after_a_save_is_unsaved() {
    let mut app = app(Target::Native);
    app.set_active_project(project(1, "p"));
    app.mark_all_project_content_saved();
    assert!(!app.project_content_is_dirty(1));
    app.touch_active_project_content();
    assert!(app.project_content_is_dirty(1));
}

#[test]
fn an_item_taken_away_after_a_save_is_unsaved() {
    let mut app = app(Target::Native);
    app.set_active_project(project(1, "pit"));
    app.items.triangulations.push(triangulation(1, "a", 0));
    app.items.triangulations.push(triangulation(2, "b", 1));
    app.mark_all_project_content_saved();
    let runtime_id = app.workspace.projects[0].runtime_id;
    assert!(!app.project_content_is_dirty(runtime_id));
    app.items.triangulations.remove(0);
    assert!(app.project_content_is_dirty(runtime_id));
    app.items.triangulations.push(triangulation(3, "c", 2));
    assert!(app.project_content_is_dirty(runtime_id));
}

#[test]
fn a_second_sweep_drops_nothing() {
    let mut app = app(Target::Native);
    app.set_active_project(project(1, "pit"));
    app.items.triangulations.push(triangulation(1, "a", 0));
    app.items.active_triangulation = Some(7);
    app.editor.selected_handles.insert(SceneEntityId::Triangulation(1));
    app.editor.selected_handles.insert(SceneEntityId::Triangulation(7));
    app.drop_editor_references_to_missing_items();
    app.outbox.clear();
    app.drop_editor_references_to_missing_items();
    assert!(app.outbox.is_empty());
    assert_eq!(app.editor.selected_handles.len(), 1);
    assert!(app.editor.selected_handles.contains(SceneEntityId::Triangulation(1)));
    assert_eq!(app.items.active_triangulation, None);
}
