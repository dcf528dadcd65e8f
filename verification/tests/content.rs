//! Installing projects, and what is kept of the one before.
use incline_design::app::{App, Gestures};
use incline_design::config::Preferences;
use incline_design::content::{track_path, Session};
use incline_design::editor::{DatasetPart, EditorState};
use incline_design::effects::Effect;
use incline_design::language::{LanguageChoice, Target};
use incline_design::model::{ColorBits, SceneEntityId, SectionKind};
use incline_design::pacing::SurfaceSize;
use incline_design::project::{
    Document, Folders, Layer, ObjectRow, OpenProject, ProjectPath, ProjectPersistence,
};
use incline_design::tasks::PendingLoad;

fn preferences() -> Preferences {
    Preferences {
        dark_mode: true,
        show_console: false,
        panel_chrome: 0,
        show_world_axis_gizmo: true,
        show_scale_bar: true,
        renderer_background_color: ColorBits { r: 0, g: 0, b: 0, a: 0 },
        snap_poll_rate: 60,
        vsync_enabled: true,
        frame_rate_cap: 144,
        resize_frame_rate_cap: 60,
        block_model_interaction_resolution_divisor: 4,
        show_block_model_boundary_highlights: false,
        downscale_raster_previews: true,
        frame_counter_enabled: false,
        debug_surface_chunks: false,
        debug_clip_planes: false,
        debug_point_cloud_chunks: false,
        plan_invert_vertical_look: false,
        plan_invert_horizontal_look: false,
        plan_zoom_towards_cursor: true,
        fly_invert_vertical_look: false,
        fly_invert_horizontal_look: false,
    }
}

fn app(target: Target) -> App<u8> {
    App::default(target, EditorState::new(preferences(), LanguageChoice::English))
}

fn layer(id: u64, name: &str, loaded: bool) -> Layer {
    Layer {
        id,
        name: name.to_string(),
        name_rank: id,
        loaded,
        folder: None,
        section: SectionKind::Designs,
    }
}

fn project(id: u64, name: &str) -> OpenProject {
    OpenProject {
        runtime_id: 0,
        id,
        path: None,
        name: name.to_string(),
        name_rank: id,
        path_rank: 0,
        persistence: ProjectPersistence::Native,
        lossy_save_warnings: Vec::new(),
        lossy_save_confirmed: false,
        unsaved: false,
        content_epoch: 0,
        savepoint_revision: 0,
        dirty_layers: Vec::new(),
        document: Document::new(),
        folders: Folders::new(),
    }
}

fn path(id: u64) -> ProjectPath {
    ProjectPath { id, stem: Some(format!("p{id}")) }
}

fn ids(paths: &[ProjectPath]) -> Vec<u64> {
    paths.iter().map(|p| p.id).collect()
}

#[test]
fn opened_paths_move_to_the_end() {
    let list = track_path(&vec![path(1), path(2), path(3)], path(2));
    assert_eq!(ids(&list), vec![1, 3, 2]);
    let list = track_path(&list, path(9));
    assert_eq!(ids(&list), vec![1, 3, 2, 9]);
}

#[test]
fn a_session_lists_each_project_once() {
    let mut app = app(Target::Native);
    app.track_project_path(path(8));
    app.load_session_projects(&Session {
        project_paths: vec![path(1), path(2), path(1)],
        current_project_path: Some(path(2)),
    });
    assert_eq!(ids(&app.tracked_project_paths), vec![1, 2]);
    app.load_session_projects(&Session {
        project_paths: vec![path(1), path(2), path(1)],
        current_project_path: None,
    });
    assert_eq!(ids(&app.tracked_project_paths), vec![2, 1]);
    assert!(app.session().current_project_path.is_none());
}

#[test]
fn the_session_keeps_the_open_project() {
    let mut app = app(Target::Native);
    let mut opened = project(5, "pit");
    opened.path = Some(path(4));
    app.set_active_project(opened);
    let session = app.session();
    assert_eq!(ids(&session.project_paths), vec![4]);
    assert_eq!(session.current_project_path.map(|p| p.id), Some(4));
}

#[test]
fn installing_a_project_replaces_the_one_before() {
    let mut app = app(Target::Native);
    app.set_active_project(project(1, "old"));
    app.outbox.clear();
    app.surface = Some(SurfaceSize { width: 10, height: 10 });
    app.editor.selected_handles.insert(SceneEntityId::Object(1));
    app.editor.hidden_handles.insert(SceneEntityId::Object(1));
    app.editor.hidden_handles.insert(SceneEntityId::Raster(1));
    app.editor.active_layer = Some(3);
    app.editor.active_tool = 6;
    app.editor.tie_anchor = Some(DatasetPart { dataset: 1, part: 1 });
    app.editor.flags.pending_move_delta = true;
    app.editor.flags.text_editing_enabled = true;
    app.gestures.drag = true;
    app.lifecycle.startup_dialog_dismissed = false;
    let ticket = app.begin_reported_task("load".to_string(), 0);
    app.loads.rasters.push(PendingLoad { ticket, has_report: true });
    let generation = app.workspace_generation;

    let mut opened = project(2, "new");
    opened.path = Some(path(7));
    opened.document.hidden_objects.push(42);
    app.set_active_project(opened);

    assert_eq!(app.workspace.projects.len(), 1);
    assert_eq!(app.workspace.projects[0].name, "new");
    assert_eq!(app.workspace.projects[0].runtime_id, 1);
    assert_eq!(app.workspace.active_index, Some(0));
    assert_eq!(app.workspace_generation, generation + 1);
    assert_eq!(ids(&app.tracked_project_paths), vec![7]);
    assert!(app.lifecycle.startup_dialog_dismissed);
    assert_eq!(app.editor.selected_handles.len(), 0);
    assert!(!app.editor.hidden_handles.contains(SceneEntityId::Object(1)));
    assert!(app.editor.hidden_handles.contains(SceneEntityId::Object(42)));
    assert!(app.editor.hidden_handles.contains(SceneEntityId::Raster(1)));
    assert_eq!(app.editor.active_layer, None);
    assert_eq!(app.editor.active_tool, 0);
    assert_eq!(app.editor.tie_anchor, None);
    assert_eq!(app.gestures, Gestures::none());
    assert!(!app.editor.flags.background_busy);
    assert!(app.loads.rasters.is_empty());
    assert!(app.tasks.reported.is_empty());
    assert!(app.pacing.redraw_requested);
    assert_eq!(
        app.outbox,
        vec![
            Effect::CancelJobs { keep_browser_saves: false },
            Effect::CancelLoadReport(ticket.0),
            Effect::ResetHistory,
            Effect::ClearRotationCentre,
            Effect::RestoreMoveSession,
            Effect::RestoreCollarSession,
            Effect::CancelTextEdit,
            Effect::LeaveSliceMode,
            Effect::ClearProjectTransients,
            Effect::ClearGpuItemCaches,
            Effect::ClearRotationCentre,
            Effect::LeaveSliceMode,
            Effect::ClearProjectTransients,
            Effect::ActivateHistory(1),
            Effect::RebuildSceneDocument,
            Effect::InvalidateGpuGeometry,
            Effect::PersistSession,
        ]
    );
}

#[test]
fn on_a_page_saves_in_flight_go_on() {
    let mut app = app(Target::Web);
    app.browser.saves_pending.insert(1);
    app.outbox.clear();
    app.clear_project_owned_data();
    assert_eq!(app.outbox[0], Effect::CancelJobs { keep_browser_saves: true });
    assert!(app.browser.saves_pending.is_empty());
}

#[test]
fn pointing_at_another_project_carries_the_tool_over() {
    let mut app = app(Target::Native);
    app.set_active_project(project(1, "first"));
    let mut second = project(2, "second");
    second.document.layers.push(layer(20, "walls", true));
    second.document.objects.push(ObjectRow { id: 200, layer: 20 });
    app.workspace.add_and_activate(second);
    app.workspace.active_index = Some(0);
    app.outbox.clear();
    app.editor.active_tool = 5;
    app.editor.active_layer = Some(1);

    assert!(!app.activate_project_for_object(999));
    assert!(app.outbox.is_empty());
    assert!(app.activate_project_for_object(200));
    assert_eq!(app.workspace.active_index, Some(1));
    assert_eq!(app.editor.active_tool, 5);
    assert_eq!(app.editor.active_layer, None);
    assert_eq!(
        app.outbox,
        vec![
            Effect::ClearRotationCentre,
            Effect::LeaveSliceMode,
            Effect::ClearProjectTransients,
            Effect::ActivateHistory(2),
            Effect::PersistSession,
        ]
    );
    app.outbox.clear();
    assert!(app.activate_project_for_layer(20));
    assert!(app.outbox.is_empty());
    assert!(!app.activate_project_for_layer(21));
}

#[test]
fn locked_layers_freeze_their_objects() {
    let mut app = app(Target::Native);
    let mut open = project(1, "p");
    open.document.layers.push(layer(1, "a", true));
    open.document.layers.push(layer(2, "b", true));
    open.document.objects.push(ObjectRow { id: 10, layer: 1 });
    open.document.objects.push(ObjectRow { id: 20, layer: 2 });
    app.set_active_project(open);
    let on_a = SceneEntityId::Object(10);
    let on_b = SceneEntityId::Object(20);
    app.editor.selected_handles.insert(on_a);
    app.editor.locked_layers.insert(1);
    app.invalidate_geometry();
    assert!(app.editor.frozen_handles.contains(on_a));
    assert!(!app.editor.frozen_handles.contains(on_b));
    assert!(!app.editor.selected_handles.contains(on_a));

    // Nothing is walked again while neither locks nor documents change.
    app.editor.frozen_handles.remove(on_a);
    app.invalidate_geometry();
    assert!(!app.editor.frozen_handles.contains(on_a));

    // By name stays, by lock goes.
    app.editor.explicitly_frozen.insert(on_b);
    app.editor.frozen_handles.insert(on_b);
    app.editor.locked_layers.remove(1);
    app.editor.locked_layers.insert(9);
    app.editor.frozen_handles.insert(on_a);
    app.invalidate_geometry();
    assert!(!app.editor.frozen_handles.contains(on_a));
    assert!(app.editor.frozen_handles.contains(on_b));
}

#[test]
fn the_scene_is_rebuilt_only_when_documents_changed() {
    let mut app = app(Target::Native);
    app.set_active_project(project(1, "p"));
    app.outbox.clear();
    app.caches.snap_index_dirty = false;
    app.invalidate_geometry();
    assert!(app.outbox.is_empty());
    assert!(!app.caches.snap_index_dirty);
    app.workspace.projects[0].document.revision += 1;
    app.invalidate_geometry();
    assert_eq!(app.outbox, vec![Effect::RebuildSceneDocument]);
    assert!(app.caches.snap_index_dirty);
    app.refresh_snap_index();
    app.refresh_snap_index();
    assert_eq!(app.outbox, vec![Effect::RebuildSceneDocument, Effect::RebuildSnapIndex]);
}

#[test]
fn redraws_reach_the_renderer_that_is_there() {
    let mut app = app(Target::Native);
    app.invalidate_overlay();
    app.invalidate_topology_bounds_and_redraw();
    assert!(app.outbox.is_empty());
    assert!(app.pacing.redraw_requested);
    app.surface = Some(SurfaceSize { width: 1, height: 1 });
    app.invalidate_overlay();
    app.invalidate_topology_bounds_and_redraw();
    assert_eq!(app.outbox, vec![Effect::InvalidateGpuOverlay, Effect::InvalidateGpuBounds]);
}

#[test]
fn the_pointer_shows_that_work_goes_on() {
    let mut app = app(Target::Native);
    let a = app.begin_topology_load();
    assert!(app.editor.flags.background_busy);
    assert!(app.pacing.redraw_requested);
    let b = app.begin_reported_task("work".to_string(), 3);
    assert_eq!(app.tasks.oldest_reported().map(|task| task.progress), Some(3));
    assert!(app.finish_background_task(a, true));
    assert!(app.topology_uploads_pending());
    assert!(app.cancel_background_task(b));
    assert!(app.editor.flags.background_busy);
    app.finish_topology_load();
    assert!(!app.editor.flags.background_busy);
}

#[test]
fn a_reported_task_keeps_the_interface_drawing() {
    let mut app = app(Target::Native);
    assert!(app.refresh_status_message::<u8, u8>(None).is_none());
    assert!(!app.pacing.redraw_requested);
    app.begin_reported_task("work".to_string(), 3);
    app.pacing.redraw_requested = false;
    assert_eq!(app.refresh_status_message::<u8, u8>(None).unwrap().text, "work");
    assert!(app.pacing.redraw_requested);
}

#[test]
fn a_kept_session_is_read_back() {
    let mut before = app(Target::Native);
    for id in [3, 1, 2, 1] {
        before.track_project_path(ProjectPath { id, stem: None });
    }
    let mut open = project(1, "p");
    open.path = Some(ProjectPath { id: 1, stem: None });
    before.set_active_project(open);
    let session = before.session();
    let mut after = app(Target::Native);
    after.load_session_projects(&session);
    let ids = |app: &App<u8>| -> Vec<u64> {
        app.tracked_project_paths.iter().map(|path| path.id).collect()
    };
    assert_eq!(ids(&before), vec![3, 2, 1]);
    assert_eq!(ids(&after), ids(&before));
}
