//! What the explorer shows.
use i18n_embed::fluent::FluentLanguageLoader;
use incline_design::app::{App, BrowserProject};
use incline_design::config::Preferences;
use incline_design::editor::EditorState;
use incline_design::language::{LanguageChoice, Target};
use incline_design::model::{
    BlockModelDetail, ColorBits, DrillHoleDetail, ItemState, ItemSummary, OpenItem,
    PointCloudDetail, RasterDetail, SceneEntityId, SectionKind, TriangulationDetail,
};
use incline_design::project::{
    Document, Folders, Layer, OpenProject, ProjectPath, ProjectPersistence,
};
use incline_design::view::{file_name, file_name_or, ViewCache};

fn loader() -> FluentLanguageLoader {
    FluentLanguageLoader::new("incline_design", "en".parse().unwrap())
}

fn preferences() -> Preferences {
    Preferences {
        dark_mode: true,
        show_console: false,
        panel_chrome: 0,
        show_world_axis_gizmo: true,
        show_scale_bar: true,
        renderer_background_color: ColorBits { r: 0, g: 0, b: 0, a: 0 },
        snap_poll_rate: 60,
        vsync_enabled: true,
        frame_rate_cap: 144,
        resize_frame_rate_cap: 60,
        block_model_interaction_resolution_divisor: 4,
        show_block_model_boundary_highlights: false,
        downscale_raster_previews: true,
        frame_counter_enabled: false,
        debug_surface_chunks: false,
        debug_clip_planes: false,
        debug_point_cloud_chunks: false,
        plan_invert_vertical_look: false,
        plan_invert_horizontal_look: false,
        plan_zoom_towards_cursor: true,
        fly_invert_vertical_look: false,
        fly_invert_horizontal_look: false,
    }
}

fn app(target: Target) -> App<u8> {
    App::default(target, EditorState::new(preferences(), LanguageChoice::English))
}

fn layer(id: u64, name: &str, loaded: bool) -> Layer {
    Layer {
        id,
        name: name.to_string(),
        name_rank: id,
        loaded,
        folder: None,
        section: SectionKind::Designs,
    }
}

fn project(id: u64, name: &str) -> OpenProject {
    OpenProject {
        runtime_id: 0,
        id,
        path: None,
        name: name.to_string(),
        name_rank: id,
        path_rank: 0,
        persistence: ProjectPersistence::Native,
        lossy_save_warnings: Vec::new(),
        lossy_save_confirmed: false,
        unsaved: false,
        content_epoch: 0,
        savepoint_revision: 0,
        dirty_layers: Vec::new(),
        document: Document::new(),
        folders: Folders::new(),
    }
}

fn state(epoch: u64, saved_epoch: u64, loaded: bool) -> ItemState {
    ItemState {
        epoch,
        saved_epoch,
        loaded,
        deferred: false,
        style: 7,
        source_name: "source".to_string(),
        folder: None,
        section: SectionKind::Triangulations,
        summary: None,
    }
}

fn triangulation(id: u64, name: &str, rank: u64) -> OpenItem<TriangulationDetail> {
    OpenItem {
        id,
        name: name.to_string(),
        name_rank: rank,
        state: state(0, 0, true),
        detail: TriangulationDetail {
            raster_texture: None,
            color: ColorBits { r: 1, g: 2, b: 3, a: 4 },
        },
    }
}

fn drill_holes(id: u64) -> OpenItem<DrillHoleDetail> {
    OpenItem {
        id,
        name: "holes".to_string(),
        name_rank: id,
        state: state(0, 0, true),
        detail: DrillHoleDetail { holes: 3, fields: 2 },
    }
}

fn raster(id: u64) -> OpenItem<RasterDetail> {
    OpenItem {
        id,
        name: "map".to_string(),
        name_rank: 0,
        state: state(0, 0, true),
        detail: RasterDetail {
            source_width: 30,
            source_height: 20,
            driver_name: "GTiff".to_string(),
            projection: "local".to_string(),
        },
    }
}

#[test]
fn items_are_shown_in_natural_order() {
    let mut app = app(Target::Native);
    app.items.triangulations.push(triangulation(1, "b", 2));
    app.items.triangulations.push(triangulation(2, "a", 1));
    app.items.triangulations.push(triangulation(3, "b", 2));
    app.items.triangulations[1].state.epoch = 4;
    app.items.active_triangulation = Some(3);
    let view = app.current_view("Project");
    let ids: Vec<u64> = view.triangulations.iter().map(|entry| entry.id).collect();
    assert_eq!(ids, vec![2, 1, 3]);
    assert!(view.triangulations[0].dirty);
    assert!(view.triangulations[2].is_active);
    assert!(!view.triangulations[0].is_active);
    assert_eq!(view.triangulations[0].source_name, "source");
    assert_eq!(view.active_triangulation_for_menu, Some((3, ColorBits { r: 1, g: 2, b: 3, a: 4 })));
    // What is kept stays in its order.
    assert_eq!(app.items.triangulations[0].id, 1);
}

#[test]
fn counts_come_from_summaries_where_there_are_any() {
    let mut app = app(Target::Native);
    app.items.drill_holes.push(drill_holes(1));
    app.items.drill_holes.push(drill_holes(2));
    app.items.drill_holes[1].state.summary =
        Some(ItemSummary { primary_count: 90, secondary_count: 80 });
    app.items.block_models.push(OpenItem {
        id: 1,
        name: "m".to_string(),
        name_rank: 0,
        state: state(0, 0, false),
        detail: BlockModelDetail {
            renderable_blocks: 12,
            special_variables: vec![false, true, false],
        },
    });
    app.items.point_clouds.push(OpenItem {
        id: 1,
        name: "c".to_string(),
        name_rank: 0,
        state: state(0, 0, true),
        detail: PointCloudDetail { points: 5, classified: true },
    });
    let view = app.current_view("Project");
    assert_eq!((view.drill_holes[0].hole_count, view.drill_holes[0].field_count), (3, 2));
    assert_eq!((view.drill_holes[1].hole_count, view.drill_holes[1].field_count), (90, 80));
    assert_eq!((view.block_models[0].block_count, view.block_models[0].variable_count), (12, 2));
    assert!(!view.block_models[0].is_loaded);
    assert_eq!(view.point_clouds[0].point_count, 5);
    assert!(view.point_clouds[0].is_classified);
}

#[test]
fn rasters_show_whether_they_are_draped() {
    let mut app = app(Target::Native);
    app.items.rasters.push(raster(1));
    app.items.rasters.push(raster(2));
    app.items.triangulations.push(triangulation(1, "t", 0));
    app.items.triangulations[0].detail.raster_texture = Some(2);
    let view = app.current_view("Project");
    assert!(!view.raster_textures[0].is_draped);
    assert!(view.raster_textures[1].is_draped);
    assert_eq!(view.raster_textures[0].source_width, 30);
    assert_eq!(view.raster_textures[0].source_height, 20);
    assert_eq!(view.raster_textures[0].driver_name, "GTiff");
    assert_eq!(view.raster_textures[0].projection, "local");
}

#[test]
fn projects_show_their_layers() {
    let mut app = app(Target::Native);
    let mut open = project(1, "pit");
    open.document.layers.push(layer(9, "walls", true));
    open.document.layers.push(layer(4, "roads", false));
    open.dirty_layers.push(4);
    open.lossy_save_warnings.push("textures".to_string());
    open.document.revision = 2;
    app.set_active_project(open);
    let view = app.current_view("Project");
    assert!(view.has_active_project);
    assert!(!view.needs_startup_dialog);
    assert_eq!(view.projects.len(), 1);
    let entry = &view.projects[0];
    assert_eq!(entry.name, "pit");
    assert!(entry.is_active);
    assert!(!entry.dirty);
    assert!(entry.designs_dirty);
    assert_eq!(entry.lossy_save_warnings, vec!["textures".to_string()]);
    let layers: Vec<(u64, bool, bool)> =
        entry.layers.iter().map(|l| (l.id, l.is_loaded, l.dirty)).collect();
    assert_eq!(layers, vec![(4, false, true), (9, true, false)]);
}

#[test]
fn projects_with_one_name_are_told_apart_by_path() {
    let mut app = app(Target::Native);
    let mut first = project(1, "pit");
    first.name_rank = 0;
    first.path_rank = 8;
    let mut second = project(2, "pit");
    second.name_rank = 0;
    second.path_rank = 3;
    app.set_active_project(first);
    app.workspace.add_and_activate(second);
    let view = app.current_view("Project");
    assert_eq!(view.projects[0].runtime_id, 2);
    assert_eq!(view.projects[1].runtime_id, 1);
    assert!(view.projects[0].is_active);
}

#[test]
fn on_a_desktop_the_project_opened_last_comes_first() {
    let mut app = app(Target::Native);
    app.track_project_path(ProjectPath { id: 1, stem: Some("old".to_string()) });
    app.track_project_path(ProjectPath { id: 2, stem: None });
    let mut open = project(1, "My pit");
    open.path = Some(ProjectPath { id: 3, stem: Some("pit".to_string()) });
    open.unsaved = true;
    app.set_active_project(open);
    let view = app.current_view("Project");
    let shown: Vec<(&str, bool, bool)> = view
        .tracked_projects
        .iter()
        .map(|entry| (entry.name.as_str(), entry.is_active, entry.dirty))
        .collect();
    assert_eq!(
        shown,
        vec![("My pit", true, true), ("Project", false, false), ("old", false, false)]
    );
    assert_eq!(view.active_path.map(|path| path.id), Some(3));
}

#[test]
fn on_a_page_projects_stand_in_order_of_their_names() {
    let mut app = app(Target::Web);
    app.browser.stored = vec![
        BrowserProject { id: 5, name: "z".to_string(), name_rank: 9 },
        BrowserProject { id: 6, name: "a".to_string(), name_rank: 1 },
    ];
    let mut open = project(7, "m");
    open.name_rank = 5;
    app.set_active_project(open);
    let view = app.current_view("Project");
    let shown: Vec<(Option<u64>, bool, bool)> = view
        .tracked_projects
        .iter()
        .map(|entry| (entry.id, entry.is_active, entry.stored_in_browser))
        .collect();
    assert_eq!(
        shown,
        vec![(Some(6), false, true), (Some(7), true, false), (Some(5), false, true)]
    );
    app.workspace.projects[0].id = 5;
    let view = app.current_view("Project");
    assert_eq!(view.tracked_projects.len(), 2);
    assert!(view.tracked_projects[1].is_active);
}

#[test]
fn headings_show_what_came_and_went() {
    let mut app = app(Target::Native);
    app.set_active_project(project(1, "p"));
    let view = app.current_view("Project");
    assert!(!view.triangulations_membership_dirty);
    assert!(!view.rasters_membership_dirty);
    app.items.triangulations.push(triangulation(1, "t", 0));
    app.workspace.projects[0].folders.rasters.push("maps".to_string());
    let view = app.current_view("Project");
    assert!(view.triangulations_membership_dirty);
    assert!(view.rasters_membership_dirty);
    assert!(!view.block_models_membership_dirty);
    assert!(!view.drill_holes_membership_dirty);
    assert!(!view.point_clouds_membership_dirty);
    assert_eq!(view.folders.rasters, vec!["maps".to_string()]);
    app.mark_all_project_content_saved();
    let view = app.current_view("Project");
    assert!(!view.triangulations_membership_dirty);
    assert!(!view.rasters_membership_dirty);
}

#[test]
fn the_view_is_made_again_when_something_changed() {
    let mut app = app(Target::Native);
    let loader = loader();
    let mut cache = ViewCache::new();
    assert!(cache.project_view(&app, &loader));
    assert!(!cache.project_view(&app, &loader));
    app.items.triangulations.push(triangulation(1, "t", 0));
    assert!(cache.project_view(&app, &loader));
    assert_eq!(cache.view.triangulations.len(), 1);
    app.items.triangulations[0].name = "u".to_string();
    assert!(cache.project_view(&app, &loader));
    app.editor.hidden_handles.insert(SceneEntityId::Triangulation(1));
    assert!(cache.project_view(&app, &loader));
    app.items.triangulations[0].detail.color.g = 9;
    assert!(cache.project_view(&app, &loader));
    app.items.triangulations[0].state.saved_epoch = 1;
    assert!(cache.project_view(&app, &loader));
    app.items.rasters.push(raster(1));
    assert!(cache.project_view(&app, &loader));
    app.lifecycle.startup_dialog_dismissed = true;
    assert!(cache.project_view(&app, &loader));
    app.set_active_project(project(1, "p"));
    assert!(cache.project_view(&app, &loader));
    app.workspace.projects[0].folders.designs.push("ramps".to_string());
    assert!(cache.project_view(&app, &loader));
    app.workspace.projects[0].document.layers.push(layer(1, "a", true));
    assert!(cache.project_view(&app, &loader));
    app.track_project_path(ProjectPath { id: 1, stem: None });
    assert!(cache.project_view(&app, &loader));
    assert!(!cache.project_view(&app, &loader));
    assert_eq!(cache.view.tracked_projects[0].name, "Project");
}

#[test]
fn the_fingerprint_is_the_same_in_every_run_of_it() {
    let mut one = app(Target::Native);
    let mut other = app(Target::Native);
    assert_eq!(one.project_view_key(), other.project_view_key());
    one.items.drill_holes.push(drill_holes(1));
    assert_ne!(one.project_view_key(), other.project_view_key());
    other.items.drill_holes.push(drill_holes(1));
    assert_eq!(one.project_view_key(), other.project_view_key());
}

#[test]
fn files_without_a_name_are_untitled() {
    assert_eq!(file_name_or(Some("pit.omf"), "Untitled"), "pit.omf");
    assert_eq!(file_name_or(None, "Sans titre"), "Sans titre.omf");
    assert_eq!(file_name(Some("pit.omf"), &loader()), "pit.omf");
    assert_eq!(file_name(None, &loader()), "Untitled.omf");
}
