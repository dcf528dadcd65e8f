//! Settings and the start of the desktop application.
use incline_design::app::App;
use incline_design::config::{Config, CoordinateSystem, Preferences};
use incline_design::content::Session;
use incline_design::editor::EditorState;
use incline_design::effects::{Effect, Notice, NoticeKind};
use incline_design::language::{LanguageChoice, Target};
use incline_design::model::{
    ColorBits, ItemState, OpenItem, SectionKind, TriangulationDetail,
};
use incline_design::project::{
    Document, Folders, ObjectRow, Layer, OpenProject, ProjectPath, ProjectPersistence,
};
use incline_design::startup::{can_apply, read_or_default, Stored};

fn preferences() -> Preferences {
    Preferences {
        dark_mode: true,
        show_console: false,
        panel_chrome: 0,
        show_world_axis_gizmo: true,
        show_scale_bar: true,
        renderer_background_color: ColorBits { r: 0, g: 0, b: 0, a: 0 },
        snap_poll_rate: 60,
        vsync_enabled: true,
        frame_rate_cap: 144,
        resize_frame_rate_cap: 60,
        block_model_interaction_resolution_divisor: 4,
        show_block_model_boundary_highlights: false,
        downscale_raster_previews: true,
        frame_counter_enabled: false,
        debug_surface_chunks: false,
        debug_clip_planes: false,
        debug_point_cloud_chunks: false,
        plan_invert_vertical_look: false,
        plan_invert_horizontal_look: false,
        plan_zoom_towards_cursor: true,
        fly_invert_vertical_look: false,
        fly_invert_horizontal_look: false,
    }
}

fn app(target: Target) -> App<u8> {
    App::default(target, EditorState::new(preferences(), LanguageChoice::English))
}

fn layer(id: u64, name: &str, loaded: bool) -> Layer {
    Layer {
        id,
        name: name.to_string(),
        name_rank: id,
        loaded,
        folder: None,
        section: SectionKind::Designs,
    }
}

fn project(id: u64, name: &str) -> OpenProject {
    OpenProject {
        runtime_id: 0,
        id,
        path: None,
        name: name.to_string(),
        name_rank: id,
        path_rank: 0,
        persistence: ProjectPersistence::Native,
        lossy_save_warnings: Vec::new(),
        lossy_save_confirmed: false,
        unsaved: false,
        content_epoch: 0,
        savepoint_revision: 0,
        dirty_layers: Vec::new(),
        document: Document::new(),
        folders: Folders::new(),
    }
}

fn system(name: &str) -> CoordinateSystem {
    CoordinateSystem { name: name.to_string(), definition: 1 }
}

fn config() -> Config {
    Config {
        workspace_order: vec![2, 0, 2],
        coordinate_systems: vec![system("mine"), system("  "), system("lost"), system("grid")],
        mine_coordinate_system: Some("grid".to_string()),
        language: LanguageChoice::Korean,
        preferences: Preferences {
            snap_poll_rate: 1,
            frame_rate_cap: 5000,
            resize_frame_rate_cap: 0,
            block_model_interaction_resolution_divisor: 65,
            ..preferences()
        },
        delay_products: vec![0, 1],
    }
}

#[test]
fn settings_are_put_in_force() {
    let mut app = app(Target::Native);
    app.apply_config(&config(), &vec![0, 1, 2, 3], &vec![true, false, true]);
    assert_eq!(app.editor.workspace_order, vec![2, 0, 1, 3]);
    assert_eq!(app.editor.active_workspace, Some(2));
    let names: Vec<&str> =
        app.editor.coordinate_systems.iter().map(|system| system.name.as_str()).collect();
    assert_eq!(names, vec!["mine", "grid"]);
    assert_eq!(app.editor.local_system.as_deref(), Some("grid"));
    assert_eq!(app.editor.language, LanguageChoice::Korean);
    assert_eq!(app.editor.preferences.snap_poll_rate, 5);
    assert_eq!(app.editor.preferences.frame_rate_cap, 1000);
    assert_eq!(app.editor.preferences.resize_frame_rate_cap, 20);
    assert_eq!(app.editor.preferences.block_model_interaction_resolution_divisor, 64);
    assert_eq!(app.editor.preferences.clamped(), app.editor.preferences);
    assert_eq!(app.editor.delay_products, vec![0, 1]);
    assert_eq!(app.editor.next_delay_product_id, 2);
    assert_eq!(app.editor.active_delay_product, Some(0));
    assert_eq!(
        app.outbox,
        vec![
            Effect::RefreshAxisNames,
            Effect::SelectLanguage(LanguageChoice::Korean),
            Effect::ConfigureCamera,
        ]
    );
}

#[test]
fn a_system_that_does_not_resolve_is_not_local() {
    let mut app = app(Target::Web);
    let mut stored = config();
    stored.mine_coordinate_system = Some("lost".to_string());
    stored.delay_products.clear();
    app.apply_config(&stored, &vec![0, 1, 2, 3], &vec![true, false, true]);
    assert_eq!(app.editor.local_system, None);
    assert_eq!(app.editor.language, LanguageChoice::English);
    assert_eq!(app.editor.next_delay_product_id, 0);
    assert_eq!(app.editor.active_delay_product, None);
}

#[test]
fn what_cannot_be_read_is_told() {
    let (value, notice) = read_or_default(Stored::Found(3), 7, NoticeKind::ConfigLoadFailed);
    assert_eq!((value, notice), (3, None));
    let (value, notice) = read_or_default(Stored::Absent, 7, NoticeKind::ConfigLoadFailed);
    assert_eq!((value, notice), (7, None));
    let (value, notice) =
        read_or_default(Stored::Unreadable("bad".to_string()), 7, NoticeKind::ConfigLoadFailed);
    assert_eq!(value, 7);
    assert_eq!(
        notice,
        Some(Notice { kind: NoticeKind::ConfigLoadFailed, detail: "bad".to_string() })
    );
}

#[test]
fn the_application_starts_on_a_project_of_its_own() {
    let editor = EditorState::new(preferences(), LanguageChoice::English);
    let session = Session {
        project_paths: vec![
            ProjectPath { id: 1, stem: None },
            ProjectPath { id: 2, stem: None },
        ],
        current_project_path: Some(ProjectPath { id: 1, stem: None }),
    };
    let app: App<u8> = App::new(
        editor,
        Stored::Found(session),
        Stored::Unreadable("x".to_string()),
        config(),
        &vec![0, 1, 2, 3],
        &vec![true, true, true],
        project(0, "Untitled"),
    );
    assert_eq!(app.workspace.projects.len(), 1);
    assert_eq!(app.workspace.projects[0].name, "Untitled");
    assert!(!app.lifecycle.startup_dialog_dismissed);
    let ids: Vec<u64> = app.tracked_project_paths.iter().map(|path| path.id).collect();
    assert_eq!(ids, vec![2, 1]);
    assert_eq!(app.editor.preferences.frame_rate_cap, 1000);
    assert_eq!(
        app.outbox[0],
        Effect::Notify(Notice { kind: NoticeKind::ConfigLoadFailed, detail: "x".to_string() })
    );
    assert_eq!(app.outbox[1], Effect::RefreshAxisNames);
    assert_eq!(app.outbox.last(), Some(&Effect::PersistSession));
}

#[test]
fn an_unreadable_session_starts_empty() {
    let app: App<u8> = App::new(
        EditorState::new(preferences(), LanguageChoice::English),
        Stored::Unreadable("torn".to_string()),
        Stored::Found(config()),
        config(),
        &vec![0, 1, 2, 3],
        &vec![true, true, true],
        project(0, "Untitled"),
    );
    assert!(app.tracked_project_paths.is_empty());
    assert_eq!(
        app.outbox[0],
        Effect::Notify(Notice { kind: NoticeKind::SessionLoadFailed, detail: "torn".to_string() })
    );
}

#[test]
fn a_scene_with_something_loaded_can_be_shown() {
    let mut app = app(Target::Native);
    assert!(!app.scene_has_renderables());
    let mut open = project(1, "p");
    open.document.layers.push(layer(1, "a", false));
    open.document.objects.push(ObjectRow { id: 1, layer: 1 });
    open.document.objects.push(ObjectRow { id: 2, layer: 9 });
    app.set_active_project(open);
    assert!(!app.scene_has_renderables());
    app.workspace.projects[0].document.layers[0].loaded = true;
    assert!(app.scene_has_renderables());
    app.workspace.projects[0].document.layers[0].loaded = false;
    app.items.triangulations.push(triangulation(1, "t", 1));
    assert!(app.scene_has_renderables());
    app.items.triangulations[0].state.loaded = false;
    assert!(!app.scene_has_renderables());
}

fn state(epoch: u64, saved_epoch: u64, loaded: bool) -> ItemState {
    ItemState {
        epoch,
        saved_epoch,
        loaded,
        deferred: false,
        style: 7,
        source_name: "source".to_string(),
        folder: None,
        section: SectionKind::Triangulations,
        summary: None,
    }
}

fn triangulation(id: u64, name: &str, rank: u64) -> OpenItem<TriangulationDetail> {
    OpenItem {
        id,
        name: name.to_string(),
        name_rank: rank,
        state: state(0, 0, true),
        detail: TriangulationDetail {
            raster_texture: None,
            color: ColorBits { r: 1, g: 2, b: 3, a: 4 },
        },
    }
}

#[test]
fn settings_fit_their_surroundings() {
    let mut config = Config {
        workspace_order: vec![2, 1],
        coordinate_systems: Vec::new(),
        mine_coordinate_system: None,
        language: LanguageChoice::English,
        preferences: preferences(),
        delay_products: Vec::new(),
    };
    assert!(can_apply(&config, &vec![1, 2, 3], &vec![]));
    assert!(!can_apply(&config, &vec![], &vec![]));
    assert!(!can_apply(&config, &vec![1, 2, 1], &vec![]));
    assert!(!can_apply(&config, &vec![1, 3], &vec![]));
    assert!(!can_apply(&config, &vec![1, 2], &vec![true]));
    config.coordinate_systems.push(CoordinateSystem { name: "mine".to_string(), definition: 1 });
    config.coordinate_systems.push(CoordinateSystem { name: "  ".to_string(), definition: 2 });
    assert!(can_apply(&config, &vec![1, 2], &vec![true]));
    assert!(!can_apply(&config, &vec![1, 2], &vec![true, true]));
}
