//! The menu bar.
use incline_design::app::App;
use incline_design::config::Preferences;
use incline_design::editor::EditorState;
use incline_design::language::{LanguageChoice, Target};
use incline_design::model::ColorBits;
use incline_design::menu::{Axis, MacMenuAction, UiCommand};
use incline_design::project::{Document, Folders, OpenProject, ProjectPersistence};

fn preferences() -> Preferences {
    Preferences {
        dark_mode: true,
        show_console: false,
        panel_chrome: 0,
        show_world_axis_gizmo: true,
        show_scale_bar: true,
        renderer_background_color: ColorBits { r: 0, g: 0, b: 0, a: 0 },
        snap_poll_rate: 60,
        vsync_enabled: true,
        frame_rate_cap: 144,
        resize_frame_rate_cap: 60,
        block_model_interaction_resolution_divisor: 4,
        show_block_model_boundary_highlights: false,
        downscale_raster_previews: true,
        frame_counter_enabled: false,
        debug_surface_chunks: false,
        debug_clip_planes: false,
        debug_point_cloud_chunks: false,
        plan_invert_vertical_look: false,
        plan_invert_horizontal_look: false,
        plan_zoom_towards_cursor: true,
        fly_invert_vertical_look: false,
        fly_invert_horizontal_look: false,
    }
}

fn app(target: Target) -> App<u8> {
    App::default(target, EditorState::new(preferences(), LanguageChoice::English))
}

fn project(id: u64, name: &str) -> OpenProject {
    OpenProject {
        runtime_id: 0,
        id,
        path: None,
        name: name.to_string(),
        name_rank: id,
        path_rank: 0,
        persistence: ProjectPersistence::Native,
        lossy_save_warnings: Vec::new(),
        lossy_save_confirmed: false,
        unsaved: false,
        content_epoch: 0,
        savepoint_revision: 0,
        dirty_layers: Vec::new(),
        document: Document::new(),
        folders: Folders::new(),
    }
}

#[test]
fn entries_stand_for_commands() {
    let mut app = app(Target::Native);
    let recent = vec![70, 71];
    let toggles = vec![80];
    let mut choose = |action| app.handle_mac_menu_action(action, &recent, &toggles);
    assert_eq!(choose(MacMenuAction::SaveProject), Some(UiCommand::SaveProject));
    assert_eq!(
        choose(MacMenuAction::OpenMoveToY),
        Some(UiCommand::OpenMoveToAxisDialog(Axis::Y))
    );
    assert_eq!(
        choose(MacMenuAction::OpenInsertPointAtElevation),
        Some(UiCommand::OpenInsertPointAtElevationDialog)
    );
    assert_eq!(
        choose(MacMenuAction::OpenRecent(1)),
        Some(UiCommand::ActivateTrackedProject(71))
    );
    assert_eq!(choose(MacMenuAction::ToggleView(0)), Some(UiCommand::ToggleViewOption(80)));
    assert_eq!(
        choose(MacMenuAction::UndrapeAllRasters),
        Some(UiCommand::UndrapeAllRasters)
    );
    assert!(!app.pacing.redraw_requested);
}

#[test]
fn saving_elsewhere_needs_a_project() {
    let mut app = app(Target::Native);
    let none = Vec::new();
    assert_eq!(app.handle_mac_menu_action(MacMenuAction::SaveProjectAs, &none, &none), None);
    assert!(app.pacing.redraw_requested);
    app.set_active_project(project(1, "p"));
    assert_eq!(
        app.handle_mac_menu_action(MacMenuAction::SaveProjectAs, &none, &none),
        Some(UiCommand::SaveProjectAs(1))
    );
}

#[test]
fn rows_that_are_not_there_stand_for_nothing() {
    let mut app = app(Target::Native);
    let none = Vec::new();
    assert_eq!(app.handle_mac_menu_action(MacMenuAction::OpenRecent(0), &none, &none), None);
    assert_eq!(app.handle_mac_menu_action(MacMenuAction::ToggleView(3), &none, &none), None);
}

#[test]
fn panels_open_and_close_each_other() {
    let mut app = app(Target::Native);
    let none = Vec::new();
    assert_eq!(app.handle_mac_menu_action(MacMenuAction::OpenImport, &none, &none), None);
    assert!(app.editor.flags.show_import);
    assert!(app.pacing.redraw_requested);
    app.handle_mac_menu_action(MacMenuAction::OpenExport, &none, &none);
    assert!(!app.editor.flags.show_import);
    assert!(app.editor.flags.show_export);
    app.handle_mac_menu_action(MacMenuAction::OpenAbout, &none, &none);
    assert!(app.editor.flags.show_about);
    assert!(app.editor.flags.show_export);
}
