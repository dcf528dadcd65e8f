//! What comes back from the browser.
use incline_design::app::{App, BrowserProject, GraphicsState};
use incline_design::browser::{
    browser_source_filename, browser_source_name, BrowserSave, GraphicsOutcome, SaveFollowUp, SaveStep, SaveTask,
    SnapshotMark,
};
use incline_design::config::{Config, Preferences};
use incline_design::editor::EditorState;
use incline_design::effects::{Effect, Notice, NoticeKind};
use incline_design::language::{LanguageChoice, Target};
use incline_design::model::{
    ColorBits, ItemState, OpenItem, SectionKind, TriangulationDetail,
};
use incline_design::pacing::SurfaceSize;
use incline_design::project::{Document, Folders, OpenProject, ProjectPath, ProjectPersistence};
use incline_design::saves::AppEvent;
use incline_design::startup::Stored;

fn preferences() -> Preferences {
    Preferences {
        dark_mode: true,
        show_console: false,
        panel_chrome: 0,
        show_world_axis_gizmo: true,
        show_scale_bar: true,
        renderer_background_color: ColorBits { r: 0, g: 0, b: 0, a: 0 },
        snap_poll_rate: 60,
        vsync_enabled: true,
        frame_rate_cap: 144,
        resize_frame_rate_cap: 60,
        block_model_interaction_resolution_divisor: 4,
        show_block_model_boundary_highlights: false,
        downscale_raster_previews: true,
        frame_counter_enabled: false,
        debug_surface_chunks: false,
        debug_clip_planes: false,
        debug_point_cloud_chunks: false,
        plan_invert_vertical_look: false,
        plan_invert_horizontal_look: false,
        plan_zoom_towards_cursor: true,
        fly_invert_vertical_look: false,
        fly_invert_horizontal_look: false,
    }
}

fn app(target: Target) -> App<u8> {
    App::default(target, EditorState::new(preferences(), LanguageChoice::English))
}

fn project(id: u64, name: &str) -> OpenProject {
    OpenProject {
        runtime_id: 0,
        id,
        path: None,
        name: name.to_string(),
        name_rank: id,
        path_rank: 0,
        persistence: ProjectPersistence::Native,
        lossy_save_warnings: Vec::new(),
        lossy_save_confirmed: false,
        unsaved: false,
        content_epoch: 0,
        savepoint_revision: 0,
        dirty_layers: Vec::new(),
        document: Document::new(),
        folders: Folders::new(),
    }
}

fn state(epoch: u64, saved_epoch: u64, loaded: bool) -> ItemState {
    ItemState {
        epoch,
        saved_epoch,
        loaded,
        deferred: false,
        style: 7,
        source_name: "source".to_string(),
        folder: None,
        section: SectionKind::Triangulations,
        summary: None,
    }
}

fn triangulation(id: u64, name: &str, rank: u64) -> OpenItem<TriangulationDetail> {
    OpenItem {
        id,
        name: name.to_string(),
        name_rank: rank,
        state: state(0, 0, true),
        detail: TriangulationDetail {
            raster_texture: None,
            color: ColorBits { r: 1, g: 2, b: 3, a: 4 },
        },
    }
}

fn page() -> App<u8> {
    let mut page = app(Target::Web);
    page.outbox.clear();
    page
}

fn notify(kind: NoticeKind, detail: &str) -> Effect {
    Effect::Notify(Notice { kind, detail: detail.to_string() })
}

fn stored(id: u64, name: &str) -> BrowserProject {
    BrowserProject { id, name: name.to_string(), name_rank: id }
}

fn save(app: &App<u8>, failure: Option<&str>) -> BrowserSave {
    BrowserSave {
        runtime_id: 1,
        project_id: 77,
        asset_token: app.project_asset_save_token(),
        workspace: app.workspace_generation,
        mark: SnapshotMark { unsaved: false, savepoint_revision: 3, dirty_layers: Vec::new() },
        failure: failure.map(|reason| reason.to_string()),
    }
}

fn follow_up(saved: bool, replace: bool) -> SaveFollowUp {
    SaveFollowUp { runtime_id: 1, saved, replace, next: Some(SaveTask::Replace) }
}

#[test]
fn stored_projects_are_read_as_files() {
    assert_eq!(browser_source_name("pit"), "pit.omf");
    assert_eq!(browser_source_name("pit.omf"), "pit.omf");
    assert_eq!(browser_source_name("pit.omf.omf"), "pit.omf");
    assert_eq!(browser_source_name(".omf"), ".omf");
    assert_eq!(browser_source_name("pit.om"), "pit.om.omf");
    assert_eq!(browser_source_name(""), ".omf");
}

#[test]
fn dropped_files_have_a_name() {
    assert_eq!(browser_source_filename("a.csv"), "a.csv");
    assert_eq!(browser_source_filename("survey/2024/a.csv"), "a.csv");
    assert_eq!(browser_source_filename("survey/.a"), ".a");
    assert_eq!(browser_source_filename("survey/2024/"), "2024");
    assert_eq!(browser_source_filename("survey/./"), "survey");
    assert_eq!(browser_source_filename(""), "browser-file");
    assert_eq!(browser_source_filename("/"), "browser-file");
    assert_eq!(browser_source_filename("survey/.."), "browser-file");
    assert_eq!(browser_source_filename("."), "browser-file");
}

#[test]
fn file_names_are_the_last_components() {
    for name in [
        "a", "a/b", "a//b", "/a", "/a/", "a/.", "a/./.", "./a", "./.", "/.", "..", "a/..", "../a",
        "...", "a/...", ".a.", "a.", "a/b.", "a/ /", "//", "é/ü", "a\\b", "a/.b/", "./", "/..",
    ] {
        let expected = std::path::Path::new(name)
            .file_name()
            .map(|last| last.to_str().unwrap().to_string())
            .unwrap_or("browser-file".to_string());
        assert_eq!(browser_source_filename(name), expected, "{name}");
    }
}

#[test]
fn a_page_starts_without_a_project() {
    let editor = EditorState::new(preferences(), LanguageChoice::English);
    let page: App<u8> = App::web_new(editor, Stored::Absent, &vec![0], &vec![]);
    assert!(page.browser.event_loop_proxy);
    assert!(page.workspace.projects.is_empty());
    assert_eq!(
        page.outbox,
        vec![
            Effect::InitializeBrowserStorage,
            Effect::InstallBrowserGuards,
            Effect::LoadBrowserSession,
        ]
    );
}

#[test]
fn a_page_reads_its_settings() {
    let editor = EditorState::new(preferences(), LanguageChoice::English);
    let config = Config {
        workspace_order: Vec::new(),
        coordinate_systems: Vec::new(),
        mine_coordinate_system: None,
        language: LanguageChoice::German,
        preferences: preferences(),
        delay_products: Vec::new(),
    };
    let page: App<u8> = App::web_new(editor, Stored::Found(config), &vec![4, 5], &vec![]);
    assert_eq!(page.editor.language, LanguageChoice::German);
    assert_eq!(page.editor.workspace_order, vec![4, 5]);
    let editor = EditorState::new(preferences(), LanguageChoice::English);
    let page: App<u8> =
        App::web_new(editor, Stored::Unreadable("quota".to_string()), &vec![4], &vec![]);
    assert_eq!(page.outbox[1], notify(NoticeKind::BrowserPreferencesFailed, "quota"));
}

#[test]
fn the_renderer_is_started_once() {
    let mut page = page();
    page.browser.event_loop_proxy = true;
    page.web_graphics_initialization();
    page.web_graphics_initialization();
    assert_eq!(page.outbox, vec![Effect::SpawnGraphics]);
    assert_eq!(page.browser.graphics_state, GraphicsState::Initializing);
}

#[test]
fn the_renderer_needs_to_wake_the_loop() {
    let mut page = page();
    page.web_graphics_initialization();
    let reason = "browser event-loop is unavailable".to_string();
    assert_eq!(
        page.outbox,
        vec![Effect::Fail(reason.clone()), Effect::ShowStartupError(reason)]
    );
    assert_eq!(page.browser.graphics_state, GraphicsState::Failed);
    assert!(page.lifecycle.close_requested);
}

#[test]
fn the_renderer_runs_or_does_not() {
    let mut ready = page();
    ready.window_open = true;
    ready.graphics_initialization_finished(GraphicsOutcome::Ready(SurfaceSize {
        width: 3,
        height: 4,
    }));
    assert_eq!(
        ready.outbox,
        vec![Effect::ApplyPresentMode, Effect::ShowStartupReady, Effect::RequestRedraw]
    );
    assert_eq!(ready.browser.graphics_state, GraphicsState::Ready);
    let mut failed = page();
    failed.graphics_initialization_finished(GraphicsOutcome::Failed("no adapter".to_string()));
    assert_eq!(
        failed.outbox[0],
        Effect::Fail("failed to initialize WebGPU: no adapter".to_string())
    );
    let mut missing = page();
    missing.graphics_initialization_finished(GraphicsOutcome::Missing);
    assert_eq!(
        missing.outbox[1],
        Effect::ShowStartupError("graphics completion event had no result".to_string())
    );
    assert!(missing.lifecycle.close_requested);
}

#[test]
fn the_list_of_stored_projects_comes_in() {
    let mut page = page();
    page.browser_projects_restored(Ok(vec![stored(1, "a")]));
    assert_eq!(page.browser.stored.len(), 1);
    assert!(page.workspace.projects.is_empty());
    page.browser_projects_restored(Err("blocked".to_string()));
    assert_eq!(page.outbox, vec![notify(NoticeKind::BrowserRestoreFailed, "blocked")]);
    assert_eq!(page.browser.stored.len(), 1);
}

#[test]
fn a_stored_project_is_read_and_opened() {
    let mut page = page();
    let ticket = page.begin_topology_load();
    page.browser.loads_pending.insert(9);
    page.browser_project_loaded(9, ticket, Ok(true));
    assert_eq!(page.outbox, vec![Effect::OpenBrowserRecord(9)]);
    assert!(page.browser.loads_pending.contains(&9));
    assert!(!page.editor.flags.background_busy);

    page.set_active_project(project(0, "bundle"));
    page.outbox.clear();
    page.browser_record_opened(9, Ok((9, "pit".to_string())));
    assert!(!page.browser.loads_pending.contains(&9));
    assert_eq!(page.workspace.projects[0].id, 9);
    assert_eq!(page.workspace.projects[0].persistence, ProjectPersistence::BrowserRecord(9));
    assert_eq!(
        page.outbox,
        vec![Effect::PersistSession, notify(NoticeKind::BrowserActivated, "pit")]
    );
    assert_eq!(page.session_record(), Some(9));
}

#[test]
fn a_stored_project_may_be_gone_or_unreadable() {
    let mut page = page();
    let ticket = page.begin_topology_load();
    page.browser.loads_pending.insert(9);
    page.browser_project_loaded(9, ticket, Ok(false));
    assert!(page.browser.loads_pending.is_empty());
    let ticket = page.begin_topology_load();
    page.browser.loads_pending.insert(9);
    page.browser_project_loaded(9, ticket, Err("torn".to_string()));
    assert!(page.browser.loads_pending.is_empty());
    page.browser_record_opened(9, Err("version".to_string()));
    assert_eq!(
        page.outbox,
        vec![
            notify(NoticeKind::BrowserProjectGone, ""),
            notify(NoticeKind::BrowserLoadFailed, "torn"),
            notify(NoticeKind::BrowserActivationFailed, "version"),
        ]
    );
    assert_eq!(page.session_record(), None);
}

#[test]
fn a_save_leaves_the_project_stored_and_clean() {
    let mut page = page();
    let mut open = project(5, "pit");
    open.unsaved = true;
    open.path = Some(ProjectPath { id: 1, stem: None });
    open.lossy_save_warnings.push("textures".to_string());
    open.lossy_save_confirmed = true;
    page.set_active_project(open);
    page.items.triangulations.push(triangulation(1, "t", 0));
    page.items.triangulations[0].state.epoch = 2;
    page.browser.saves_pending.insert(1);
    page.browser.stored.push(stored(77, "old name"));
    page.outbox.clear();
    assert!(page.project_content_is_dirty(1));
    let done = save(&page, None);
    assert_eq!(page.browser_project_saved(done), SaveStep::Proceed(follow_up(true, false)));
    assert!(!page.project_content_is_dirty(1));
    assert!(page.browser.saves_pending.is_empty());
    let saved = &page.workspace.projects[0];
    assert_eq!(saved.id, 77);
    assert_eq!(saved.persistence, ProjectPersistence::BrowserRecord(77));
    assert!(saved.path.is_none());
    assert!(saved.lossy_save_warnings.is_empty());
    assert!(!saved.lossy_save_confirmed);
    assert_eq!(saved.savepoint_revision, 3);
    assert_eq!(page.browser.stored.len(), 1);
    assert_eq!(page.browser.stored[0].name, "pit");
    assert_eq!(
        page.outbox,
        vec![notify(NoticeKind::BrowserSaved, "pit"), Effect::PersistSession]
    );
}

#[test]
fn a_project_saved_for_the_first_time_is_listed() {
    let mut page = page();
    page.set_active_project(project(5, "pit"));
    page.browser.stored.push(stored(3, "other"));
    let done = save(&page, None);
    page.browser_project_saved(done);
    let names: Vec<&str> = page.browser.stored.iter().map(|p| p.name.as_str()).collect();
    assert_eq!(names, vec!["other", "pit"]);
}

#[test]
fn a_save_of_a_replaced_project_changes_nothing() {
    let mut page = page();
    page.set_active_project(project(5, "old"));
    let late = save(&page, None);
    let failed = save(&page, Some("quota"));
    page.set_active_project(project(6, "new"));
    page.browser.saves_pending.insert(1);
    page.outbox.clear();
    assert_eq!(page.browser_project_saved(late), SaveStep::Stale);
    assert!(page.outbox.is_empty());
    assert_eq!(page.browser_project_saved(failed), SaveStep::Stale);
    assert_eq!(page.outbox, vec![notify(NoticeKind::BrowserSaveFailed, "quota")]);
    assert!(page.browser.saves_pending.contains(&1));
    assert_eq!(page.workspace.projects[0].id, 6);
}

#[test]
fn what_waited_for_a_save_goes_on() {
    let mut page = page();
    page.set_active_project(project(5, "pit"));
    page.lifecycle.project_replacement_after_save = true;
    page.editor.pending_close_project = Some(1);
    page.browser.delete_after_save.insert(1);
    let done = save(&page, None);
    assert_eq!(page.browser_project_saved(done), SaveStep::Proceed(follow_up(true, true)));
    assert!(page.closes_after_save(1));
    assert!(!page.closes_after_save(2));
    assert!(page.closes_after(1, true));
    assert!(!page.closes_after(1, false));
    assert!(!page.closes_after(2, true));
    assert!(page.take_delete_after_save(1));
    assert!(!page.take_delete_after_save(1));
    page.outbox.clear();
    page.replacement_failed("a".to_string());
    page.delete_refused("b".to_string());
    assert_eq!(
        page.outbox,
        vec![
            notify(NoticeKind::ReplacementFailed, "a"),
            notify(NoticeKind::BrowserDeleteRefused, "b"),
        ]
    );
}

#[test]
fn what_waited_for_a_save_is_done_in_order() {
    let mut page = page();
    page.set_active_project(project(5, "pit"));
    page.editor.pending_close_project = Some(1);
    page.browser.delete_after_save.insert(1);
    page.browser.delete_after_save.insert(2);
    let mut follow = follow_up(true, true);
    assert_eq!(page.next_after_save(&mut follow), Some(SaveTask::Replace));
    assert_eq!(page.next_after_save(&mut follow), Some(SaveTask::Close));
    assert!(page.browser.delete_after_save.contains(&1));
    assert_eq!(page.next_after_save(&mut follow), Some(SaveTask::Delete));
    assert!(!page.browser.delete_after_save.contains(&1));
    assert!(page.browser.delete_after_save.contains(&2));
    assert_eq!(page.next_after_save(&mut follow), Some(SaveTask::Leave));
    assert_eq!(page.next_after_save(&mut follow), None);
    assert_eq!(page.next_after_save(&mut follow), None);
}

#[test]
fn a_task_is_looked_at_after_those_before_it() {
    let mut page = page();
    page.set_active_project(project(5, "pit"));
    page.editor.pending_close_project = Some(1);
    let mut follow = follow_up(true, true);
    assert_eq!(page.next_after_save(&mut follow), Some(SaveTask::Replace));
    page.editor.pending_close_project = None;
    assert_eq!(page.next_after_save(&mut follow), Some(SaveTask::Leave));
    assert_eq!(page.next_after_save(&mut follow), None);
}

#[test]
fn a_failed_save_closes_nothing() {
    let mut page = page();
    page.set_active_project(project(5, "pit"));
    page.lifecycle.project_replacement_after_save = true;
    page.editor.pending_close_project = Some(1);
    page.browser.delete_after_save.insert(1);
    let failed = save(&page, Some("quota"));
    let SaveStep::Proceed(mut follow) = page.browser_project_saved(failed) else {
        panic!("the project is there");
    };
    assert_eq!(page.next_after_save(&mut follow), Some(SaveTask::Delete));
    assert_eq!(page.next_after_save(&mut follow), Some(SaveTask::Leave));
    assert_eq!(page.next_after_save(&mut follow), None);
}

#[test]
fn a_failed_save_asks_again() {
    let mut page = page();
    let mut open = project(5, "pit");
    open.unsaved = true;
    open.lossy_save_warnings.push("textures".to_string());
    open.lossy_save_confirmed = true;
    page.set_active_project(open);
    page.lifecycle.project_replacement_after_save = true;
    page.outbox.clear();
    let failed = save(&page, Some("quota"));
    assert_eq!(page.browser_project_saved(failed), SaveStep::Proceed(follow_up(false, false)));
    assert!(!page.lifecycle.project_replacement_after_save);
    assert!(page.editor.flags.replace_project_confirm_open);
    assert!(page.editor.flags.lossy_save_confirm_open);
    assert!(!page.workspace.projects[0].lossy_save_confirmed);
    assert!(page.workspace.projects[0].unsaved);
    assert_eq!(page.outbox, vec![notify(NoticeKind::BrowserSaveFailed, "quota")]);
}

#[test]
fn a_failed_save_of_nothing_lossy_asks_nothing() {
    let mut page = page();
    page.set_active_project(project(5, "pit"));
    page.outbox.clear();
    let failed = save(&page, Some("quota"));
    page.browser_project_saved(failed);
    assert!(!page.editor.flags.replace_project_confirm_open);
    assert!(!page.editor.flags.lossy_save_confirm_open);
}

#[test]
fn a_deleted_project_is_closed_and_forgotten() {
    let mut page = page();
    page.set_active_project(project(5, "pit"));
    page.browser.stored = vec![stored(5, "pit"), stored(6, "b"), stored(5, "twin")];
    page.browser.deletes_pending.insert(5);
    page.outbox.clear();
    page.browser_project_deleted(5, Some(1), None);
    let ids: Vec<u64> = page.browser.stored.iter().map(|p| p.id).collect();
    assert_eq!(ids, vec![6]);
    assert!(page.browser.deletes_pending.is_empty());
    assert_eq!(
        page.outbox,
        vec![
            Effect::CloseProject(1),
            Effect::PersistSession,
            notify(NoticeKind::BrowserDeleted, ""),
        ]
    );
    page.outbox.clear();
    page.browser_project_deleted(6, Some(2), None);
    assert_eq!(
        page.outbox,
        vec![Effect::PersistSession, notify(NoticeKind::BrowserDeleted, "")]
    );
}

#[test]
fn a_project_that_was_not_deleted_stays() {
    let mut page = page();
    page.browser.stored = vec![stored(5, "pit")];
    page.browser.deletes_pending.insert(5);
    page.browser_project_deleted(5, None, Some("busy".to_string()));
    assert_eq!(page.browser.stored.len(), 1);
    assert!(page.browser.deletes_pending.is_empty());
    assert_eq!(page.outbox, vec![notify(NoticeKind::BrowserDeleteFailed, "busy")]);
}

#[test]
fn pasted_text_goes_to_the_renderer() {
    let mut page = page();
    page.browser_clipboard_pasted("x".to_string());
    assert!(page.outbox.is_empty());
    assert!(!page.pacing.redraw_requested);
    page.surface = Some(SurfaceSize { width: 1, height: 1 });
    page.browser_clipboard_pasted("x".to_string());
    assert_eq!(page.outbox, vec![Effect::QueuePaste("x".to_string())]);
    assert!(page.pacing.redraw_requested);
}

#[test]
fn a_session_that_was_not_written_is_told_of() {
    let mut page = page();
    page.session_save_failed("quota".to_string());
    assert_eq!(page.outbox, vec![notify(NoticeKind::BrowserSessionSaveFailed, "quota")]);
    let mut desktop = app(Target::Native);
    desktop.session_save_failed("disk full".to_string());
    assert_eq!(desktop.outbox, vec![notify(NoticeKind::SessionSaveFailed, "disk full")]);
}

#[test]
fn events_reach_what_they_are_about() {
    let mut page = page();
    let size = SurfaceSize { width: 3, height: 4 };
    let ready = AppEvent::GraphicsInitializationFinished(GraphicsOutcome::Ready(size));
    assert_eq!(page.user_event(ready), None);
    assert_eq!(page.surface, Some(size));

    let listed = AppEvent::BrowserProjectsRestored(Ok(vec![stored(77, "old"), stored(8, "b")]));
    assert_eq!(page.user_event(listed), None);
    assert_eq!(page.browser.stored.len(), 2);

    let ticket = page.begin_topology_load();
    page.browser.loads_pending.insert(9);
    page.outbox.clear();
    let loaded =
        AppEvent::BrowserProjectLoaded { project_id: 9, ticket, result: Ok(true) };
    assert_eq!(page.user_event(loaded), None);
    assert_eq!(page.outbox, vec![Effect::OpenBrowserRecord(9)]);
    assert!(!page.editor.flags.background_busy);

    page.set_active_project(project(5, "pit"));
    page.lifecycle.project_replacement_after_save = true;
    page.outbox.clear();
    let saved = AppEvent::BrowserProjectSaved(save(&page, None));
    assert_eq!(page.user_event(saved), Some(SaveStep::Proceed(follow_up(true, true))));
    assert_eq!(page.browser.stored[0].name, "pit");
    let mut late = save(&page, None);
    late.workspace = late.workspace.wrapping_sub(1);
    assert_eq!(page.user_event(AppEvent::BrowserProjectSaved(late)), Some(SaveStep::Stale));

    page.outbox.clear();
    let deleted = AppEvent::BrowserProjectDeleted {
        project_id: 77,
        runtime_id: Some(1),
        failure: None,
    };
    assert_eq!(page.user_event(deleted), None);
    assert_eq!(page.browser.stored.len(), 1);
    assert_eq!(page.outbox[0], Effect::CloseProject(1));

    page.outbox.clear();
    let pasted = AppEvent::BrowserClipboardPasted("1,2".to_string());
    assert_eq!(page.user_event(pasted), None);
    assert_eq!(page.outbox, vec![Effect::QueuePaste("1,2".to_string())]);
}
