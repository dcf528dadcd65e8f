//! The bar at the bottom of the window.
use i18n_embed::fluent::FluentLanguageLoader;
use incline_design::language::{LanguageChoice, Target};
use incline_design::menu::UiCommand;
use incline_design::status_bar::{
    choose_language_row, draw_language_picker, draw_status_bar, status_items, status_message,
    ClipDistances, MessageValue, PointStats, Readings, StatusItem, StatusLabels, SurfaceStats,
};

fn readings() -> Readings {
    Readings {
        app_name: "Incline".to_string(),
        app_release: "1.2".to_string(),
        selected: 3,
        frame_counter_enabled: false,
        frame_rate: None,
        debug_surface_chunks: false,
        surface_stats: None,
        debug_clip_planes: false,
        clip_distances: None,
        debug_point_cloud_chunks: false,
        point_stats: None,
        axis_names: vec!["E".to_string(), "N".to_string(), "RL".to_string()],
        cursor: None,
        pointer_inside: true,
        pointer_over_panel: false,
    }
}

fn labels() -> StatusLabels {
    StatusLabels {
        frame_rate: "Bildrate".to_string(),
        no_faces: "Flächen: --".to_string(),
        no_clip: "Schnitt: --".to_string(),
        no_points: "Punkte: --".to_string(),
    }
}

fn describe(items: &[StatusItem]) -> Vec<String> {
    items
        .iter()
        .map(|item| match item {
            StatusItem::Text(text) => text.clone(),
            StatusItem::Separator => "|".to_string(),
            StatusItem::Selected(count) => format!("selected {count}"),
            StatusItem::Faces { drawn, total, drawn_chunks, total_chunks } => {
                format!("faces {drawn}/{total} {drawn_chunks}/{total_chunks}")
            }
            StatusItem::Clip { near, far, delta } => format!("clip {near} {far} {delta}"),
            StatusItem::Points { drawn, target, total, drawn_chunks, total_chunks } => {
                format!("points {drawn}/{target}/{total} {drawn_chunks}/{total_chunks}")
            }
            StatusItem::Coordinate(text) => format!("[{text}]"),
        })
        .collect()
}

#[test]
fn the_bar_names_the_application_and_the_selection() {
    let items = status_items(&readings(), &labels());
    assert_eq!(
        describe(&items),
        vec!["Incline 1.2", "|", "selected 3", "|", "[E: --]", "[N: --]", "[RL: --]"]
    );
}

#[test]
fn coordinates_are_grouped_before_the_point() {
    let mut r = readings();
    r.cursor =
        Some(vec!["1234567.89".to_string(), "-4321.00".to_string(), "12.50".to_string()]);
    let items = describe(&status_items(&r, &labels()));
    assert_eq!(items[4..], ["[E: 1,234,567.89]", "[N: -4,321.00]", "[RL: 12.50]"]);
    r.pointer_over_panel = true;
    let items = describe(&status_items(&r, &labels()));
    assert_eq!(items[4..], ["[E: --]", "[N: --]", "[RL: --]"]);
    r.pointer_over_panel = false;
    r.pointer_inside = false;
    let items = describe(&status_items(&r, &labels()));
    assert_eq!(items[4], "[E: --]");
}

#[test]
fn readouts_come_and_go() {
    let mut r = readings();
    r.frame_counter_enabled = true;
    r.debug_surface_chunks = true;
    r.debug_clip_planes = true;
    r.debug_point_cloud_chunks = true;
    let items = describe(&status_items(&r, &labels()));
    assert_eq!(
        items[4..12],
        ["Bildrate: --", "|", "Flächen: --", "|", "Schnitt: --", "|", "Punkte: --", "|"]
    );
    r.frame_rate = Some("60".to_string());
    r.surface_stats = Some(SurfaceStats {
        drawn_faces: 1000,
        total_faces: 2345678,
        drawn_chunks: 1,
        total_chunks: 2000,
    });
    r.clip_distances = Some(ClipDistances {
        near: "0.100".to_string(),
        far: "9.000".to_string(),
        delta: "8.900".to_string(),
    });
    r.point_stats = Some(PointStats {
        drawn: 999,
        target: 1000,
        total: 1000000,
        drawn_chunks: 3,
        total_chunks: 4,
    });
    let items = describe(&status_items(&r, &labels()));
    assert_eq!(
        items[4..12],
        [
            "Bildrate: 60",
            "|",
            "faces 1,000/2,345,678 1/2000",
            "|",
            "clip 0.100 9.000 8.900",
            "|",
            "points 999/1,000/1,000,000 3/4",
            "|",
        ]
    );
}

#[test]
fn without_a_catalogue_the_bar_is_in_its_source_language() {
    let loader = FluentLanguageLoader::new("incline_design", "en".parse().unwrap());
    let mut r = readings();
    r.frame_counter_enabled = true;
    r.debug_clip_planes = true;
    let items = describe(&draw_status_bar(&loader, &r));
    assert_eq!(items[4], "Frame rate: --");
    assert_eq!(items[6], "Clip near/far/Δ: -- / -- / --");
}

#[test]
fn the_picker_offers_what_the_build_can_draw() {
    let rows = draw_language_picker(LanguageChoice::German, Target::Web);
    assert_eq!(rows.len(), 14);
    assert_eq!(rows[0].label, "English");
    assert!(!rows[0].checked);
    let ticked: Vec<&str> = rows.iter().filter(|row| row.checked).map(|row| row.label).collect();
    assert_eq!(ticked, vec!["Deutsch"]);
    assert_eq!(draw_language_picker(LanguageChoice::German, Target::Native).len(), 20);
    assert_eq!(
        choose_language_row(&rows[1]),
        UiCommand::SetLanguage(LanguageChoice::Spanish)
    );
}

#[test]
fn messages_have_an_id_and_named_values() {
    let number = MessageValue::Number;
    let text = |text: &str| MessageValue::Text(text.to_string());
    let Some(selected) = status_message(&StatusItem::Selected(3)) else {
        panic!("a message");
    };
    assert_eq!(selected.id, "status-selected");
    assert_eq!(selected.values, vec![("count", number(3))]);
    let faces = StatusItem::Faces {
        drawn: "1,000".to_string(),
        total: "2,000".to_string(),
        drawn_chunks: 4,
        total_chunks: 5,
    };
    let Some(faces) = status_message(&faces) else {
        panic!("a message");
    };
    assert_eq!(faces.id, "status-faces");
    assert_eq!(
        faces.values,
        vec![
            ("drawn", text("1,000")),
            ("total", text("2,000")),
            ("drawn_chunks", number(4)),
            ("total_chunks", number(5)),
        ]
    );
    let clip = StatusItem::Clip {
        near: "1".to_string(),
        far: "3".to_string(),
        delta: "2".to_string(),
    };
    let Some(clip) = status_message(&clip) else {
        panic!("a message");
    };
    assert_eq!(clip.id, "status-clip");
    assert_eq!(clip.values, vec![("near", text("1")), ("far", text("3")), ("delta", text("2"))]);
    let points = StatusItem::Points {
        drawn: "1".to_string(),
        target: "2".to_string(),
        total: "3".to_string(),
        drawn_chunks: 4,
        total_chunks: 5,
    };
    let Some(points) = status_message(&points) else {
        panic!("a message");
    };
    assert_eq!(points.id, "status-points");
    assert_eq!(
        points.values,
        vec![
            ("drawn", text("1")),
            ("target", text("2")),
            ("total", text("3")),
            ("drawn_chunks", number(4)),
            ("total_chunks", number(5)),
        ]
    );
    assert!(status_message(&StatusItem::Separator).is_none());
    assert!(status_message(&StatusItem::Text("x".to_string())).is_none());
    assert!(status_message(&StatusItem::Coordinate("E: --".to_string())).is_none());
}
