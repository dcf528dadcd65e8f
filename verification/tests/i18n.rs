//! Translation of source literals.
use i18n_embed::fluent::FluentLanguageLoader;
use i18n_embed::{I18nAssets, LanguageLoader};
use incline_design::effects::{Level, Notice, NoticeKind};
use incline_design::i18n::{
    fill_placeholders, literal_hash, literal_id, selection_report, tr_format, tr_literal,
    translated_literal,
};
use std::borrow::Cow;

struct Catalogue {
    text: String,
}

impl I18nAssets for Catalogue {
    fn get_files(&self, file_path: &str) -> Vec<Cow<'_, [u8]>> {
        if file_path == "en/incline_design.ftl" {
            vec![Cow::Borrowed(self.text.as_bytes())]
        } else {
            Vec::new()
        }
    }

    fn filenames_iter(&self) -> Box<dyn Iterator<Item = String> + '_> {
        Box::new(std::iter::once("en/incline_design.ftl".to_string()))
    }
}

fn english() -> unic_langid::LanguageIdentifier {
    "en".parse().unwrap()
}

fn loader_with(text: &str) -> FluentLanguageLoader {
    let loader = FluentLanguageLoader::new("incline_design", english());
    let catalogue = Catalogue { text: text.to_string() };
    loader.load_languages(&catalogue, &[english()]).unwrap();
    loader
}

#[test]
fn ids_are_words_and_a_hash() {
    assert_eq!(literal_id("Apply"), "literal-apply-b8f855b49234b81b");
    assert_eq!(literal_id("Frame rate"), "literal-frame-rate-8be13012c2c30e80");
    assert_eq!(literal_id("A--B  c!"), "literal-a-b-c-3246af42c40b13b0");
    assert_eq!(literal_id(" FPS"), "literal-fps-ee68a4737ec03586");
}

#[test]
fn ids_without_words_are_a_hash() {
    assert_eq!(literal_id(""), "literal-cbf29ce484222325");
    assert_eq!(literal_id("…"), "literal-5640821b8850f21b");
}

#[test]
fn the_hash_is_fixed() {
    assert_eq!(literal_hash(""), 0xcbf2_9ce4_8422_2325);
    assert_eq!(literal_hash("Project"), 0x2820_49f5_02ea_c1de);
}

#[test]
fn one_character_changes_the_id() {
    assert_ne!(literal_id("Apply"), literal_id("apply"));
    assert_ne!(literal_id("Apply!"), literal_id("Apply?"));
}

#[test]
fn a_missing_entry_shows_the_source() {
    assert_eq!(translated_literal(" FPS", "No localization for id: \"literal-fps\""), " FPS");
}

#[test]
fn a_translation_keeps_the_padding_of_its_source() {
    assert_eq!(translated_literal(" FPS", "BPS"), " BPS");
    assert_eq!(translated_literal("Major ", "  Haupt "), "Haupt ");
    assert_eq!(translated_literal("Apply", "Anwenden"), "Anwenden");
}

#[test]
fn catalogues_are_asked_for_literals() {
    let loader = loader_with("literal-apply-b8f855b49234b81b = Anwenden\n");
    assert_eq!(tr_literal(&loader, "Apply"), "Anwenden");
    assert_eq!(tr_literal(&loader, "Frame rate"), "Frame rate");
}

#[test]
fn placeholders_are_filled_after_the_translation() {
    let id = literal_id("Loading %name%…");
    let loader = loader_with(&format!("{id} = %name% wird geladen\n"));
    let text =
        tr_format(&loader, "Loading %name%…", &vec!["name".to_string()], &vec!["a.omf".to_string()]);
    assert_eq!(text, "a.omf wird geladen");
}

#[test]
fn placeholders_are_filled_one_name_after_the_other() {
    let names = vec!["a".to_string(), "b".to_string()];
    let values = vec!["%b%".to_string(), "x".to_string()];
    assert_eq!(fill_placeholders("%a%-%b%".to_string(), &names, &values), "x-x");
}

#[test]
fn notices_are_told_with_their_detail() {
    let loader = loader_with("other = x\n");
    let notice = Notice { kind: NoticeKind::SessionLoadFailed, detail: "denied".to_string() };
    assert_eq!(notice.message(&loader), "Failed to load session file: denied");
    assert_eq!(notice.kind.level(), Level::Warning);
    let notice = Notice { kind: NoticeKind::BrowserSaved, detail: "Pit 4".to_string() };
    assert_eq!(notice.message(&loader), "Saved 'Pit 4' to browser storage");
    assert_eq!(notice.kind.level(), Level::Message);
    let notice = Notice { kind: NoticeKind::BrowserDeleted, detail: String::new() };
    assert_eq!(notice.message(&loader), "Deleted browser project");
    let notice = Notice { kind: NoticeKind::GraphicsFailed, detail: "no adapter".to_string() };
    assert_eq!(notice.message(&loader), "Failed to initialize graphics: no adapter");
    assert_eq!(notice.kind.level(), Level::Error);
}

#[test]
fn every_notice_has_its_text() {
    let kinds = [
        (NoticeKind::SessionLoadFailed, "Failed to load session file: x"),
        (NoticeKind::ConfigLoadFailed, "Failed to load config file: x"),
        (NoticeKind::BrowserPreferencesFailed, "Failed to load browser preferences: x"),
        (NoticeKind::BrowserRestoreFailed, "Could not restore the browser project: x"),
        (NoticeKind::BrowserActivationFailed, "Could not activate browser project: x"),
        (NoticeKind::BrowserLoadFailed, "Could not load the browser project: x"),
        (NoticeKind::BrowserProjectGone, "That browser project no longer exists"),
        (NoticeKind::BrowserSaveFailed, "Browser save failed: x"),
        (NoticeKind::ReplacementFailed, "Could not replace the current project: x"),
        (NoticeKind::BrowserDeleteRefused, "Could not delete browser project: x"),
        (NoticeKind::BrowserDeleteFailed, "Browser project deletion failed: x"),
        (NoticeKind::BrowserActivated, "Activated browser project 'x'."),
        (NoticeKind::BrowserSaved, "Saved 'x' to browser storage"),
        (NoticeKind::BrowserDeleted, "Deleted browser project"),
        (NoticeKind::WindowFailed, "Failed to create window: x"),
        (NoticeKind::GraphicsFailed, "Failed to initialize graphics: x"),
        (NoticeKind::SlicePreviewFailed, "Failed to detach top-down preview: x"),
        (NoticeKind::IconDrawingFailed, "Failed to rasterize window icon: x"),
        (NoticeKind::IconRefused, "Failed to create window icon: x"),
    ];
    let loader = loader_with("other = x\n");
    for (kind, text) in kinds {
        let notice = Notice { kind, detail: "x".to_string() };
        assert_eq!(notice.message(&loader), text);
    }
}

#[test]
fn a_language_that_cannot_be_selected_is_a_warning() {
    let loader = loader_with("other = x\n");
    let failure = Some("no bundle".to_string());
    let report = selection_report(&loader, failure, "en".to_string(), "[en, fr]".to_string());
    assert_eq!(report.warning, Some("Could not select a language: no bundle".to_string()));
    assert_eq!(report.message, "Active language is en (bundled: [en, fr])");
    let report = selection_report(&loader, None, "fr".to_string(), "[en, fr]".to_string());
    assert_eq!(report.warning, None);
    assert_eq!(report.message, "Active language is fr (bundled: [en, fr])");
}

#[test]
fn ids_end_in_sixteen_digits() {
    for source in ["", "--", " - a -- b - ", "Frame rate", "Ärger – ja"] {
        let id = literal_id(source);
        assert!(!id.contains("--"));
        let (stem, digits) = id.split_at(id.len() - 16);
        assert!(stem.ends_with('-'));
        assert!(digits.chars().all(|c| c.is_ascii_digit() || ('a'..='f').contains(&c)));
    }
}
