//! Languages: which a build has, and which the system asks for.
use incline_design::language::{
    bundled_language, choose_language, parse_system_language, system_languages, LanguageChoice,
    Target,
};

fn list(items: &[&str]) -> Vec<String> {
    items.iter().map(|item| item.to_string()).collect()
}

#[test]
fn the_web_build_lacks_six_scripts() {
    let missing: Vec<LanguageChoice> =
        LanguageChoice::ALL.into_iter().filter(|choice| !choice.is_available(Target::Web)).collect();
    assert_eq!(
        missing,
        vec![
            LanguageChoice::ChineseSimplified,
            LanguageChoice::Arabic,
            LanguageChoice::Farsi,
            LanguageChoice::Hindi,
            LanguageChoice::Japanese,
            LanguageChoice::Korean,
        ]
    );
    assert!(LanguageChoice::ALL.into_iter().all(|choice| choice.is_available(Target::Native)));
}

#[test]
fn a_language_the_build_lacks_becomes_english() {
    assert_eq!(LanguageChoice::Korean.or_available(Target::Web), LanguageChoice::English);
    assert_eq!(LanguageChoice::Korean.or_available(Target::Native), LanguageChoice::Korean);
    assert_eq!(LanguageChoice::Polish.or_available(Target::Web), LanguageChoice::Polish);
}

#[test]
fn languages_name_themselves() {
    assert_eq!(LanguageChoice::German.endonym(), "Deutsch");
    assert_eq!(LanguageChoice::ChineseSimplified.endonym(), "简体中文");
    assert_eq!(LanguageChoice::Ukrainian.endonym(), "Українська");
    assert_eq!(LanguageChoice::ALL[0].endonym(), "English");
}

#[test]
fn every_choice_has_its_own_tag() {
    for a in LanguageChoice::ALL {
        for b in LanguageChoice::ALL {
            assert_eq!(a.lang_id() == b.lang_id(), a == b);
        }
    }
    assert_eq!(LanguageChoice::ChineseSimplified.lang_id(), "zh");
    assert_eq!(LanguageChoice::Mongolian.lang_id(), "mn");
}

#[test]
fn locales_lose_encoding_and_modifier() {
    assert_eq!(parse_system_language("en_US.UTF-8").as_deref(), Some("en"));
    assert_eq!(parse_system_language("de_DE@euro").as_deref(), Some("de"));
    assert_eq!(parse_system_language("PT-br").as_deref(), Some("pt"));
    assert_eq!(parse_system_language("zh-Hans-CN").as_deref(), Some("zh"));
    assert_eq!(parse_system_language("sr_RS.UTF-8@latin").as_deref(), Some("sr"));
}

#[test]
fn locales_without_a_language_ask_for_none() {
    assert_eq!(parse_system_language("C"), None);
    assert_eq!(parse_system_language("c.UTF-8"), None);
    assert_eq!(parse_system_language("POSIX"), None);
    assert_eq!(parse_system_language(""), None);
    assert_eq!(parse_system_language("not a tag"), None);
}

#[test]
fn requests_are_kept_in_order() {
    assert_eq!(
        system_languages(&list(&["fr_FR", "C", "es-ES"]), Target::Native),
        list(&["fr", "es"])
    );
}

#[test]
fn bundles_are_found_by_language() {
    assert_eq!(bundled_language("ru", Target::Native), Some(LanguageChoice::Russian));
    assert_eq!(bundled_language("ja", Target::Web), None);
    assert_eq!(bundled_language("xx", Target::Native), None);
}

#[test]
fn the_first_request_with_a_bundle_wins() {
    assert_eq!(choose_language(&list(&["xx", "it", "fr"]), Target::Native), LanguageChoice::Italian);
    assert_eq!(choose_language(&list(&["ko", "pl"]), Target::Web), LanguageChoice::Polish);
    assert_eq!(choose_language(&list(&["xx"]), Target::Native), LanguageChoice::English);
    assert_eq!(choose_language(&list(&[]), Target::Native), LanguageChoice::English);
}

#[test]
fn the_system_locale_decides_at_first() {
    assert_eq!(
        LanguageChoice::from_system_locale(&list(&["pt_BR.UTF-8", "en_US"]), Target::Native),
        LanguageChoice::Portuguese
    );
    assert_eq!(
        LanguageChoice::from_system_locale(&list(&["C.UTF-8"]), Target::Native),
        LanguageChoice::English
    );
    // On a page the first launch is in English.
    assert_eq!(
        LanguageChoice::from_system_locale(&list(&["sw-KE"]), Target::Web),
        LanguageChoice::English
    );
}

#[test]
fn the_first_bundled_locale_decides() {
    assert_eq!(
        LanguageChoice::from_system_locale(
            &list(&["POSIX", "nl_NL.UTF-8", "sv", "uk_UA@euro", "fr"]),
            Target::Native
        ),
        LanguageChoice::Ukrainian
    );
    assert_eq!(
        LanguageChoice::from_system_locale(&list(&["nl", "sv_SE"]), Target::Native),
        LanguageChoice::English
    );
}

#[test]
fn the_spelling_of_a_locale_does_not_count() {
    for locale in ["pt_BR", "pt-BR", "pt_BR.UTF-8", "pt-BR@euro", "pt_BR.UTF-8@euro"] {
        assert_eq!(parse_system_language(locale).as_deref(), Some("pt"));
    }
}

#[test]
fn languages_name_themselves_apart() {
    for (i, a) in LanguageChoice::ALL.iter().enumerate() {
        for b in &LanguageChoice::ALL[i + 1..] {
            assert_ne!(a.endonym(), b.endonym());
        }
    }
}
