//! The interface languages, and the choice among them that the system's
//! locales ask for.
use crate::text::{
    ascii_alphabetic, ascii_digit, ascii_lower, ascii_lowered, chars_of, same_ignoring_ascii_case,
    same_text, string_of,
};
use unic_langid::LanguageIdentifier;
use vstd::prelude::*;

verus! {

/// The platform a build runs on.
#[derive(Debug, Clone, Copy, PartialEq, Eq, Structural)]
pub enum Target {
    /// A desktop window.
    Native,
    /// A browser tab.
    Web,
}

/// An interface language.
///
/// Every value names a message bundle; there is no "follow the system" value.
#[derive(Debug, Clone, Copy, PartialEq, Eq, Structural)]
pub enum LanguageChoice {
    English,
    Spanish,
    Portuguese,
    French,
    ChineseSimplified,
    Indonesian,
    Russian,
    Arabic,
    Farsi,
    Hindi,
    German,
    Italian,
    Polish,
    Turkish,
    Vietnamese,
    Mongolian,
    Swahili,
    Japanese,
    Korean,
    Ukrainian,
}

impl LanguageChoice {
    /// Every value, in the order the language menu lists them.
    pub const ALL: [LanguageChoice; 20] = [
        LanguageChoice::English,
        LanguageChoice::Spanish,
        LanguageChoice::Portuguese,
        LanguageChoice::French,
        LanguageChoice::ChineseSimplified,
        LanguageChoice::Indonesian,
        LanguageChoice::Russian,
        LanguageChoice::Arabic,
        LanguageChoice::Farsi,
        LanguageChoice::Hindi,
        LanguageChoice::German,
        LanguageChoice::Italian,
        LanguageChoice::Polish,
        LanguageChoice::Turkish,
        LanguageChoice::Vietnamese,
        LanguageChoice::Mongolian,
        LanguageChoice::Swahili,
        LanguageChoice::Japanese,
        LanguageChoice::Korean,
        LanguageChoice::Ukrainian,
    ];

    /// Whether a build for `target` holds fonts for the language's script. The
    /// web build leaves the Arabic, Devanagari and CJK faces out.
    pub open spec fn available(self, target: Target) -> bool {
        target == Target::Native || !(self is ChineseSimplified || self is Arabic || self is Farsi
            || self is Hindi || self is Japanese || self is Korean)
    }

    /// The language's name for itself.
    pub open spec fn endonym_text(self) -> Seq<char> {
        match self {
            LanguageChoice::English => "English"@,
            LanguageChoice::Spanish => "Español"@,
            LanguageChoice::Portuguese => "Português"@,
            LanguageChoice::French => "Français"@,
            LanguageChoice::ChineseSimplified => "简体中文"@,
            LanguageChoice::Indonesian => "Bahasa Indonesia"@,
            LanguageChoice::Russian => "Русский"@,
            LanguageChoice::Arabic => "العربية"@,
            LanguageChoice::Farsi => "فارسی"@,
            LanguageChoice::Hindi => "हिन्दी"@,
            LanguageChoice::German => "Deutsch"@,
            LanguageChoice::Italian => "Italiano"@,
            LanguageChoice::Polish => "Polski"@,
            LanguageChoice::Turkish => "Türkçe"@,
            LanguageChoice::Vietnamese => "Tiếng Việt"@,
            LanguageChoice::Mongolian => "Монгол"@,
            LanguageChoice::Swahili => "Kiswahili"@,
            LanguageChoice::Japanese => "日本語"@,
            LanguageChoice::Korean => "한국어"@,
            LanguageChoice::Ukrainian => "Українська"@,
        }
    }

    /// The tag of the bundle the choice selects.
    pub open spec fn tag_text(self) -> Seq<char> {
        match self {
            LanguageChoice::English => "en"@,
            LanguageChoice::Spanish => "es"@,
            LanguageChoice::Portuguese => "pt"@,
            LanguageChoice::French => "fr"@,
            LanguageChoice::ChineseSimplified => "zh"@,
            LanguageChoice::Indonesian => "id"@,
            LanguageChoice::Russian => "ru"@,
            LanguageChoice::Arabic => "ar"@,
            LanguageChoice::Farsi => "fa"@,
            LanguageChoice::Hindi => "hi"@,
            LanguageChoice::German => "de"@,
            LanguageChoice::Italian => "it"@,
            LanguageChoice::Polish => "pl"@,
            LanguageChoice::Turkish => "tr"@,
            LanguageChoice::Vietnamese => "vi"@,
            LanguageChoice::Mongolian => "mn"@,
            LanguageChoice::Swahili => "sw"@,
            LanguageChoice::Japanese => "ja"@,
            LanguageChoice::Korean => "ko"@,
            LanguageChoice::Ukrainian => "uk"@,
        }
    }

    /// Whether a build for `target` can draw the language.
    pub fn is_available(self, target: Target) -> (yes: bool)
        ensures
            yes == self.available(target),
    {
        match target {
            Target::Native => true,
            Target::Web => match self {
                LanguageChoice::ChineseSimplified
                | LanguageChoice::Arabic
                | LanguageChoice::Farsi
                | LanguageChoice::Hindi
                | LanguageChoice::Japanese
                | LanguageChoice::Korean => false,
                _ => true,
            },
        }
    }

    /// This choice, or English where the build cannot draw it: settings written
    /// by the desktop application can name a language the web build lacks.
    pub fn or_available(self, target: Target) -> (choice: LanguageChoice)
        ensures
            choice == (if self.available(target) {
                self
            } else {
                LanguageChoice::English
            }),
    {
        if self.is_available(target) {
            self
        } else {
            LanguageChoice::English
        }
    }

    /// How the language names itself, in its own script. Never translated:
    /// someone who cannot read the running language has to find their own.
    pub fn endonym(self) -> (name: &'static str)
        ensures
            name@ == self.endonym_text(),
    {
        match self {
            LanguageChoice::English => "English",
            LanguageChoice::Spanish => "Español",
            LanguageChoice::Portuguese => "Português",
            LanguageChoice::French => "Français",
            LanguageChoice::ChineseSimplified => "简体中文",
            LanguageChoice::Indonesian => "Bahasa Indonesia",
            LanguageChoice::Russian => "Русский",
            LanguageChoice::Arabic => "العربية",
            LanguageChoice::Farsi => "فارسی",
            LanguageChoice::Hindi => "हिन्दी",
            LanguageChoice::German => "Deutsch",
            LanguageChoice::Italian => "Italiano",
            LanguageChoice::Polish => "Polski",
            LanguageChoice::Turkish => "Türkçe",
            LanguageChoice::Vietnamese => "Tiếng Việt",
            LanguageChoice::Mongolian => "Монгол",
            LanguageChoice::Swahili => "Kiswahili",
            LanguageChoice::Japanese => "日本語",
            LanguageChoice::Korean => "한국어",
            LanguageChoice::Ukrainian => "Українська",
        }
    }

    /// The tag of the bundle this choice selects.
    pub fn lang_id(self) -> (tag: &'static str)
        ensures
            tag@ == self.tag_text(),
    {
        match self {
            LanguageChoice::English => "en",
            LanguageChoice::Spanish => "es",
            LanguageChoice::Portuguese => "pt",
            LanguageChoice::French => "fr",
            LanguageChoice::ChineseSimplified => "zh",
            LanguageChoice::Indonesian => "id",
            LanguageChoice::Russian => "ru",
            LanguageChoice::Arabic => "ar",
            LanguageChoice::Farsi => "fa",
            LanguageChoice::Hindi => "hi",
            LanguageChoice::German => "de",
            LanguageChoice::Italian => "it",
            LanguageChoice::Polish => "pl",
            LanguageChoice::Turkish => "tr",
            LanguageChoice::Vietnamese => "vi",
            LanguageChoice::Mongolian => "mn",
            LanguageChoice::Swahili => "sw",
            LanguageChoice::Japanese => "ja",
            LanguageChoice::Korean => "ko",
            LanguageChoice::Ukrainian => "uk",
        }
    }
}

/// No two languages share a bundle.
pub proof fn tags_are_distinct(a: LanguageChoice, b: LanguageChoice)
    requires
        a.tag_text() == b.tag_text(),
    ensures
        a == b,
{
    lemma_tag_letters(a);
    lemma_tag_letters(b);
}

/// The two letters of each tag, as one number.
spec fn tag_code(choice: LanguageChoice) -> int {
    match choice {
        LanguageChoice::English => 13038,
        LanguageChoice::Spanish => 13043,
        LanguageChoice::Portuguese => 14452,
        LanguageChoice::French => 13170,
        LanguageChoice::ChineseSimplified => 15720,
        LanguageChoice::Indonesian => 13540,
        LanguageChoice::Russian => 14709,
        LanguageChoice::Arabic => 12530,
        LanguageChoice::Farsi => 13153,
        LanguageChoice::Hindi => 13417,
        LanguageChoice::German => 12901,
        LanguageChoice::Italian => 13556,
        LanguageChoice::Polish => 14444,
        LanguageChoice::Turkish => 14962,
        LanguageChoice::Vietnamese => 15209,
        LanguageChoice::Mongolian => 14062,
        LanguageChoice::Swahili => 14839,
        LanguageChoice::Japanese => 13665,
        LanguageChoice::Korean => 13807,
        LanguageChoice::Ukrainian => 15083,
    }
}

proof fn lemma_tag_letters(choice: LanguageChoice)
    ensures
        choice.tag_text().len() == 2,
        choice.tag_text()[0] as int * 128 + choice.tag_text()[1] as int == tag_code(choice),
        forall|i: int| 0 <= i < 2 ==> 'a' <= #[trigger] choice.tag_text()[i] <= 'z',
{
    reveal_strlit("en");
    reveal_strlit("es");
    reveal_strlit("pt");
    reveal_strlit("fr");
    reveal_strlit("zh");
    reveal_strlit("id");
    reveal_strlit("ru");
    reveal_strlit("ar");
    reveal_strlit("fa");
    reveal_strlit("hi");
    reveal_strlit("de");
    reveal_strlit("it");
    reveal_strlit("pl");
    reveal_strlit("tr");
    reveal_strlit("vi");
    reveal_strlit("mn");
    reveal_strlit("sw");
    reveal_strlit("ja");
    reveal_strlit("ko");
    reveal_strlit("uk");
}

/// No two languages name themselves alike, so that everyone finds their own.
pub proof fn endonyms_are_distinct(a: LanguageChoice, b: LanguageChoice)
    requires
        a.endonym_text() == b.endonym_text(),
    ensures
        a == b,
{
    lemma_endonym_letters(a);
    lemma_endonym_letters(b);
}

/// The first two letters of each endonym, and how many it has.
spec fn endonym_letters(choice: LanguageChoice) -> (int, int, int) {
    match choice {
        LanguageChoice::English => (69, 110, 7),
        LanguageChoice::Spanish => (69, 115, 7),
        LanguageChoice::Portuguese => (80, 111, 9),
        LanguageChoice::French => (70, 114, 8),
        LanguageChoice::ChineseSimplified => (31616, 20307, 4),
        LanguageChoice::Indonesian => (66, 97, 16),
        LanguageChoice::Russian => (1056, 1091, 7),
        LanguageChoice::Arabic => (1575, 1604, 7),
        LanguageChoice::Farsi => (1601, 1575, 5),
        LanguageChoice::Hindi => (2361, 2367, 6),
        LanguageChoice::German => (68, 101, 7),
        LanguageChoice::Italian => (73, 116, 8),
        LanguageChoice::Polish => (80, 111, 6),
        LanguageChoice::Turkish => (84, 252, 6),
        LanguageChoice::Vietnamese => (84, 105, 10),
        LanguageChoice::Mongolian => (1052, 1086, 6),
        LanguageChoice::Swahili => (75, 105, 9),
        LanguageChoice::Japanese => (26085, 26412, 3),
        LanguageChoice::Korean => (54620, 44397, 3),
        LanguageChoice::Ukrainian => (1059, 1082, 10),
    }
}

proof fn lemma_endonym_letters(choice: LanguageChoice)
    ensures
        ({
            let text = choice.endonym_text();
            (text[0] as int, text[1] as int, text.len() as int) == endonym_letters(choice)
        }),
{
    reveal_strlit("English");
    reveal_strlit("Español");
    reveal_strlit("Português");
    reveal_strlit("Français");
    reveal_strlit("简体中文");
    reveal_strlit("Bahasa Indonesia");
    reveal_strlit("Русский");
    reveal_strlit("العربية");
    reveal_strlit("فارسی");
    reveal_strlit("हिन्दी");
    reveal_strlit("Deutsch");
    reveal_strlit("Italiano");
    reveal_strlit("Polski");
    reveal_strlit("Türkçe");
    reveal_strlit("Tiếng Việt");
    reveal_strlit("Монгол");
    reveal_strlit("Kiswahili");
    reveal_strlit("日本語");
    reveal_strlit("한국어");
    reveal_strlit("Українська");
}

/// The language that `unic_langid` reads out of a language tag, in small
/// letters; `None` where it does not take the text for a tag.
pub uninterp spec fn language_of_tag(tag: Seq<char>) -> Option<Seq<char>>;

/// How many characters of a tag come before its first separator.
pub open spec fn subtag_length(tag: Seq<char>) -> nat
    decreases tag.len(),
{
    if tag.len() == 0 || tag[0] == '-' || tag[0] == '_' {
        0
    } else {
        1 + subtag_length(tag.drop_first())
    }
}

/// What stands before the first separator of a tag.
pub open spec fn first_subtag(tag: Seq<char>) -> Seq<char> {
    tag.take(subtag_length(tag) as int)
}

/// Letters only.
pub open spec fn all_letters(s: Seq<char>) -> bool {
    forall|i: int| 0 <= i < s.len() ==> ascii_alphabetic(#[trigger] s[i])
}

/// Digits only.
pub open spec fn all_digits(s: Seq<char>) -> bool {
    forall|i: int| 0 <= i < s.len() ==> ascii_digit(#[trigger] s[i])
}

/// A language of two or three letters.
pub open spec fn plain_language(s: Seq<char>) -> bool {
    2 <= s.len() <= 3 && all_letters(s)
}

/// A script of four letters.
pub open spec fn plain_script(s: Seq<char>) -> bool {
    s.len() == 4 && all_letters(s)
}

/// A region of two letters or three digits.
pub open spec fn plain_region(s: Seq<char>) -> bool {
    (s.len() == 2 && all_letters(s)) || (s.len() == 3 && all_digits(s))
}

/// A language, with a script or a region or both behind it.
pub open spec fn plain_tag(tag: Seq<char>) -> bool {
    ||| plain_language(tag)
    ||| exists|l: Seq<char>, r: Seq<char>|
        plain_language(l) && (plain_region(r) || plain_script(r)) && tag == #[trigger] (l.push('-')
            + r)
    ||| exists|l: Seq<char>, s: Seq<char>, r: Seq<char>|
        plain_language(l) && plain_script(s) && plain_region(r) && tag == #[trigger] ((l.push('-')
            + s).push('-') + r)
}

/// `LanguageIdentifier`'s parser, and the language subtag of what it read. The
/// answer depends on the text alone. Where there is one, it is what stands
/// before the first separator, in small letters; and there is one for a plain
/// language with a script or a region behind it. Which variants it takes is not
/// stated.
#[verifier::external_body]
pub(crate) fn parse_language(tag: &str) -> (language: Option<String>)
    ensures
        crate::text::text_of(language) == language_of_tag(tag@),
        language is Some ==> language->0@ == ascii_lowered(first_subtag(tag@)),
        plain_tag(tag@) ==> language is Some,
{
    tag.parse::<LanguageIdentifier>().ok().map(|id| id.language.as_str().to_owned())
}

/// How many characters of a locale come before its encoding and modifier.
pub open spec fn name_length(locale: Seq<char>) -> nat
    decreases locale.len(),
{
    if locale.len() == 0 || locale[0] == '.' || locale[0] == '@' {
        0
    } else {
        1 + name_length(locale.drop_first())
    }
}

/// A locale without its encoding and modifier: `en_US` of `en_US.UTF-8`.
pub open spec fn locale_name(locale: Seq<char>) -> Seq<char> {
    locale.take(name_length(locale) as int)
}

/// `C` and `POSIX` name no language.
pub open spec fn names_no_language(name: Seq<char>) -> bool {
    ascii_lowered(name) == ascii_lowered("c"@) || ascii_lowered(name) == ascii_lowered("posix"@)
}

/// `s` with a hyphen for each underscore.
pub open spec fn hyphenated(s: Seq<char>) -> Seq<char> {
    s.map_values(
        |c: char|
            if c == '_' {
                '-'
            } else {
                c
            },
    )
}

/// The language a platform locale asks for.
pub open spec fn requested_language(locale: Seq<char>) -> Option<Seq<char>> {
    if names_no_language(locale_name(locale)) {
        None
    } else {
        language_of_tag(hyphenated(locale_name(locale)))
    }
}

proof fn lemma_name_length(locale: Seq<char>, n: int)
    requires
        0 <= n <= locale.len(),
        forall|i: int| 0 <= i < n ==> locale[i] != '.' && locale[i] != '@',
        n < locale.len() ==> locale[n] == '.' || locale[n] == '@',
    ensures
        name_length(locale) == n,
    decreases locale.len(),
{
    if n > 0 {
        let rest = locale.drop_first();
        assert forall|i: int| 0 <= i < n - 1 implies rest[i] != '.' && rest[i] != '@' by {
            assert(rest[i] == locale[i + 1]);
        }
        if n < locale.len() {
            assert(rest[n - 1] == locale[n]);
        }
        lemma_name_length(rest, n - 1);
    }
}

/// The tag a platform locale spells: its name, with hyphens for underscores.
/// `None` for `C` and `POSIX`, which mean no language.
pub fn locale_tag(locale: &str) -> (tag: Option<String>)
    ensures
        tag is None <==> names_no_language(locale_name(locale@)),
        tag is Some ==> tag->0@ == hyphenated(locale_name(locale@)),
{
    let chars: Vec<char> = chars_of(locale);
    let mut n: usize = 0;
    while n < chars.len() && chars[n] != '.' && chars[n] != '@'
        invariant
            n <= chars@.len(),
            chars@ == locale@,
            forall|i: int| 0 <= i < n ==> chars@[i] != '.' && chars@[i] != '@',
        decreases chars.len() - n,
    {
        n += 1;
    }
    proof {
        lemma_name_length(locale@, n as int);
    }
    let name: String = string_of(&chars, 0, n);
    if same_ignoring_ascii_case(name.as_str(), "c") || same_ignoring_ascii_case(
        name.as_str(),
        "posix",
    ) {
        return None;
    }
    let mut tag: String = String::new();
    let mut i: usize = 0;
    while i < n
        invariant
            i <= n <= chars@.len(),
            chars@ == locale@,
            tag@ == hyphenated(locale@.take(i as int)),
        decreases n - i,
    {
        let c: char = if chars[i] == '_' {
            '-'
        } else {
            chars[i]
        };
        tag.push(c);
        proof {
            assert(hyphenated(locale@.take(i + 1)) =~= hyphenated(locale@.take(i as int)).push(c));
        }
        i += 1;
    }
    Some(tag)
}

/// The language that a platform locale such as `en_US.UTF-8` asks for.
pub fn parse_system_language(locale: &str) -> (language: Option<String>)
    ensures
        crate::text::text_of(language) == requested_language(locale@),
        language is Some ==> language->0@ == plain_locale_language(locale@),
        plain_locale(locale@) ==> language is Some,
{
    match locale_tag(locale) {
        Some(tag) => parse_language(tag.as_str()),
        None => None,
    }
}

proof fn lemma_name_ends(locale: Seq<char>)
    ensures
        name_length(locale) <= locale.len(),
        forall|i: int|
            0 <= i < name_length(locale) ==> (#[trigger] locale[i]) != '.' && locale[i] != '@',
        name_length(locale) < locale.len() ==> locale[name_length(locale) as int] == '.'
            || locale[name_length(locale) as int] == '@',
    decreases locale.len(),
{
    if locale.len() > 0 && locale[0] != '.' && locale[0] != '@' {
        let rest = locale.drop_first();
        lemma_name_ends(rest);
        let n = name_length(rest) as int;
        assert forall|i: int| 0 <= i < name_length(locale) implies (#[trigger] locale[i]) != '.'
            && locale[i] != '@' by {
            if i > 0 {
                assert(rest[i - 1] == locale[i]);
            }
        }
        if n < rest.len() {
            assert(rest[n] == locale[n + 1]);
        }
    }
}

/// An encoding or a modifier behind a locale does not change the language that it
/// asks for: `en_US.UTF-8` and `en_US@euro` ask for what `en_US` does.
pub proof fn suffixes_do_not_count(locale: Seq<char>, suffix: Seq<char>)
    requires
        suffix.len() > 0,
        suffix[0] == '.' || suffix[0] == '@',
    ensures
        requested_language(locale + suffix) == requested_language(locale),
{
    let whole = locale + suffix;
    let n = name_length(locale) as int;
    lemma_name_ends(locale);
    assert forall|i: int| 0 <= i < n implies whole[i] != '.' && whole[i] != '@' by {
        assert(whole[i] == locale[i]);
    }
    if n < locale.len() {
        assert(whole[n] == locale[n]);
    } else {
        assert(whole[n] == suffix[0]);
    }
    lemma_name_length(whole, n);
    assert(locale_name(whole) =~= locale_name(locale));
}

/// A locale asks for the same language whether underscores or hyphens part it.
pub proof fn underscores_are_hyphens(locale: Seq<char>)
    ensures
        requested_language(hyphenated(locale)) == requested_language(locale),
{
    let written = hyphenated(locale);
    let n = name_length(locale) as int;
    lemma_name_ends(locale);
    assert forall|i: int| 0 <= i < n implies written[i] != '.' && written[i] != '@' by {
        assert(locale[i] != '.' && locale[i] != '@');
    }
    lemma_name_length(written, n);
    let name = locale_name(locale);
    assert(locale_name(written) =~= hyphenated(name));
    assert(hyphenated(hyphenated(name)) =~= hyphenated(name));
    lemma_hyphens_name_no_language(name);
}

proof fn lemma_hyphens_name_no_language(name: Seq<char>)
    ensures
        names_no_language(hyphenated(name)) == names_no_language(name),
{
    let written = hyphenated(name);
    if exists|i: int| 0 <= i < name.len() && name[i] == '_' {
        let i = choose|i: int| 0 <= i < name.len() && name[i] == '_';
        lemma_marks_name_a_language(name, i);
        lemma_marks_name_a_language(written, i);
    } else {
        assert(written =~= name);
    }
}

proof fn lemma_marks_name_a_language(name: Seq<char>, i: int)
    requires
        0 <= i < name.len(),
        name[i] == '_' || name[i] == '-',
    ensures
        !names_no_language(name),
{
    reveal_strlit("c");
    reveal_strlit("posix");
    let lowered = ascii_lowered(name);
    assert(lowered.len() == name.len());
    assert(lowered[i] == name[i]);
    if lowered == ascii_lowered("c"@) {
        assert(ascii_lowered("c"@).len() == 1);
        assert(lowered[i] == ascii_lower("c"@[i]));
    }
    if lowered == ascii_lowered("posix"@) {
        assert(ascii_lowered("posix"@).len() == 5);
        assert(lowered[i] == ascii_lower("posix"@[i]));
    }
}

/// A locale that names a language with at most a script and a region behind it.
pub open spec fn plain_locale(locale: Seq<char>) -> bool {
    !names_no_language(locale_name(locale)) && plain_tag(hyphenated(locale_name(locale)))
}

/// The language that such a locale names, in small letters.
pub open spec fn plain_locale_language(locale: Seq<char>) -> Seq<char> {
    ascii_lowered(first_subtag(hyphenated(locale_name(locale))))
}

/// A plainly written locale asks for the language that it names.
pub open spec fn read_plainly(locale: Seq<char>) -> bool {
    plain_locale(locale) ==> requested_language(locale) == Some(plain_locale_language(locale))
}

/// The languages that a list of locales asks for, in order. The web build does
/// not consult the browser's.
pub open spec fn requested_languages(locales: Seq<Seq<char>>, target: Target) -> Seq<Seq<char>>
    decreases locales.len(),
{
    if target == Target::Web || locales.len() == 0 {
        Seq::empty()
    } else {
        let before = requested_languages(locales.drop_last(), target);
        match requested_language(locales.last()) {
            Some(language) => before.push(language),
            None => before,
        }
    }
}

/// The languages that the system's locales ask for, in order.
pub fn system_languages(locales: &Vec<String>, target: Target) -> (languages: Vec<String>)
    ensures
        crate::text::texts(languages@) == requested_languages(
            crate::text::texts(locales@),
            target,
        ),
        target == Target::Native && locales@.len() > 0 && plain_locale(locales@[0]@)
            ==> languages@.len() > 0 && languages@[0]@ == plain_locale_language(locales@[0]@),
        target == Target::Native ==> forall|i: int|
            0 <= i < locales@.len() ==> read_plainly((#[trigger] locales@[i])@),
{
    let mut languages: Vec<String> = Vec::new();
    let mut i: usize = 0;
    match target {
        Target::Web => {},
        Target::Native => {
            while i < locales.len()
                invariant
                    i <= locales@.len(),
                    target == Target::Native,
                    crate::text::texts(languages@) == requested_languages(
                        crate::text::texts(locales@).take(i as int),
                        target,
                    ),
                    i > 0 && plain_locale(locales@[0]@) ==> languages@.len() > 0
                        && languages@[0]@ == plain_locale_language(locales@[0]@),
                    forall|j: int| 0 <= j < i ==> read_plainly((#[trigger] locales@[j])@),
                decreases locales.len() - i,
            {
                let ghost before = languages@;
                let ghost seen = crate::text::texts(locales@).take(i + 1);
                proof {
                    assert(seen.drop_last() =~= crate::text::texts(locales@).take(i as int));
                    assert(seen.last() == locales@[i as int]@);
                }
                match parse_system_language(locales[i].as_str()) {
                    Some(language) => {
                        languages.push(language);
                        proof {
                            assert(crate::text::texts(languages@) =~= crate::text::texts(before).push(
                                language@,
                            ));
                        }
                    },
                    None => {},
                }
                i += 1;
            }
            proof {
                assert(crate::text::texts(locales@).take(i as int) =~= crate::text::texts(locales@));
            }
        },
    }
    proof {
        if target == Target::Web {
            assert(crate::text::texts(languages@) =~= Seq::<Seq<char>>::empty());
        }
    }
    languages
}

/// `choice` is a language of that name that a build for `target` can draw.
pub open spec fn serves(choice: LanguageChoice, language: Seq<char>, target: Target) -> bool {
    choice.available(target) && choice.tag_text() == language
}

/// The first of the requested languages that is bundled; English if none is.
pub open spec fn first_bundled(requested: Seq<Seq<char>>, target: Target) -> LanguageChoice
    decreases requested.len(),
{
    if requested.len() == 0 {
        LanguageChoice::English
    } else if exists|choice: LanguageChoice| serves(choice, requested[0], target) {
        choose|choice: LanguageChoice| serves(choice, requested[0], target)
    } else {
        first_bundled(requested.drop_first(), target)
    }
}

/// Every language stands in the list of them all.
proof fn lemma_all_listed(choice: LanguageChoice) -> (i: int)
    ensures
        0 <= i < 20,
        LanguageChoice::ALL@[i] == choice,
{
    match choice {
        LanguageChoice::English => 0,
        LanguageChoice::Spanish => 1,
        LanguageChoice::Portuguese => 2,
        LanguageChoice::French => 3,
        LanguageChoice::ChineseSimplified => 4,
        LanguageChoice::Indonesian => 5,
        LanguageChoice::Russian => 6,
        LanguageChoice::Arabic => 7,
        LanguageChoice::Farsi => 8,
        LanguageChoice::Hindi => 9,
        LanguageChoice::German => 10,
        LanguageChoice::Italian => 11,
        LanguageChoice::Polish => 12,
        LanguageChoice::Turkish => 13,
        LanguageChoice::Vietnamese => 14,
        LanguageChoice::Mongolian => 15,
        LanguageChoice::Swahili => 16,
        LanguageChoice::Japanese => 17,
        LanguageChoice::Korean => 18,
        LanguageChoice::Ukrainian => 19,
    }
}

/// The bundled language of that name that a build for `target` can draw.
pub fn bundled_language(language: &str, target: Target) -> (choice: Option<LanguageChoice>)
    ensures
        choice is Some ==> serves(choice->0, language@, target),
        choice is None ==> forall|c: LanguageChoice| !serves(c, language@, target),
{
    let all: [LanguageChoice; 20] = LanguageChoice::ALL;
    let mut i: usize = 0;
    while i < 20
        invariant
            i <= 20,
            all@ == LanguageChoice::ALL@,
            all@.len() == 20,
            forall|j: int| 0 <= j < i ==> !serves(#[trigger] all@[j], language@, target),
        decreases 20 - i,
    {
        let candidate: LanguageChoice = all[i];
        if candidate.is_available(target) && same_text(candidate.lang_id(), language) {
            return Some(candidate);
        }
        i += 1;
    }
    proof {
        assert forall|c: LanguageChoice| !serves(c, language@, target) by {
            let j = lemma_all_listed(c);
            assert(!serves(all@[j], language@, target));
        }
    }
    None
}

/// The first of the requested languages that is bundled; English if none is.
pub fn choose_language(requested: &Vec<String>, target: Target) -> (choice: LanguageChoice)
    ensures
        choice == first_bundled(crate::text::texts(requested@), target),
{
    let ghost wanted = crate::text::texts(requested@);
    let mut i: usize = 0;
    proof {
        assert(wanted.skip(0) =~= wanted);
    }
    while i < requested.len()
        invariant
            i <= requested@.len(),
            wanted == crate::text::texts(requested@),
            first_bundled(wanted, target) == first_bundled(wanted.skip(i as int), target),
        decreases requested.len() - i,
    {
        let ghost rest = wanted.skip(i as int);
        match bundled_language(requested[i].as_str(), target) {
            Some(choice) => {
                proof {
                    assert(rest[0] == requested@[i as int]@);
                    assert(serves(choice, rest[0], target));
                    tags_are_distinct(choice, first_bundled(rest, target));
                }
                return choice;
            },
            None => {
                proof {
                    assert(rest[0] == requested@[i as int]@);
                    assert(rest.drop_first() =~= wanted.skip(i + 1));
                }
            },
        }
        i += 1;
    }
    LanguageChoice::English
}

/// A locale that no bundled language comes of: it names no language, or plainly
/// one that is not bundled.
pub open spec fn passed_over(locale: Seq<char>, target: Target) -> bool {
    ||| names_no_language(locale_name(locale))
    ||| plain_locale(locale) && forall|choice: LanguageChoice|
        !serves(choice, plain_locale_language(locale), target)
}

/// What a list of locales asks for is what its parts do.
proof fn lemma_requested_parts(locales: Seq<Seq<char>>, k: int, target: Target)
    requires
        0 <= k <= locales.len(),
    ensures
        requested_languages(locales, target) == requested_languages(locales.take(k), target)
            + requested_languages(locales.skip(k), target),
    decreases locales.len(),
{
    let whole = requested_languages(locales, target);
    if k == locales.len() {
        assert(locales.take(k) =~= locales);
        assert(whole =~= whole + requested_languages(locales.skip(k), target));
    } else {
        let before = locales.drop_last();
        lemma_requested_parts(before, k, target);
        assert(before.take(k) =~= locales.take(k));
        assert(before.skip(k) =~= locales.skip(k).drop_last());
        assert(locales.skip(k).last() == locales.last());
        assert(whole =~= requested_languages(locales.take(k), target) + requested_languages(
            locales.skip(k),
            target,
        ));
    }
}

/// What the first locale asks for comes first.
proof fn lemma_first_locale(locales: Seq<Seq<char>>, target: Target)
    requires
        target == Target::Native,
        locales.len() > 0,
    ensures
        requested_languages(locales, target) == (match requested_language(locales[0]) {
            Some(language) => seq![language],
            None => Seq::<Seq<char>>::empty(),
        }) + requested_languages(locales.skip(1), target),
{
    let one = locales.take(1);
    lemma_requested_parts(locales, 1, target);
    assert(one.last() == locales[0]);
    assert(one.drop_last() =~= Seq::<Seq<char>>::empty());
    assert(requested_languages(one.drop_last(), target) =~= Seq::<Seq<char>>::empty());
    assert(requested_languages(one, target) =~= match requested_language(locales[0]) {
        Some(language) => seq![language],
        None => Seq::<Seq<char>>::empty(),
    });
}

/// Locales that are passed over do not count.
proof fn lemma_passed_over(locales: Seq<Seq<char>>, k: int, target: Target)
    requires
        0 <= k <= locales.len(),
        forall|j: int|
            0 <= j < k ==> read_plainly(#[trigger] locales[j]) && passed_over(locales[j], target),
    ensures
        first_bundled(requested_languages(locales, target), target) == first_bundled(
            requested_languages(locales.skip(k), target),
            target,
        ),
    decreases k,
{
    if k == 0 {
        assert(locales.skip(0) =~= locales);
    } else {
        lemma_passed_over(locales, k - 1, target);
        let rest = locales.skip(k - 1);
        let requested = requested_languages(rest, target);
        let after = requested_languages(locales.skip(k), target);
        assert(rest.skip(1) =~= locales.skip(k));
        assert(rest[0] == locales[k - 1]);
        if target == Target::Native {
            lemma_first_locale(rest, target);
            match requested_language(locales[k - 1]) {
                Some(language) => {
                    assert(requested[0] == language);
                    assert(requested.drop_first() =~= after);
                    unbundled_requests_are_skipped(requested, target);
                },
                None => {
                    assert(requested =~= after);
                },
            }
        }
    }
}

impl LanguageChoice {
    /// The first bundled language the system asks for, ignoring region and
    /// script: `ru-RU` and `ru` both pick Russian. English when it names none.
    pub fn from_system_locale(locales: &Vec<String>, target: Target) -> (choice: LanguageChoice)
        ensures
            choice == first_bundled(
                requested_languages(crate::text::texts(locales@), target),
                target,
            ),
            forall|k: int, c: LanguageChoice|
                #![trigger locales@[k], c.tag_text()]
                target == Target::Native && 0 <= k < locales@.len() && (forall|j: int|
                    0 <= j < k ==> passed_over((#[trigger] locales@[j])@, target)) && plain_locale(
                    locales@[k]@,
                ) && c.tag_text() == plain_locale_language(locales@[k]@) ==> choice == c,
            (forall|j: int|
                0 <= j < locales@.len() ==> passed_over((#[trigger] locales@[j])@, target))
                ==> choice == LanguageChoice::English,
            target == Target::Web ==> choice == LanguageChoice::English,
    {
        let requested: Vec<String> = system_languages(locales, target);
        let choice: LanguageChoice = choose_language(&requested, target);
        proof {
            let given = crate::text::texts(locales@);
            assert forall|k: int, c: LanguageChoice|
                #![trigger locales@[k], c.tag_text()]
                target == Target::Native && 0 <= k < locales@.len() && (forall|j: int|
                    0 <= j < k ==> passed_over((#[trigger] locales@[j])@, target)) && plain_locale(
                    locales@[k]@,
                ) && c.tag_text() == plain_locale_language(locales@[k]@) implies choice == c by {
                assert forall|j: int| 0 <= j < k implies read_plainly(#[trigger] given[j])
                    && passed_over(given[j], target) by {
                    assert(given[j] == locales@[j]@);
                }
                lemma_passed_over(given, k, target);
                let rest = given.skip(k);
                let wanted = requested_languages(rest, target);
                lemma_first_locale(rest, target);
                assert(rest[0] == locales@[k]@);
                assert(read_plainly(locales@[k]@));
                assert(wanted[0] == c.tag_text());
                first_request_wins(c, wanted, target);
            }
            if target == Target::Native && forall|j: int|
                0 <= j < locales@.len() ==> passed_over((#[trigger] locales@[j])@, target) {
                assert forall|j: int| 0 <= j < given.len() implies read_plainly(
                    #[trigger] given[j],
                ) && passed_over(given[j], target) by {
                    assert(given[j] == locales@[j]@);
                }
                lemma_passed_over(given, given.len() as int, target);
            }
        }
        choice
    }
}

/// Whatever the system asks for, the language chosen is one the build can draw.
pub proof fn chosen_language_is_available(requested: Seq<Seq<char>>, target: Target)
    ensures
        first_bundled(requested, target).available(target),
    decreases requested.len(),
{
    if requested.len() > 0 {
        if exists|choice: LanguageChoice| serves(choice, requested[0], target) {
        } else {
            chosen_language_is_available(requested.drop_first(), target);
        }
    }
}

/// A bundled language that is asked for first is the one chosen, whatever else
/// is asked for after it.
pub proof fn first_request_wins(choice: LanguageChoice, requested: Seq<Seq<char>>, target: Target)
    requires
        requested.len() > 0,
        choice.available(target),
        requested[0] == choice.tag_text(),
    ensures
        first_bundled(requested, target) == choice,
{
    assert(serves(choice, requested[0], target));
    tags_are_distinct(choice, first_bundled(requested, target));
}

/// Requests for languages that are not bundled do not count.
pub proof fn unbundled_requests_are_skipped(requested: Seq<Seq<char>>, target: Target)
    requires
        requested.len() > 0,
        forall|choice: LanguageChoice| !serves(choice, requested[0], target),
    ensures
        first_bundled(requested, target) == first_bundled(requested.drop_first(), target),
{
}

} // verus!
