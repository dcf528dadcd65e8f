//! Words: text, numbers, names and languages.
use crate::browser::{
    behind_separator, browser_source_filename, browser_source_name, last_component, without_end,
    without_suffixes,
};
use crate::effects::{Channel, Level, NoticeKind};
use crate::i18n::{fill_placeholders, filled, slug};
use crate::language::{
    bundled_language, choose_language, hyphenated, locale_name, locale_tag, name_length,
    LanguageChoice, Target,
};
use crate::text::{
    ascii_alphanumeric, ascii_lower, decimal, decimal_text, grouped, hex_digits, hex_text,
    leading_space, number_with_commas, replace_all, replaced, same_ignoring_ascii_case,
    to_ascii_lower, trailing_space, trim, white_space,
};
use vstd::prelude::*;

verus! {

/// Only the white space around a text goes: what is left neither starts nor ends with
/// any, and what went was nothing else.
pub proof fn trimming_takes_the_space_around(text: &str, inner: String)
    requires
        call_ensures(trim, (text,), inner),
    ensures
        inner@.len() > 0 ==> !white_space(inner@[0]) && !white_space(inner@.last()),
        exists|a: int, b: int| #[trigger]
            inside(text@, inner@, a, b) && (forall|i: int|
                0 <= i < a ==> white_space(#[trigger] text@[i])) && forall|i: int|
                b <= i < text@.len() ==> white_space(#[trigger] text@[i]),
{
    let s = text@;
    lemma_lead(s);
    lemma_trail(s);
    crate::text::lemma_spaces_apart(s);
    if leading_space(s) == s.len() {
        assert(inner@ =~= s.subrange(s.len() as int, s.len() as int));
        assert(inside(s, inner@, s.len() as int, s.len() as int));
    } else {
        assert(inside(s, inner@, leading_space(s) as int, s.len() - trailing_space(s)));
    }
}

/// `inner` is what stands in `s` from `a` to `b`.
pub open spec fn inside(s: Seq<char>, inner: Seq<char>, a: int, b: int) -> bool {
    0 <= a <= b <= s.len() && inner == s.subrange(a, b)
}

proof fn lemma_lead(s: Seq<char>)
    ensures
        leading_space(s) <= s.len(),
        forall|i: int| 0 <= i < leading_space(s) ==> white_space(#[trigger] s[i]),
        leading_space(s) < s.len() ==> !white_space(s[leading_space(s) as int]),
    decreases s.len(),
{
    if s.len() > 0 && white_space(s[0]) {
        let rest = s.drop_first();
        lemma_lead(rest);
        assert forall|i: int| 0 <= i < leading_space(s) implies white_space(#[trigger] s[i]) by {
            if i > 0 {
                assert(rest[i - 1] == s[i]);
            }
        }
        if leading_space(s) < s.len() {
            assert(rest[leading_space(rest) as int] == s[leading_space(s) as int]);
        }
    }
}

proof fn lemma_trail(s: Seq<char>)
    ensures
        trailing_space(s) <= s.len(),
        forall|i: int|
            s.len() - trailing_space(s) <= i < s.len() ==> white_space(#[trigger] s[i]),
        trailing_space(s) < s.len() ==> !white_space(s[s.len() - trailing_space(s) - 1]),
    decreases s.len(),
{
    if s.len() > 0 && white_space(s.last()) {
        let rest = s.drop_last();
        lemma_trail(rest);
        assert forall|i: int| s.len() - trailing_space(s) <= i < s.len() implies white_space(
            #[trigger] s[i],
        ) by {
            if i < rest.len() {
                assert(rest[i] == s[i]);
            }
        }
        if trailing_space(s) < s.len() {
            assert(rest[rest.len() - trailing_space(rest) - 1] == s[s.len() - trailing_space(s)
                - 1]);
        }
    }
}

/// Among the ASCII characters, the blank and the controls from tab to carriage return
/// are white space, and no other.
pub proof fn blanks_are_white_space(c: char, yes: bool)
    requires
        call_ensures(crate::text::is_white_space, (c,), yes),
        (c as u32) < 0x80,
    ensures
        yes <==> c == ' ' || 9 <= c as u32 <= 13,
{
}

/// The number that digits stand for.
pub open spec fn number_of(digits: Seq<char>) -> int
    decreases digits.len(),
{
    if digits.len() == 0 {
        0
    } else {
        10 * number_of(digits.drop_last()) + (digits.last() as int - 48)
    }
}

/// Written in base ten, a number is read back as it was, in digits only and without
/// a nought before it.
pub proof fn numbers_are_read_back(value: u64, text: String)
    requires
        call_ensures(decimal_text, (value,), text),
    ensures
        number_of(text@) == value,
        text@.len() > 0,
        forall|i: int| 0 <= i < text@.len() ==> '0' <= #[trigger] text@[i] <= '9',
        text@.len() > 1 ==> text@[0] != '0',
{
    lemma_number(value as nat);
}

proof fn lemma_number(value: nat)
    ensures
        number_of(decimal(value)) == value,
        decimal(value).len() > 0,
        forall|i: int| 0 <= i < decimal(value).len() ==> '0' <= #[trigger] decimal(value)[i] <= '9',
        value > 0 ==> decimal(value)[0] != '0',
        value < 10 ==> decimal(value).len() == 1,
    decreases value,
{
    if value >= 10 {
        lemma_number(value / 10);
        let d = decimal(value);
        assert(d.drop_last() =~= decimal(value / 10));
    } else {
        let d = decimal(value);
        assert(d.drop_last() =~= Seq::<char>::empty());
        assert(number_of(d.drop_last()) == 0);
    }
}

/// The value of a digit in base sixteen.
pub open spec fn sixteenth(c: char) -> int {
    if '0' <= c <= '9' {
        c as int - 48
    } else {
        c as int - 87
    }
}

/// The number that digits in base sixteen stand for.
pub open spec fn hex_number_of(digits: Seq<char>) -> int
    decreases digits.len(),
{
    if digits.len() == 0 {
        0
    } else {
        16 * hex_number_of(digits.drop_last()) + sixteenth(digits.last())
    }
}

/// Sixteen to the power of `n`.
pub open spec fn sixteen_to(n: nat) -> int
    decreases n,
{
    if n == 0 {
        1
    } else {
        16 * sixteen_to((n - 1) as nat)
    }
}

/// Written in base sixteen, a number that the width has room for is read back as it
/// was, in as many digits and small letters as asked for.
pub proof fn hashes_are_read_back(value: u64, width: usize, text: String)
    requires
        call_ensures(hex_text, (value, width), text),
    ensures
        text@.len() == width,
        value < sixteen_to(width as nat) ==> hex_number_of(text@) == value,
        forall|i: int|
            0 <= i < text@.len() ==> '0' <= #[trigger] text@[i] <= '9' || 'a' <= text@[i] <= 'f',
{
    lemma_hex(value as nat, width as nat);
}

proof fn lemma_hex(value: nat, width: nat)
    ensures
        hex_digits(value, width).len() == width,
        value < sixteen_to(width) ==> hex_number_of(hex_digits(value, width)) == value,
        forall|i: int|
            0 <= i < hex_digits(value, width).len() ==> '0' <= #[trigger] hex_digits(
                value,
                width,
            )[i] <= '9' || 'a' <= hex_digits(value, width)[i] <= 'f',
    decreases width,
{
    if width > 0 {
        let less = (width - 1) as nat;
        lemma_hex(value / 16, less);
        assert(hex_digits(value, width).drop_last() =~= hex_digits(value / 16, less));
    }
}

/// A number with commas is the number once the commas are left out, and there is a
/// comma before every third digit from the right, and nowhere else.
pub proof fn commas_part_the_thousands(value: u64, text: String, plain: String, j: int)
    requires
        call_ensures(number_with_commas, (value,), text),
        call_ensures(decimal_text, (value,), plain),
    ensures
        text@.filter(not_comma()) == plain@,
        0 <= j < text@.len() ==> (text@[j] == ',' <==> (text@.len() - 1 - j) % 4 == 3),
{
    lemma_number(value as nat);
    crate::text::decimal_is_grouped_whole(value as nat);
    lemma_grouped(plain@, j);
}

/// Tells what is no comma.
pub open spec fn not_comma() -> spec_fn(char) -> bool {
    |c: char| c != ','
}

proof fn lemma_grouped(digits: Seq<char>, j: int)
    requires
        forall|i: int| 0 <= i < digits.len() ==> '0' <= #[trigger] digits[i] <= '9',
    ensures
        grouped(digits).filter(not_comma()) == digits,
        0 <= j < grouped(digits).len() ==> (grouped(digits)[j] == ',' <==> (grouped(digits).len()
            - 1 - j) % 4 == 3),
    decreases digits.len(),
{
    if digits.len() <= 3 {
        lemma_no_commas(digits);
    } else {
        let head = digits.take(digits.len() - 3);
        let tail = digits.skip(digits.len() - 3);
        lemma_grouped(head, j);
        lemma_no_commas(tail);
        let front = grouped(head).push(',');
        Seq::filter_distributes_over_add(front, tail, not_comma());
        assert(front.filter(not_comma()) == grouped(head).filter(not_comma())) by {
            reveal(Seq::filter);
            assert(front.drop_last() =~= grouped(head));
        }
        assert(head + tail =~= digits);
        assert(grouped(digits).len() == grouped(head).len() + 4);
        if 0 <= j < grouped(digits).len() {
            if j < grouped(head).len() {
                assert(grouped(digits)[j] == grouped(head)[j]);
            } else if j > grouped(head).len() {
                assert(grouped(digits)[j] == tail[j - grouped(head).len() - 1]);
                assert(tail[j - grouped(head).len() - 1] == digits[digits.len() - 3 + (j - grouped(
                    head,
                ).len() - 1)]);
            }
        }
    }
}

proof fn lemma_no_commas(s: Seq<char>)
    requires
        forall|i: int| 0 <= i < s.len() ==> '0' <= #[trigger] s[i] <= '9',
    ensures
        s.filter(not_comma()) == s,
    decreases s.len(),
{
    reveal(Seq::filter);
    if s.len() > 0 {
        lemma_no_commas(s.drop_last());
        assert(s[s.len() - 1] != ',');
        assert(s.drop_last().push(s.last()) =~= s);
    }
}

/// The first place where the pattern stands is replaced, what is before it stays, and
/// the rest is done in the same way.
pub proof fn the_first_match_is_replaced(
    text: &str,
    pattern: &str,
    with: &str,
    result: String,
    at: int,
)
    requires
        call_ensures(replace_all, (text, pattern, with), result),
        pattern@.len() > 0,
        0 <= at <= text@.len(),
        pattern@.is_prefix_of(text@.skip(at)),
        forall|i: int| 0 <= i < at ==> !pattern@.is_prefix_of(#[trigger] text@.skip(i)),
    ensures
        result@ == text@.take(at) + with@ + replaced(
            text@.skip(at + pattern@.len()),
            pattern@,
            with@,
        ),
{
    lemma_first_match(text@, pattern@, with@, at);
}

proof fn lemma_first_match(s: Seq<char>, pattern: Seq<char>, with: Seq<char>, at: int)
    requires
        pattern.len() > 0,
        0 <= at <= s.len(),
        pattern.is_prefix_of(s.skip(at)),
        forall|i: int| 0 <= i < at ==> !pattern.is_prefix_of(#[trigger] s.skip(i)),
    ensures
        replaced(s, pattern, with) == s.take(at) + with + replaced(
            s.skip(at + pattern.len()),
            pattern,
            with,
        ),
    decreases at,
{
    assert(s.skip(0) =~= s);
    if at == 0 {
        assert(s.take(0) =~= Seq::<char>::empty());
        assert(s.take(0) + with =~= with);
    } else {
        let rest = s.drop_first();
        assert(!pattern.is_prefix_of(s.skip(0)));
        assert(rest.skip(at - 1) =~= s.skip(at));
        assert forall|i: int| 0 <= i < at - 1 implies !pattern.is_prefix_of(
            #[trigger] rest.skip(i),
        ) by {
            assert(rest.skip(i) =~= s.skip(i + 1));
        }
        lemma_first_match(rest, pattern, with, at - 1);
        assert(rest.skip(at - 1 + pattern.len()) =~= s.skip(at + pattern.len()));
        assert(seq![s[0]] + rest.take(at - 1) =~= s.take(at));
        let end = replaced(s.skip(at + pattern.len()), pattern, with);
        assert(seq![s[0]] + (rest.take(at - 1) + with + end) =~= s.take(at) + with + end);
    }
}

/// A value goes to where its name stands between percent signs, and nothing before
/// that changes. A text without placeholders of these names stays as it is.
pub proof fn values_go_to_their_placeholders(
    text: String,
    names: &Vec<String>,
    values: &Vec<String>,
    result: String,
    at: int,
)
    requires
        call_ensures(fill_placeholders, (text, names, values), result),
        names@.len() == 1,
        values@.len() == 1,
        0 <= at <= text@.len(),
        forall|i: int|
            0 <= i < at ==> !(seq!['%'] + names@[0]@ + seq!['%']).is_prefix_of(
                #[trigger] text@.skip(i),
            ),
    ensures
        at == text@.len() ==> result@ == text@,
        (seq!['%'] + names@[0]@ + seq!['%']).is_prefix_of(text@.skip(at)) ==> result@.len() >= at
            + values@[0]@.len() && result@.take(at) == text@.take(at) && result@.subrange(
            at,
            at + values@[0]@.len(),
        ) == values@[0]@,
{
    let n = crate::text::texts(names@);
    let v = crate::text::texts(values@);
    let p = seq!['%'] + names@[0]@ + seq!['%'];
    assert(n.last() == names@[0]@ && v.last() == values@[0]@);
    assert(n.drop_last() =~= Seq::<Seq<char>>::empty());
    assert(v.drop_last() =~= Seq::<Seq<char>>::empty());
    assert(filled(text@, n.drop_last(), v.drop_last()) == text@);
    assert(result@ == replaced(text@, p, values@[0]@));
    if p.is_prefix_of(text@.skip(at)) {
        lemma_first_match(text@, p, values@[0]@, at);
        let rest = replaced(text@.skip(at + p.len()), p, values@[0]@);
        assert(result@.take(at) =~= text@.take(at));
        assert(result@.subrange(at, at + values@[0]@.len()) =~= values@[0]@);
    }
    if at == text@.len() {
        assert forall|i: int| 0 <= i <= text@.len() implies !p.is_prefix_of(
            #[trigger] text@.skip(i),
        ) by {
            if i == text@.len() {
                assert(text@.skip(i).len() == 0);
            }
        }
        crate::text::replacing_what_is_absent_changes_nothing(text@, p, values@[0]@);
    }
}

/// Capitals become the small letter of their name, and nothing else changes.
pub proof fn capitals_become_small(c: char, lower: char)
    requires
        call_ensures(to_ascii_lower, (c,), lower),
    ensures
        'A' <= c <= 'Z' ==> 'a' <= lower <= 'z' && lower as int - 'a' as int == c as int - 'A'
            as int,
        !('A' <= c <= 'Z') ==> lower == c,
{
}

/// Two texts are the same but for the case of letters exactly if they are of one
/// length and every two letters are equal or each other's capital.
pub proof fn case_is_all_that_may_differ(a: &str, b: &str, same: bool)
    requires
        call_ensures(same_ignoring_ascii_case, (a, b), same),
    ensures
        same <==> a@.len() == b@.len() && forall|i: int|
            0 <= i < a@.len() ==> same_letter(#[trigger] a@[i], b@[i]),
{
    let x = crate::text::ascii_lowered(a@);
    let y = crate::text::ascii_lowered(b@);
    if same {
        assert forall|i: int| 0 <= i < a@.len() implies same_letter(#[trigger] a@[i], b@[i]) by {
            assert(x[i] == y[i]);
        }
        assert(x.len() == y.len());
    }
    if a@.len() == b@.len() && forall|i: int|
        0 <= i < a@.len() ==> same_letter(#[trigger] a@[i], b@[i]) {
        assert forall|i: int| 0 <= i < x.len() implies x[i] == y[i] by {
            assert(same_letter(a@[i], b@[i]));
        }
        assert(x =~= y);
    }
}

/// The two are equal, or one is the capital of the other.
pub open spec fn same_letter(a: char, b: char) -> bool {
    ||| a == b
    ||| 'A' <= a <= 'Z' && b as int == a as int + 32
    ||| 'A' <= b <= 'Z' && a as int == b as int + 32
}

/// The tag of a locale is its name up to the encoding or modifier, with hyphens for
/// underscores and nothing else changed.
pub proof fn tags_are_locale_names(locale: &str, tag: Option<String>, i: int)
    requires
        call_ensures(locale_tag, (locale,), tag),
        tag is Some,
    ensures
        tag->0@.len() <= locale@.len(),
        0 <= i < tag->0@.len() ==> locale@[i] != '.' && locale@[i] != '@' && tag->0@[i] != '_',
        0 <= i < tag->0@.len() && locale@[i] == '_' ==> tag->0@[i] == '-',
        0 <= i < tag->0@.len() && locale@[i] != '_' ==> tag->0@[i] == locale@[i],
        tag->0@.len() < locale@.len() ==> locale@[tag->0@.len() as int] == '.'
            || locale@[tag->0@.len() as int] == '@',
{
    lemma_name(locale@);
    assert(hyphenated(locale_name(locale@)).len() == name_length(locale@));
}

proof fn lemma_name(locale: Seq<char>)
    ensures
        name_length(locale) <= locale.len(),
        forall|i: int|
            0 <= i < name_length(locale) ==> #[trigger] locale[i] != '.' && locale[i] != '@',
        name_length(locale) < locale.len() ==> locale[name_length(locale) as int] == '.'
            || locale[name_length(locale) as int] == '@',
    decreases locale.len(),
{
    if locale.len() > 0 && locale[0] != '.' && locale[0] != '@' {
        let rest = locale.drop_first();
        lemma_name(rest);
        assert forall|i: int| 0 <= i < name_length(locale) implies #[trigger] locale[i] != '.'
            && locale[i] != '@' by {
            if i > 0 {
                assert(rest[i - 1] == locale[i]);
            }
        }
        if name_length(locale) < locale.len() {
            assert(rest[name_length(rest) as int] == locale[name_length(locale) as int]);
        }
    }
}

/// A tag leads to no other language than its own, and to that only where the build can
/// draw it.
pub proof fn languages_are_found_by_their_tag(
    choice: LanguageChoice,
    tag: &str,
    target: Target,
    found: Option<LanguageChoice>,
    yes: bool,
)
    requires
        call_ensures(LanguageChoice::lang_id, (choice,), tag),
        call_ensures(LanguageChoice::is_available, (choice, target), yes),
        call_ensures(bundled_language, (tag, target), found),
    ensures
        found is Some ==> found->0 == choice && yes,
        !yes ==> found is None,
        target == Target::Native ==> yes,
        target == Target::Web ==> (yes <==> !(choice is ChineseSimplified || choice is Arabic
            || choice is Farsi || choice is Hindi || choice is Japanese || choice is Korean)),
{
    if found is Some {
        assert(crate::language::serves(found->0, tag@, target));
        crate::language::tags_are_distinct(choice, found->0);
    }
}

/// The first of the requested languages that can be drawn is chosen, and English if
/// there is none.
pub proof fn the_first_language_that_can_be_drawn_is_chosen(
    requested: &Vec<String>,
    target: Target,
    choice: LanguageChoice,
    c: LanguageChoice,
    k: int,
)
    requires
        call_ensures(choose_language, (requested, target), choice),
        0 <= k <= requested@.len(),
        forall|i: int, other: LanguageChoice|
            0 <= i < k ==> !(#[trigger] crate::language::serves(
                other,
                (#[trigger] requested@[i])@,
                target,
            )),
    ensures
        k == requested@.len() ==> choice == LanguageChoice::English,
        k < requested@.len() && crate::language::serves(c, requested@[k]@, target) ==> choice == c,
{
    let wanted = crate::text::texts(requested@);
    assert forall|i: int, other: LanguageChoice| 0 <= i < k implies !(
    #[trigger] crate::language::serves(other, #[trigger] wanted[i], target)) by {
        assert(wanted[i] == requested@[i]@);
    }
    lemma_chosen(wanted, target, c, k);
}

proof fn lemma_chosen(wanted: Seq<Seq<char>>, target: Target, c: LanguageChoice, k: int)
    requires
        0 <= k <= wanted.len(),
        forall|i: int, other: LanguageChoice|
            0 <= i < k ==> !(#[trigger] crate::language::serves(
                other,
                #[trigger] wanted[i],
                target,
            )),
    ensures
        k == wanted.len() ==> crate::language::first_bundled(wanted, target)
            == LanguageChoice::English,
        k < wanted.len() && crate::language::serves(c, wanted[k], target)
            ==> crate::language::first_bundled(wanted, target) == c,
    decreases k,
{
    if k == 0 {
        if wanted.len() > 0 && crate::language::serves(c, wanted[0], target) {
            crate::language::first_request_wins(c, wanted, target);
        }
    } else {
        let rest = wanted.drop_first();
        assert forall|other: LanguageChoice| !crate::language::serves(
            other,
            wanted[0],
            target,
        ) by {}
        crate::language::unbundled_requests_are_skipped(wanted, target);
        assert forall|i: int, other: LanguageChoice| 0 <= i < k - 1 implies !(
        #[trigger] crate::language::serves(other, #[trigger] rest[i], target)) by {
            assert(rest[i] == wanted[i + 1]);
        }
        lemma_chosen(rest, target, c, k - 1);
    }
}

/// An error has no console to be seen in and goes to the log. News of success are
/// plain messages, and what they name is a project.
pub proof fn errors_go_to_the_log(
    kind: NoticeKind,
    level: Level,
    channel: Channel,
    name: Option<&'static str>,
)
    requires
        call_ensures(NoticeKind::level, (kind,), level),
        call_ensures(NoticeKind::channel, (kind,), channel),
        call_ensures(NoticeKind::placeholder, (kind,), name),
    ensures
        level == Level::Error ==> channel == Channel::Log,
        channel == Channel::Log ==> level == Level::Error || kind == NoticeKind::SessionSaveFailed,
        level == Level::Message <==> kind == NoticeKind::BrowserActivated || kind
            == NoticeKind::BrowserSaved || kind == NoticeKind::BrowserDeleted,
        level == Level::Message ==> channel == Channel::Console,
        level == Level::Error ==> name is Some && name->0@ == "error"@,
        name is None <==> kind == NoticeKind::BrowserProjectGone || kind
            == NoticeKind::BrowserDeleted,
        name is Some ==> (name->0@ == "name"@ <==> level == Level::Message),
{
    reveal_strlit("error");
    reveal_strlit("name");
    assert("error"@.len() == 5 && "name"@.len() == 4);
}

/// A stored project's file ends in one extension, however many its name has: the
/// same as the file of the name with one more, and the name with the extension where
/// it has none.
pub proof fn files_have_one_extension(name: &str, file: String, longer: &str, other: String)
    requires
        call_ensures(browser_source_name, (name,), file),
        call_ensures(browser_source_name, (longer,), other),
        longer@ == name@ + ".omf"@,
    ensures
        file@.len() >= 4,
        file@.skip(file@.len() - 4) == ".omf"@,
        other@ == file@,
        file@.take(file@.len() - 4).len() < 4 || file@.take(file@.len() - 4).skip(
            file@.len() - 8,
        ) != ".omf"@,
        file@.take(file@.len() - 4).is_prefix_of(name@),
        name@.len() < 4 || name@.skip(name@.len() - 4) != ".omf"@ ==> file@ == name@ + ".omf"@,
{
    reveal_strlit(".omf");
    let omf = ".omf"@;
    assert(omf.len() == 4);
    let stem = without_suffixes(name@, omf);
    lemma_stem(name@, omf);
    assert(file@.skip(file@.len() - 4) =~= omf);
    assert(file@.take(file@.len() - 4) =~= stem);
    let l = longer@;
    assert(l.subrange(l.len() - 4, l.len() as int) =~= omf);
    assert(l.subrange(0, l.len() - 4) =~= name@);
    if stem.len() >= 4 {
        assert(stem.skip(stem.len() - 4) =~= stem.subrange(stem.len() - 4, stem.len() as int));
    }
    if name@.len() >= 4 {
        assert(name@.skip(name@.len() - 4) =~= name@.subrange(name@.len() - 4, name@.len() as int));
    }
}

proof fn lemma_stem(name: Seq<char>, suffix: Seq<char>)
    requires
        suffix.len() > 0,
    ensures
        without_suffixes(name, suffix).is_prefix_of(name),
        without_suffixes(name, suffix).len() >= suffix.len() ==> without_suffixes(
            name,
            suffix,
        ).subrange(
            without_suffixes(name, suffix).len() - suffix.len(),
            without_suffixes(name, suffix).len() as int,
        ) != suffix,
    decreases name.len(),
{
    if suffix.len() <= name.len() && name.subrange(name.len() - suffix.len(), name.len() as int)
        == suffix {
        let less = name.subrange(0, name.len() - suffix.len());
        lemma_stem(less, suffix);
        let stem = without_suffixes(less, suffix);
        assert(stem =~= name.subrange(0, stem.len() as int));
    } else {
        assert(name =~= name.subrange(0, name.len() as int));
    }
}

/// The file name of what a page hands over has no separator in it, is never empty,
/// and is the name behind the last one where that is a name.
pub proof fn page_files_have_a_plain_name(folder: Seq<char>, plain: Seq<char>, name: &str, file: String)
    requires
        call_ensures(browser_source_filename, (name,), file),
        forall|i: int| 0 <= i < plain.len() ==> #[trigger] plain[i] != '/',
        plain.len() > 0,
        plain != seq!['.'],
        plain != seq!['.', '.'],
        name@ == plain || name@ == folder.push('/') + plain,
    ensures
        file@ == plain,
{
    let path = name@;
    let start: int = path.len() - plain.len();
    assert(path.last() == plain.last());
    assert(plain[plain.len() - 1] != '/');
    if path.len() > 1 && path.last() == '.' && path[path.len() - 2] == '/' {
        if plain.len() > 1 {
            assert(path[path.len() - 2] == plain[plain.len() - 2]);
        }
        assert(plain =~= seq!['.']);
    }
    assert(without_end(path) == path);
    lemma_behind(path, start);
    assert(path.skip(start) =~= plain);
    assert(last_component(path) == Some(plain));
}

proof fn lemma_behind(path: Seq<char>, start: int)
    requires
        0 <= start <= path.len(),
        start > 0 ==> path[start - 1] == '/',
        forall|i: int| start <= i < path.len() ==> #[trigger] path[i] != '/',
    ensures
        behind_separator(path) == path.skip(start),
    decreases path.len(),
{
    if start < path.len() {
        assert(path[path.len() - 1] != '/');
        lemma_behind(path.drop_last(), start);
        assert(path.skip(start) =~= path.drop_last().skip(start).push(path.last()));
    } else {
        assert(path.skip(start) =~= Seq::<char>::empty());
    }
}

/// Letters and digits alone are their own words, in small letters.
pub proof fn plain_words_are_kept(s: Seq<char>, i: int)
    requires
        forall|j: int| 0 <= j < s.len() ==> ascii_alphanumeric(#[trigger] s[j]),
    ensures
        slug(s).len() == s.len(),
        0 <= i < s.len() ==> slug(s)[i] == ascii_lower(s[i]),
    decreases s.len(),
{
    if s.len() > 0 {
        let rest = s.drop_last();
        assert(ascii_alphanumeric(s[s.len() - 1]));
        if rest.len() > 0 {
            assert(ascii_alphanumeric(s[rest.len() - 1]));
        }
        plain_words_are_kept(rest, i);
    }
}

/// Whatever stands between two words, one hyphen takes its place.
pub proof fn words_are_joined_by_a_hyphen(a: Seq<char>, between: Seq<char>, b: Seq<char>)
    requires
        slug(a).len() > 0,
        between.len() > 0,
        forall|j: int| 0 <= j < between.len() ==> !ascii_alphanumeric(#[trigger] between[j]),
        b.len() > 0,
        forall|j: int| 0 <= j < b.len() ==> ascii_alphanumeric(#[trigger] b[j]),
    ensures
        slug(a + between + b) == slug(a).push('-') + slug(b),
    decreases b.len(),
{
    let s = a + between + b;
    let rest = b.drop_last();
    assert(s.last() == b.last());
    assert(ascii_alphanumeric(b[b.len() - 1]));
    assert(s.drop_last() =~= a + between + rest);
    if rest.len() == 0 {
        assert(s.drop_last() =~= a + between);
        lemma_gap(a, between);
        assert(!ascii_alphanumeric(between[between.len() - 1]));
        assert((a + between).last() == between.last());
        assert(slug(rest) =~= Seq::<char>::empty());
        assert(slug(s) =~= slug(a).push('-') + slug(b));
    } else {
        words_are_joined_by_a_hyphen(a, between, rest);
        assert(s.drop_last().last() == b[rest.len() - 1]);
        assert(ascii_alphanumeric(b[rest.len() - 1]));
        assert(slug(s) =~= slug(a).push('-') + slug(b));
    }
}

proof fn lemma_gap(a: Seq<char>, between: Seq<char>)
    requires
        forall|j: int| 0 <= j < between.len() ==> !ascii_alphanumeric(#[trigger] between[j]),
    ensures
        slug(a + between) == slug(a),
    decreases between.len(),
{
    if between.len() > 0 {
        assert(!ascii_alphanumeric(between[between.len() - 1]));
        assert((a + between).last() == between.last());
        assert((a + between).drop_last() =~= a + between.drop_last());
        lemma_gap(a, between.drop_last());
    } else {
        assert(a + between =~= a);
    }
}

} // verus!
