//! Translation of source literals: the stable message id of a literal, what a
//! catalogue's answer makes of it, and the values put into it.
use crate::text::{
    ascii_alphanumeric, ascii_lower, chars_of, count_leading_space, count_trailing_space, hex_digit,
    hex_digits, hex_text, is_ascii_alphanumeric, leading_space, lemma_spaces_apart, push_range,
    replace_all, replaced, starts_with, to_ascii_lower, trailing_space, trim, trimmed,
};
use i18n_embed::fluent::FluentLanguageLoader;
use vstd::prelude::*;
use vstd::utf8::encode_utf8;

verus! {

/// The ASCII letters and digits of `s`, in small letters, with a hyphen for
/// each stretch of anything else between two of them.
pub open spec fn slug(s: Seq<char>) -> Seq<char>
    decreases s.len(),
{
    if s.len() == 0 {
        Seq::empty()
    } else {
        let before = s.drop_last();
        let c = s.last();
        if !ascii_alphanumeric(c) {
            slug(before)
        } else if slug(before).len() > 0 && !ascii_alphanumeric(before.last()) {
            slug(before).push('-').push(ascii_lower(c))
        } else {
            slug(before).push(ascii_lower(c))
        }
    }
}

/// Where the hash of no bytes stands.
pub const FNV_OFFSET: u64 = 0xcbf2_9ce4_8422_2325;

/// What the hash is multiplied by after each byte.
pub const FNV_PRIME: u64 = 0x0000_0100_0000_01b3;

/// One step of FNV-1a.
pub open spec fn fnv_step(hash: u64, byte: u8) -> u64 {
    (hash ^ (byte as u64)).wrapping_mul(FNV_PRIME)
}

/// The 64-bit FNV-1a hash of `bytes`.
pub open spec fn fnv1a(bytes: Seq<u8>) -> u64
    decreases bytes.len(),
{
    if bytes.len() == 0 {
        FNV_OFFSET
    } else {
        fnv_step(fnv1a(bytes.drop_last()), bytes.last())
    }
}

/// The message id of a source literal: its words, for reading, and the hash of
/// its bytes, for telling it from every other.
pub open spec fn literal_id_text(source: Seq<char>) -> Seq<char> {
    let words = slug(source);
    let stem = if words.len() == 0 {
        "literal"@
    } else {
        "literal"@.push('-') + words
    };
    stem.push('-') + hex_digits(fnv1a(encode_utf8(source)) as nat, 16)
}

/// The hash of the bytes of `source`.
pub fn literal_hash(source: &str) -> (hash: u64)
    ensures
        hash == fnv1a(encode_utf8(source@)),
{
    let bytes: &[u8] = source.as_bytes();
    let mut hash: u64 = FNV_OFFSET;
    let mut i: usize = 0;
    while i < bytes.len()
        invariant
            i <= bytes@.len(),
            hash == fnv1a(bytes@.take(i as int)),
        decreases bytes.len() - i,
    {
        proof {
            assert(bytes@.take(i + 1).drop_last() =~= bytes@.take(i as int));
        }
        hash = (hash ^ (bytes[i] as u64)).wrapping_mul(FNV_PRIME);
        i += 1;
    }
    proof {
        assert(bytes@.take(i as int) =~= bytes@);
    }
    hash
}

/// The message id of a source literal that has no hand-written one. The same
/// text has the same id in every build, so catalogues can be written against it.
pub fn literal_id(source: &str) -> (id: String)
    ensures
        id@ == literal_id_text(source@),
{
    let chars: Vec<char> = chars_of(source);
    let mut words: String = String::new();
    let mut empty: bool = true;
    let mut separator: bool = false;
    let mut i: usize = 0;
    while i < chars.len()
        invariant
            i <= chars@.len(),
            words@ == slug(chars@.take(i as int)),
            empty == (words@.len() == 0),
            separator == (i > 0 && !ascii_alphanumeric(chars@[i - 1])),
        decreases chars.len() - i,
    {
        let c: char = chars[i];
        proof {
            let seen = chars@.take(i + 1);
            assert(seen.drop_last() =~= chars@.take(i as int));
            assert(seen.last() == c);
            if i > 0 {
                assert(chars@.take(i as int).last() == chars@[i - 1]);
            }
        }
        if is_ascii_alphanumeric(c) {
            if separator && !empty {
                words.push('-');
            }
            words.push(to_ascii_lower(c));
            empty = false;
            separator = false;
        } else {
            separator = true;
        }
        i += 1;
    }
    proof {
        assert(chars@.take(i as int) =~= chars@);
    }
    let mut id: String = String::new();
    id.append("literal");
    if !empty {
        id.push('-');
        id.append(words.as_str());
    }
    id.push('-');
    let hash: String = hex_text(literal_hash(source), 16);
    id.append(hash.as_str());
    proof {
        assert(Seq::<char>::empty() + "literal"@ =~= "literal"@);
        assert(id@ =~= literal_id_text(source@));
    }
    id
}

/// What the catalogue answers for an id it does not hold starts with this.
pub open spec fn is_missing(answer: Seq<char>) -> bool {
    "No localization for id:"@.is_prefix_of(answer)
}

/// The text to show for `source` when the catalogue answered `answer`: the
/// answer with the padding of the source around it, or the source where the
/// catalogue has no entry.
pub open spec fn literal_text(source: Seq<char>, answer: Seq<char>) -> Seq<char> {
    if is_missing(answer) {
        source
    } else {
        source.take(leading_space(source) as int) + trimmed(answer) + source.skip(
            source.len() - trailing_space(source),
        )
    }
}

/// The text to show for `source` when the catalogue answered `answer`.
///
/// A catalogue trims the padding around its values. A few compact labels are
/// fragments (`" FPS"`, `"Major "`), so the padding of the source comes back.
pub fn translated_literal(source: &str, answer: &str) -> (text: String)
    ensures
        text@ == literal_text(source@, answer@),
{
    if starts_with(answer, "No localization for id:") {
        return source.to_owned();
    }
    let chars: Vec<char> = chars_of(source);
    let leading: usize = count_leading_space(&chars);
    let trailing: usize = count_trailing_space(&chars);
    proof {
        lemma_spaces_apart(chars@);
    }
    let mut text: String = String::new();
    push_range(&mut text, &chars, 0, leading);
    let inner: String = trim(answer);
    text.append(inner.as_str());
    push_range(&mut text, &chars, chars.len() - trailing, chars.len());
    proof {
        assert(text@ =~= literal_text(source@, answer@));
    }
    text
}

/// The loader that holds the message bundles and the language in use.
#[verifier::external_type_specification]
#[verifier::external_body]
pub struct ExFluentLanguageLoader(FluentLanguageLoader);

/// Holds of every id and text such that a loader has given that text for that
/// id. Which text it gives depends on the bundles it has loaded and on the
/// language in use, so one id can have many.
pub uninterp spec fn catalogue_answer(id: Seq<char>, text: Seq<char>) -> bool;

/// `FluentLanguageLoader::get`: the loader's text for a message id, at the time
/// of the call. Nothing is claimed of what the text is.
#[verifier::external_body]
pub(crate) fn look_up(loader: &FluentLanguageLoader, id: &str) -> (text: String)
    ensures
        catalogue_answer(id@, text@),
{
    loader.get(id)
}

/// `text` is what a catalogue makes of a source literal.
pub open spec fn translates(source: Seq<char>, text: Seq<char>) -> bool {
    exists|answer: Seq<char>| #[trigger]
        catalogue_answer(literal_id_text(source), answer) && text == literal_text(source, answer)
}

/// Translates a source literal: looks its id up, and falls back to the source
/// text while a catalogue lacks the entry.
pub fn tr_literal(loader: &FluentLanguageLoader, source: &str) -> (text: String)
    ensures
        translates(source@, text@),
{
    let id: String = literal_id(source);
    let answer: String = look_up(loader, id.as_str());
    translated_literal(source, answer.as_str())
}

/// `text` with each `%name%` replaced by the value of that name, one name after
/// the other.
pub open spec fn filled(text: Seq<char>, names: Seq<Seq<char>>, values: Seq<Seq<char>>) -> Seq<char>
    decreases names.len(),
{
    if names.len() == 0 {
        text
    } else {
        replaced(
            filled(text, names.drop_last(), values.drop_last()),
            seq!['%'] + names.last() + seq!['%'],
            values.last(),
        )
    }
}

/// Puts values into the `%name%` placeholders of a translated text.
pub fn fill_placeholders(text: String, names: &Vec<String>, values: &Vec<String>) -> (result: String)
    requires
        names@.len() == values@.len(),
    ensures
        result@ == filled(text@, crate::text::texts(names@), crate::text::texts(values@)),
{
    let mut result: String = text;
    let ghost n = crate::text::texts(names@);
    let ghost v = crate::text::texts(values@);
    let mut i: usize = 0;
    while i < names.len()
        invariant
            i <= names@.len() == values@.len(),
            n == crate::text::texts(names@),
            v == crate::text::texts(values@),
            result@ == filled(text@, n.take(i as int), v.take(i as int)),
        decreases names.len() - i,
    {
        let mut placeholder: String = String::new();
        placeholder.push('%');
        placeholder.append(names[i].as_str());
        placeholder.push('%');
        proof {
            assert(n.take(i + 1).drop_last() =~= n.take(i as int));
            assert(v.take(i + 1).drop_last() =~= v.take(i as int));
            assert(n.take(i + 1).last() == names@[i as int]@);
            assert(v.take(i + 1).last() == values@[i as int]@);
            assert(placeholder@ =~= seq!['%'] + names@[i as int]@ + seq!['%']);
        }
        result = replace_all(result.as_str(), placeholder.as_str(), values[i].as_str());
        i += 1;
    }
    proof {
        assert(n.take(i as int) =~= n);
        assert(v.take(i as int) =~= v);
    }
    result
}

/// Translates a source literal and puts values into its `%name%` placeholders.
/// The values go in after the look-up, so a translation may move each
/// placeholder to where its language wants it.
pub fn tr_format(
    loader: &FluentLanguageLoader,
    source: &str,
    names: &Vec<String>,
    values: &Vec<String>,
) -> (text: String)
    requires
        names@.len() == values@.len(),
    ensures
        exists|answer: Seq<char>| #[trigger]
            catalogue_answer(literal_id_text(source@), answer) && text@ == filled(
                literal_text(source@, answer),
                crate::text::texts(names@),
                crate::text::texts(values@),
            ),
{
    let translated: String = tr_literal(loader, source);
    fill_placeholders(translated, names, values)
}

/// `text` is what a catalogue makes of a source literal, with values in its
/// placeholders.
pub open spec fn formats(
    source: Seq<char>,
    names: Seq<Seq<char>>,
    values: Seq<Seq<char>>,
    text: Seq<char>,
) -> bool {
    exists|translated: Seq<char>| #[trigger]
        translates(source, translated) && text == filled(translated, names, values)
}

/// What is logged after a language was asked for.
pub struct SelectionReport {
    /// Why it could not be put in use, if it could not.
    pub warning: Option<String>,
    /// The language in use now, and the bundles there are.
    pub message: String,
}

/// What is logged after a language was asked for. That it could not be put in
/// use, for `failure`, is a warning and no more: the fallback bundle is there.
/// `language` is in use now, and `bundled` names the bundles.
pub fn selection_report(
    loader: &FluentLanguageLoader,
    failure: Option<String>,
    language: String,
    bundled: String,
) -> (report: SelectionReport)
    ensures
        report.warning is Some <==> failure is Some,
        failure is Some ==> formats(
            "Could not select a language: %error%"@,
            seq!["error"@],
            seq![failure->0@],
            report.warning->0@,
        ),
        formats(
            "Active language is %language% (bundled: %bundled%)"@,
            seq!["language"@, "bundled"@],
            seq![language@, bundled@],
            report.message@,
        ),
{
    let warning: Option<String> = match failure {
        Some(error) => {
            let source: &str = "Could not select a language: %error%";
            let translated: String = tr_literal(loader, source);
            let ghost asked = translated@;
            let names: Vec<String> = vec!["error".to_owned()];
            let values: Vec<String> = vec![error];
            proof {
                assert(crate::text::texts(names@) =~= seq!["error"@]);
                assert(crate::text::texts(values@) =~= seq![error@]);
            }
            let text: String = fill_placeholders(translated, &names, &values);
            proof {
                assert(translates(source@, asked));
            }
            Some(text)
        },
        None => None,
    };
    let source: &str = "Active language is %language% (bundled: %bundled%)";
    let translated: String = tr_literal(loader, source);
    let ghost asked = translated@;
    let names: Vec<String> = vec!["language".to_owned(), "bundled".to_owned()];
    let values: Vec<String> = vec![language, bundled];
    proof {
        assert(crate::text::texts(names@) =~= seq!["language"@, "bundled"@]);
        assert(crate::text::texts(values@) =~= seq![language@, bundled@]);
    }
    let message: String = fill_placeholders(translated, &names, &values);
    proof {
        assert(translates(source@, asked));
    }
    SelectionReport { warning, message }
}

/// A character that a message id may hold.
pub open spec fn id_char(c: char) -> bool {
    'a' <= c <= 'z' || '0' <= c <= '9' || c == '-'
}

/// Every id is one that a catalogue can hold: it starts with a letter and is
/// made of small letters, digits and hyphens, whatever the source text.
pub proof fn literal_ids_are_well_formed(source: Seq<char>)
    ensures
        literal_id_text(source).len() > 0,
        'a' <= literal_id_text(source)[0] <= 'z',
        forall|i: int|
            0 <= i < literal_id_text(source).len() ==> id_char(
                #[trigger] literal_id_text(source)[i],
            ),
{
    reveal_strlit("literal");
    lemma_slug_chars(source);
    lemma_hex_chars(fnv1a(encode_utf8(source)) as nat, 16);
}

/// A digit of a hash.
pub open spec fn hex_char(c: char) -> bool {
    '0' <= c <= '9' || 'a' <= c <= 'f'
}

/// Two hyphens stand side by side.
pub open spec fn double_hyphen(s: Seq<char>) -> bool {
    exists|i: int| 0 <= i < s.len() - 1 && (#[trigger] s[i]) == '-' && s[i + 1] == '-'
}

/// Every id ends in a hyphen and the sixteen digits of its hash, and single
/// hyphens part its words, whatever the source text.
pub proof fn ids_end_in_a_hash(source: Seq<char>)
    ensures
        literal_id_text(source).len() > 17,
        literal_id_text(source)[literal_id_text(source).len() - 17] == '-',
        forall|i: int|
            literal_id_text(source).len() - 16 <= i < literal_id_text(source).len() ==> hex_char(
                #[trigger] literal_id_text(source)[i],
            ),
        !double_hyphen(literal_id_text(source)),
{
    reveal_strlit("literal");
    let id = literal_id_text(source);
    let words = slug(source);
    let digits = hex_digits(fnv1a(encode_utf8(source)) as nat, 16);
    lemma_hex_chars(fnv1a(encode_utf8(source)) as nat, 16);
    lemma_slug_hyphens(source);
    assert forall|i: int| id.len() - 16 <= i < id.len() implies hex_char(#[trigger] id[i]) by {
        assert(id[i] == digits[i - (id.len() - 16)]);
    }
    assert forall|i: int| 0 <= i < id.len() - 1 && (#[trigger] id[i]) == '-' implies id[i + 1]
        != '-' by {
        if i + 1 >= id.len() - 16 {
            assert(id[i + 1] == digits[i + 1 - (id.len() - 16)]);
        } else if words.len() > 0 && i >= 7 {
            if i > 7 {
                assert(id[i] == words[i - 8]);
            }
            if i + 1 < id.len() - 17 {
                assert(id[i + 1] == words[i + 1 - 8]);
            }
        }
    }
}

/// Hyphens stand singly in a slug, and not at its ends.
proof fn lemma_slug_hyphens(s: Seq<char>)
    ensures
        slug(s).len() > 0 ==> slug(s)[0] != '-' && slug(s).last() != '-',
        forall|i: int|
            0 <= i < slug(s).len() - 1 && (#[trigger] slug(s)[i]) == '-' ==> slug(s)[i + 1] != '-',
    decreases s.len(),
{
    if s.len() > 0 {
        let before = slug(s.drop_last());
        let whole = slug(s);
        lemma_slug_hyphens(s.drop_last());
        if ascii_alphanumeric(s.last()) {
            assert(ascii_lower(s.last()) != '-');
            assert(whole.last() == ascii_lower(s.last()));
            if before.len() > 0 {
                assert(whole[0] == before[0]);
            }
            assert forall|i: int| 0 <= i < whole.len() - 1 && (#[trigger] whole[i])
                == '-' implies whole[i + 1] != '-' by {
                if i < before.len() {
                    assert(whole[i] == before[i]);
                    if i + 1 < before.len() {
                        assert(whole[i + 1] == before[i + 1]);
                    } else {
                        assert(before[i] == before.last());
                    }
                }
            }
        }
    }
}

proof fn lemma_slug_chars(s: Seq<char>)
    ensures
        forall|i: int| 0 <= i < slug(s).len() ==> id_char(#[trigger] slug(s)[i]),
    decreases s.len(),
{
    if s.len() > 0 {
        let before = slug(s.drop_last());
        lemma_slug_chars(s.drop_last());
        assert forall|i: int| 0 <= i < slug(s).len() implies id_char(#[trigger] slug(s)[i]) by {
            if i < before.len() {
                assert(slug(s)[i] == before[i]);
            } else if ascii_alphanumeric(s.last()) {
                assert(id_char(ascii_lower(s.last())));
            }
        }
    }
}

proof fn lemma_hex_chars(value: nat, width: nat)
    ensures
        hex_digits(value, width).len() == width,
        forall|i: int| 0 <= i < width ==> hex_char(#[trigger] hex_digits(value, width)[i]),
    decreases width,
{
    if width > 0 {
        lemma_hex_chars(value / 16, (width - 1) as nat);
    }
}

proof fn lemma_hex_injective(a: nat, b: nat, width: nat)
    requires
        hex_digits(a, width) == hex_digits(b, width),
        a < vstd::arithmetic::power::pow(16, width),
        b < vstd::arithmetic::power::pow(16, width),
    ensures
        a == b,
    decreases width,
{
    reveal(vstd::arithmetic::power::pow);
    if width > 0 {
        let w = (width - 1) as nat;
        let x = hex_digits(a, width);
        let y = hex_digits(b, width);
        assert(x.drop_last() =~= hex_digits(a / 16, w));
        assert(y.drop_last() =~= hex_digits(b / 16, w));
        assert(x.last() == hex_digit((a % 16) as int));
        assert(y.last() == hex_digit((b % 16) as int));
        assert(a % 16 == b % 16);
        assert(a / 16 < vstd::arithmetic::power::pow(16, w));
        assert(b / 16 < vstd::arithmetic::power::pow(16, w));
        lemma_hex_injective(a / 16, b / 16, w);
    }
}

/// Two source texts share an id exactly if they share their words and their bytes
/// share a hash: punctuation and spaces are left out of the words, and still
/// count.
pub proof fn an_id_is_its_words_and_its_hash(a: Seq<char>, b: Seq<char>)
    ensures
        literal_id_text(a) == literal_id_text(b) <==> slug(a) == slug(b) && fnv1a(encode_utf8(a))
            == fnv1a(encode_utf8(b)),
{
    if literal_id_text(a) == literal_id_text(b) {
        lemma_same_id(a, b);
    }
}

proof fn lemma_same_id(a: Seq<char>, b: Seq<char>)
    requires
        literal_id_text(a) == literal_id_text(b),
    ensures
        slug(a) == slug(b),
        fnv1a(encode_utf8(a)) == fnv1a(encode_utf8(b)),
{
    let x = fnv1a(encode_utf8(a)) as nat;
    let y = fnv1a(encode_utf8(b)) as nat;
    lemma_hex_chars(x, 16);
    lemma_hex_chars(y, 16);
    let ia = literal_id_text(a);
    let ib = literal_id_text(b);
    assert(ia.skip(ia.len() - 16) =~= hex_digits(x, 16));
    assert(ib.skip(ib.len() - 16) =~= hex_digits(y, 16));
    assert(vstd::arithmetic::power::pow(16, 16) == 0x1_0000_0000_0000_0000) by {
        reveal(vstd::arithmetic::power::pow);
        reveal_with_fuel(vstd::arithmetic::power::pow, 17);
    }
    lemma_hex_injective(x, y, 16);
    let stem = |words: Seq<char>|
        if words.len() == 0 {
            "literal"@
        } else {
            "literal"@.push('-') + words
        };
    assert(ia.take(ia.len() - 17) =~= stem(slug(a)));
    assert(ib.take(ib.len() - 17) =~= stem(slug(b)));
    let n = "literal"@.len() as int + 1;
    if slug(a).len() > 0 && slug(b).len() > 0 {
        assert(stem(slug(a)).skip(n) =~= slug(a));
        assert(stem(slug(b)).skip(n) =~= slug(b));
    } else {
        assert(stem(slug(a)).len() == stem(slug(b)).len());
        assert(slug(a) =~= slug(b));
    }
}

/// Multiplying by the prime loses nothing: it can be undone.
proof fn lemma_step_injective(a: u64, b: u64)
    requires
        a.wrapping_mul(FNV_PRIME) == b.wrapping_mul(FNV_PRIME),
    ensures
        a == b,
{
    let m: int = 0x1_0000_0000_0000_0000;
    let p = FNV_PRIME as int;
    let q: int = 0xce96_5057_aff6_957b;
    assert((a as int * p) % m == (b as int * p) % m);
    lemma_undo(a as int);
    lemma_undo(b as int);
    vstd::arithmetic::div_mod::lemma_mul_mod_noop_left(a as int * p, q, m);
    vstd::arithmetic::div_mod::lemma_mul_mod_noop_left(b as int * p, q, m);
}

proof fn lemma_undo(a: int)
    requires
        0 <= a < 0x1_0000_0000_0000_0000,
    ensures
        (a * FNV_PRIME * 0xce96_5057_aff6_957b) % 0x1_0000_0000_0000_0000 == a,
{
    let m: int = 0x1_0000_0000_0000_0000;
    let p = FNV_PRIME as int;
    let q: int = 0xce96_5057_aff6_957b;
    let k: int = (p * q) / m;
    assert(p * q == k * m + 1);
    assert(a * p * q == (a * k) * m + a) by (nonlinear_arith)
        requires
            p * q == k * m + 1,
    ;
    vstd::arithmetic::div_mod::lemma_mod_multiples_vanish(a * k, a, m);
    vstd::arithmetic::div_mod::lemma_small_mod(a as nat, m as nat);
    assert(m * (a * k) + a == (a * k) * m + a) by (nonlinear_arith);
}

/// Changing one byte of a text changes its hash, wherever the byte stands.
pub proof fn one_byte_decides_the_hash(before: Seq<u8>, x: u8, y: u8, after: Seq<u8>)
    requires
        x != y,
    ensures
        fnv1a(before.push(x) + after) != fnv1a(before.push(y) + after),
    decreases after.len(),
{
    let s = before.push(x) + after;
    let t = before.push(y) + after;
    if after.len() == 0 {
        assert(s =~= before.push(x));
        assert(t =~= before.push(y));
        assert(s.drop_last() =~= before);
        assert(t.drop_last() =~= before);
        let h = fnv1a(before);
        if fnv1a(s) == fnv1a(t) {
            lemma_step_injective(h ^ (x as u64), h ^ (y as u64));
            assert((h ^ (x as u64)) == (h ^ (y as u64)) ==> x == y) by (bit_vector);
        }
    } else {
        one_byte_decides_the_hash(before, x, y, after.drop_last());
        assert(s.drop_last() =~= before.push(x) + after.drop_last());
        assert(t.drop_last() =~= before.push(y) + after.drop_last());
        let h = fnv1a(s.drop_last());
        let k = fnv1a(t.drop_last());
        let c = after.last();
        assert(s.last() == c && t.last() == c);
        if fnv1a(s) == fnv1a(t) {
            lemma_step_injective(h ^ (c as u64), k ^ (c as u64));
            assert((h ^ (c as u64)) == (k ^ (c as u64)) ==> h == k) by (bit_vector);
        }
    }
}

/// Source texts whose bytes differ in one place have different ids, be it a
/// letter, a mark or a space.
pub proof fn one_byte_decides_the_id(
    a: Seq<char>,
    b: Seq<char>,
    before: Seq<u8>,
    x: u8,
    y: u8,
    after: Seq<u8>,
)
    requires
        encode_utf8(a) == before.push(x) + after,
        encode_utf8(b) == before.push(y) + after,
        x != y,
    ensures
        literal_id_text(a) != literal_id_text(b),
{
    one_byte_decides_the_hash(before, x, y, after);
    an_id_is_its_words_and_its_hash(a, b);
}

/// A source text that the catalogue lacks is shown as it is.
pub proof fn missing_entries_show_the_source(source: Seq<char>, answer: Seq<char>)
    requires
        is_missing(answer),
    ensures
        literal_text(source, answer) == source,
{
}

/// A translation keeps the padding of the source: what comes before and after
/// its own words is what came before and after the words of the source.
pub proof fn translation_keeps_the_padding(source: Seq<char>, answer: Seq<char>)
    requires
        !is_missing(answer),
        leading_space(source) < source.len(),
        trimmed(answer).len() > 0,
    ensures
        leading_space(literal_text(source, answer)) == leading_space(source),
        trailing_space(literal_text(source, answer)) == trailing_space(source),
        trimmed(literal_text(source, answer)) == trimmed(answer),
{
    let n = leading_space(source) as int;
    let m = trailing_space(source) as int;
    let inner = trimmed(answer);
    let shown = literal_text(source, answer);
    lemma_spaces_apart(source);
    lemma_spaces_apart(answer);
    lemma_trimmed_ends(answer);
    let front = source.take(n);
    let back = source.skip(source.len() - m);
    assert forall|i: int| 0 <= i < n implies crate::text::white_space(shown[i]) by {
        assert(shown[i] == source[i]);
    }
    assert(shown[n] == inner[0]);
    crate::text::lemma_leading_space(shown, n);
    assert forall|i: int| shown.len() - m <= i < shown.len() implies crate::text::white_space(
        shown[i],
    ) by {
        let j = i - n - inner.len();
        assert(shown[i] == back[j]);
        assert(back[j] == source[source.len() - m + j]);
    }
    assert(shown[shown.len() - m - 1] == inner.last());
    crate::text::lemma_trailing_space(shown, m);
    assert(trimmed(shown) =~= inner);
}

proof fn lemma_trimmed_ends(s: Seq<char>)
    requires
        trimmed(s).len() > 0,
    ensures
        !crate::text::white_space(trimmed(s)[0]),
        !crate::text::white_space(trimmed(s).last()),
{
    lemma_spaces_apart(s);
    let m = trailing_space(s) as int;
    assert(trimmed(s)[0] == s[leading_space(s) as int]);
    assert(trimmed(s).last() == s[s.len() - m - 1]);
}

} // verus!
