//! Text as sequences of characters: trimming, searching, replacing and
//! writing numbers.
use thousands::Separable;
use vstd::prelude::*;

verus! {

/// `String::push` puts one character at the end of the text and changes
/// nothing before it.
pub assume_specification[ String::push ](text: &mut String, c: char)
    ensures
        final(text)@ == old(text)@.push(c),
;

/// The characters of `text`, one per element.
pub fn chars_of(text: &str) -> (chars: Vec<char>)
    ensures
        chars@ == text@,
{
    let mut chars: Vec<char> = Vec::new();
    for c in it: text.chars()
        invariant
            it.seq() == text@,
            chars@ == text@.take(it.index() as int),
    {
        chars.push(c);
    }
    assert(text@.take(text@.len() as int) =~= text@);
    chars
}

/// The characters of each text in a list.
pub open spec fn texts(list: Seq<String>) -> Seq<Seq<char>> {
    list.map_values(|text: String| text@)
}

/// The characters of a text, where there is one.
pub open spec fn text_of(text: Option<String>) -> Option<Seq<char>> {
    match text {
        Some(t) => Some(t@),
        None => None,
    }
}

/// Appends `chars[from..to]` to `text`.
pub fn push_range(text: &mut String, chars: &Vec<char>, from: usize, to: usize)
    requires
        from <= to <= chars@.len(),
    ensures
        final(text)@ == old(text)@ + chars@.subrange(from as int, to as int),
{
    let ghost before = text@;
    let mut i: usize = from;
    while i < to
        invariant
            from <= i <= to <= chars@.len(),
            text@ == before + chars@.subrange(from as int, i as int),
        decreases to - i,
    {
        text.push(chars[i]);
        proof {
            assert(chars@.subrange(from as int, i + 1) =~= chars@.subrange(from as int, i as int).push(
                chars@[i as int],
            ));
        }
        i += 1;
    }
}

/// The text made of `chars[from..to]`.
pub fn string_of(chars: &Vec<char>, from: usize, to: usize) -> (text: String)
    requires
        from <= to <= chars@.len(),
    ensures
        text@ == chars@.subrange(from as int, to as int),
{
    let mut text: String = String::new();
    push_range(&mut text, chars, from, to);
    text
}

/// One text after the other.
pub fn joined(first: &str, second: &str) -> (text: String)
    ensures
        text@ == first@ + second@,
{
    let a: Vec<char> = chars_of(first);
    let b: Vec<char> = chars_of(second);
    let mut text: String = string_of(&a, 0, a.len());
    push_range(&mut text, &b, 0, b.len());
    proof {
        assert(a@.subrange(0, a@.len() as int) =~= first@);
        assert(b@.subrange(0, b@.len() as int) =~= second@);
    }
    text
}

/// Whether two pieces of text hold the same characters.
pub fn same_text(a: &str, b: &str) -> (same: bool)
    ensures
        same == (a@ == b@),
{
    let x: Vec<char> = chars_of(a);
    let y: Vec<char> = chars_of(b);
    if x.len() != y.len() {
        return false;
    }
    let mut i: usize = 0;
    while i < x.len()
        invariant
            i <= x@.len() == y@.len(),
            x@ == a@,
            y@ == b@,
            forall|j: int| 0 <= j < i ==> x@[j] == y@[j],
        decreases x.len() - i,
    {
        if x[i] != y[i] {
            return false;
        }
        i += 1;
    }
    assert(a@ =~= b@);
    true
}

/// The characters with Unicode's White_Space property.
pub open spec fn white_space(c: char) -> bool {
    let u = c as u32;
    ||| 0x9 <= u <= 0xd
    ||| u == 0x20
    ||| u == 0x85
    ||| u == 0xa0
    ||| u == 0x1680
    ||| 0x2000 <= u <= 0x200a
    ||| u == 0x2028
    ||| u == 0x2029
    ||| u == 0x202f
    ||| u == 0x205f
    ||| u == 0x3000
}

/// Whether `c` has Unicode's White_Space property.
pub fn is_white_space(c: char) -> (yes: bool)
    ensures
        yes == white_space(c),
{
    let u: u32 = c as u32;
    (0x9 <= u && u <= 0xd) || u == 0x20 || u == 0x85 || u == 0xa0 || u == 0x1680 || (0x2000 <= u
        && u <= 0x200a) || u == 0x2028 || u == 0x2029 || u == 0x202f || u == 0x205f || u == 0x3000
}

/// How many white-space characters `s` starts with.
pub open spec fn leading_space(s: Seq<char>) -> nat
    decreases s.len(),
{
    if s.len() == 0 || !white_space(s[0]) {
        0
    } else {
        1 + leading_space(s.drop_first())
    }
}

/// How many white-space characters `s` ends with.
pub open spec fn trailing_space(s: Seq<char>) -> nat
    decreases s.len(),
{
    if s.len() == 0 || !white_space(s.last()) {
        0
    } else {
        1 + trailing_space(s.drop_last())
    }
}

/// `s` without the white space around it; empty where it holds nothing else.
pub open spec fn trimmed(s: Seq<char>) -> Seq<char> {
    if leading_space(s) == s.len() {
        Seq::empty()
    } else {
        s.subrange(leading_space(s) as int, s.len() - trailing_space(s))
    }
}

/// `n` is the number of leading white-space characters exactly where it counts
/// a run of them that something else, or the end, follows.
pub proof fn lemma_leading_space(s: Seq<char>, n: int)
    requires
        0 <= n <= s.len(),
        forall|i: int| 0 <= i < n ==> white_space(s[i]),
        n < s.len() ==> !white_space(s[n]),
    ensures
        leading_space(s) == n,
    decreases s.len(),
{
    if n > 0 {
        let rest = s.drop_first();
        assert forall|i: int| 0 <= i < n - 1 implies white_space(rest[i]) by {
            assert(rest[i] == s[i + 1]);
        }
        if n < s.len() {
            assert(rest[n - 1] == s[n]);
        }
        lemma_leading_space(rest, n - 1);
    }
}

/// The same for trailing white space.
pub proof fn lemma_trailing_space(s: Seq<char>, n: int)
    requires
        0 <= n <= s.len(),
        forall|i: int| s.len() - n <= i < s.len() ==> white_space(s[i]),
        n < s.len() ==> !white_space(s[s.len() - n - 1]),
    ensures
        trailing_space(s) == n,
    decreases s.len(),
{
    if n > 0 {
        let rest = s.drop_last();
        lemma_trailing_space(rest, n - 1);
    }
}

/// The white space at either end never overlaps, unless there is nothing else.
pub proof fn lemma_spaces_apart(s: Seq<char>)
    ensures
        leading_space(s) <= s.len(),
        trailing_space(s) <= s.len(),
        leading_space(s) < s.len() ==> leading_space(s) + trailing_space(s) < s.len(),
        leading_space(s) < s.len() ==> !white_space(s[leading_space(s) as int]),
        leading_space(s) == s.len() ==> trailing_space(s) == s.len(),
        forall|i: int| 0 <= i < leading_space(s) ==> white_space(s[i]),
        forall|i: int| s.len() - trailing_space(s) <= i < s.len() ==> white_space(s[i]),
        trailing_space(s) < s.len() ==> !white_space(s[s.len() - trailing_space(s) - 1]),
{
    lemma_leading_run(s);
    lemma_trailing_run(s);
    let n = leading_space(s) as int;
    if n < s.len() {
        if n + trailing_space(s) >= s.len() {
            assert(white_space(s[n]));
        }
    } else {
        lemma_trailing_space(s, s.len() as int);
    }
}

proof fn lemma_leading_run(s: Seq<char>)
    ensures
        leading_space(s) <= s.len(),
        forall|i: int| 0 <= i < leading_space(s) ==> white_space(s[i]),
        leading_space(s) < s.len() ==> !white_space(s[leading_space(s) as int]),
    decreases s.len(),
{
    if s.len() > 0 && white_space(s[0]) {
        let rest = s.drop_first();
        lemma_leading_run(rest);
        assert forall|i: int| 0 <= i < leading_space(s) implies white_space(s[i]) by {
            if i > 0 {
                assert(rest[i - 1] == s[i]);
            }
        }
    }
}

proof fn lemma_trailing_run(s: Seq<char>)
    ensures
        trailing_space(s) <= s.len(),
        forall|i: int| s.len() - trailing_space(s) <= i < s.len() ==> white_space(s[i]),
        trailing_space(s) < s.len() ==> !white_space(s[s.len() - trailing_space(s) - 1]),
    decreases s.len(),
{
    if s.len() > 0 && white_space(s.last()) {
        let rest = s.drop_last();
        lemma_trailing_run(rest);
        assert forall|i: int| s.len() - trailing_space(s) <= i < s.len() implies white_space(
            s[i],
        ) by {
            if i < s.len() - 1 {
                assert(rest[i] == s[i]);
            }
        }
    }
}

/// How many white-space characters `chars` starts with.
pub fn count_leading_space(chars: &Vec<char>) -> (n: usize)
    ensures
        n == leading_space(chars@),
{
    let mut n: usize = 0;
    while n < chars.len() && is_white_space(chars[n])
        invariant
            n <= chars@.len(),
            forall|i: int| 0 <= i < n ==> white_space(chars@[i]),
        decreases chars.len() - n,
    {
        n += 1;
    }
    proof {
        lemma_leading_space(chars@, n as int);
    }
    n
}

/// How many white-space characters `chars` ends with.
pub fn count_trailing_space(chars: &Vec<char>) -> (n: usize)
    ensures
        n == trailing_space(chars@),
{
    let mut n: usize = 0;
    while n < chars.len() && is_white_space(chars[chars.len() - n - 1])
        invariant
            n <= chars@.len(),
            forall|i: int| chars@.len() - n <= i < chars@.len() ==> white_space(chars@[i]),
        decreases chars.len() - n,
    {
        n += 1;
    }
    proof {
        lemma_trailing_space(chars@, n as int);
    }
    n
}

/// `text` without the white space around it.
pub fn trim(text: &str) -> (inner: String)
    ensures
        inner@ == trimmed(text@),
{
    let chars: Vec<char> = chars_of(text);
    let leading: usize = count_leading_space(&chars);
    let trailing: usize = count_trailing_space(&chars);
    proof {
        lemma_spaces_apart(chars@);
    }
    if leading == chars.len() {
        String::new()
    } else {
        string_of(&chars, leading, chars.len() - trailing)
    }
}

/// Whether `chars` holds `pattern` at position `at`.
pub fn matches_at(chars: &Vec<char>, pattern: &Vec<char>, at: usize) -> (yes: bool)
    requires
        at <= chars@.len(),
    ensures
        yes == pattern@.is_prefix_of(chars@.skip(at as int)),
{
    let count: usize = chars.len();
    if pattern.len() > count - at {
        return false;
    }
    let mut i: usize = 0;
    while i < pattern.len()
        invariant
            at <= chars@.len() == count,
            pattern@.len() <= chars@.len() - at,
            i <= pattern@.len(),
            forall|j: int| 0 <= j < i ==> pattern@[j] == chars@[at + j],
        decreases pattern.len() - i,
    {
        if pattern[i] != chars[at + i] {
            proof {
                assert(chars@.skip(at as int)[i as int] != pattern@[i as int]);
            }
            return false;
        }
        i += 1;
    }
    proof {
        assert(pattern@ =~= chars@.skip(at as int).subrange(0, pattern@.len() as int));
    }
    true
}

/// Whether `text` starts with `prefix`.
pub fn starts_with(text: &str, prefix: &str) -> (yes: bool)
    ensures
        yes == prefix@.is_prefix_of(text@),
{
    let chars: Vec<char> = chars_of(text);
    let pattern: Vec<char> = chars_of(prefix);
    proof {
        assert(chars@.skip(0) =~= chars@);
    }
    matches_at(&chars, &pattern, 0)
}

/// `s` with every occurrence of `pattern`, found from the left and without
/// overlap, replaced by `with`.
pub open spec fn replaced(s: Seq<char>, pattern: Seq<char>, with: Seq<char>) -> Seq<char>
    decreases s.len(),
{
    if pattern.len() == 0 || s.len() == 0 {
        s
    } else if pattern.is_prefix_of(s) {
        with + replaced(s.skip(pattern.len() as int), pattern, with)
    } else {
        seq![s[0]] + replaced(s.drop_first(), pattern, with)
    }
}

/// `text` with every occurrence of `pattern` replaced by `with`.
pub fn replace_all(text: &str, pattern: &str, with: &str) -> (result: String)
    requires
        pattern@.len() > 0,
    ensures
        result@ == replaced(text@, pattern@, with@),
{
    let chars: Vec<char> = chars_of(text);
    let needle: Vec<char> = chars_of(pattern);
    let mut result: String = String::new();
    let mut i: usize = 0;
    proof {
        assert(chars@.skip(0) =~= chars@);
    }
    while i < chars.len()
        invariant
            i <= chars@.len(),
            chars@ == text@,
            needle@ == pattern@,
            needle@.len() > 0,
            replaced(text@, pattern@, with@) == result@ + replaced(
                chars@.skip(i as int),
                needle@,
                with@,
            ),
        decreases chars.len() - i,
    {
        let ghost rest = chars@.skip(i as int);
        if matches_at(&chars, &needle, i) {
            proof {
                assert(rest.skip(needle@.len() as int) =~= chars@.skip(i + needle@.len()));
                assert(result@ + (with@ + replaced(
                    rest.skip(needle@.len() as int),
                    needle@,
                    with@,
                )) =~= (result@ + with@) + replaced(rest.skip(needle@.len() as int), needle@, with@));
            }
            result.append(with);
            i += needle.len();
        } else {
            proof {
                assert(rest.drop_first() =~= chars@.skip(i + 1));
                assert(result@ + (seq![rest[0]] + replaced(rest.drop_first(), needle@, with@))
                    =~= result@.push(rest[0]) + replaced(rest.drop_first(), needle@, with@));
            }
            result.push(chars[i]);
            i += 1;
        }
    }
    proof {
        assert(chars@.skip(i as int) =~= Seq::<char>::empty());
        assert(result@ + Seq::<char>::empty() =~= result@);
    }
    result
}

/// Text that does not hold the pattern is left as it is.
pub proof fn replacing_what_is_absent_changes_nothing(s: Seq<char>, pattern: Seq<char>, with: Seq<char>)
    requires
        forall|i: int| 0 <= i <= s.len() ==> !pattern.is_prefix_of(#[trigger] s.skip(i)),
    ensures
        replaced(s, pattern, with) == s,
    decreases s.len(),
{
    if s.len() > 0 {
        assert(s.skip(0) =~= s);
        assert forall|i: int| 0 <= i <= s.drop_first().len() implies !pattern.is_prefix_of(
            #[trigger] s.drop_first().skip(i),
        ) by {
            assert(s.drop_first().skip(i) =~= s.skip(i + 1));
        }
        replacing_what_is_absent_changes_nothing(s.drop_first(), pattern, with);
        assert(seq![s[0]] + s.drop_first() =~= s);
    }
}

/// The ASCII letters and digits.
pub open spec fn ascii_alphanumeric(c: char) -> bool {
    ascii_alphabetic(c) || ascii_digit(c)
}

/// The ASCII letters.
pub open spec fn ascii_alphabetic(c: char) -> bool {
    'a' <= c <= 'z' || 'A' <= c <= 'Z'
}

/// The ASCII digits.
pub open spec fn ascii_digit(c: char) -> bool {
    '0' <= c <= '9'
}

/// `c`, or the small letter where `c` is an ASCII capital.
pub open spec fn ascii_lower(c: char) -> char {
    if 'A' <= c <= 'Z' {
        (c as u32 + 32) as char
    } else {
        c
    }
}

/// Whether `c` is an ASCII letter or digit.
pub fn is_ascii_alphanumeric(c: char) -> (yes: bool)
    ensures
        yes == ascii_alphanumeric(c),
{
    ('a' <= c && c <= 'z') || ('A' <= c && c <= 'Z') || ('0' <= c && c <= '9')
}

/// `c` with an ASCII capital made small.
pub fn to_ascii_lower(c: char) -> (lower: char)
    ensures
        lower == ascii_lower(c),
{
    if 'A' <= c && c <= 'Z' {
        ((c as u8) + 32) as char
    } else {
        c
    }
}

/// `s` with its ASCII capitals made small.
pub open spec fn ascii_lowered(s: Seq<char>) -> Seq<char> {
    s.map_values(|c: char| ascii_lower(c))
}

/// Whether two pieces of text differ at most in the case of ASCII letters.
pub fn same_ignoring_ascii_case(a: &str, b: &str) -> (same: bool)
    ensures
        same == (ascii_lowered(a@) == ascii_lowered(b@)),
{
    let x: Vec<char> = chars_of(a);
    let y: Vec<char> = chars_of(b);
    if x.len() != y.len() {
        proof {
            assert(ascii_lowered(a@).len() != ascii_lowered(b@).len());
        }
        return false;
    }
    let mut i: usize = 0;
    while i < x.len()
        invariant
            i <= x@.len() == y@.len(),
            x@ == a@,
            y@ == b@,
            forall|j: int| 0 <= j < i ==> ascii_lower(x@[j]) == ascii_lower(y@[j]),
        decreases x.len() - i,
    {
        if to_ascii_lower(x[i]) != to_ascii_lower(y[i]) {
            proof {
                assert(ascii_lowered(a@)[i as int] != ascii_lowered(b@)[i as int]);
            }
            return false;
        }
        i += 1;
    }
    proof {
        assert(ascii_lowered(a@) =~= ascii_lowered(b@));
    }
    true
}

/// The digit for a value below sixteen.
pub open spec fn hex_digit(value: int) -> char {
    if value < 10 {
        (48 + value) as char
    } else {
        (87 + value) as char
    }
}

/// `value` in base ten.
pub open spec fn decimal(value: nat) -> Seq<char>
    decreases value,
{
    if value < 10 {
        seq![hex_digit(value as int)]
    } else {
        decimal(value / 10).push(hex_digit((value % 10) as int))
    }
}

/// The lowest `width` digits of `value` in base sixteen, highest first.
pub open spec fn hex_digits(value: nat, width: nat) -> Seq<char>
    decreases width,
{
    if width == 0 {
        Seq::empty()
    } else {
        hex_digits(value / 16, (width - 1) as nat).push(hex_digit((value % 16) as int))
    }
}

/// The digit for a value below sixteen.
pub fn digit_char(value: u64) -> (c: char)
    requires
        value < 16,
    ensures
        c == hex_digit(value as int),
{
    if value < 10 {
        (48 + value as u8) as char
    } else {
        (87 + value as u8) as char
    }
}

/// `value` in base ten.
pub fn decimal_text(value: u64) -> (text: String)
    ensures
        text@ == decimal(value as nat),
    decreases value,
{
    let mut text: String = if value < 10 {
        String::new()
    } else {
        decimal_text(value / 10)
    };
    text.push(digit_char(value % 10));
    proof {
        assert(text@ =~= decimal(value as nat));
    }
    text
}

/// The lowest `width` digits of `value` in base sixteen, highest first.
pub fn hex_text(value: u64, width: usize) -> (text: String)
    ensures
        text@ == hex_digits(value as nat, width as nat),
    decreases width,
{
    if width == 0 {
        String::new()
    } else {
        let mut text: String = hex_text(value / 16, width - 1);
        text.push(digit_char(value % 16));
        text
    }
}

/// Where the first ASCII digit of `s` stands; its length if it has none.
pub open spec fn digits_start(s: Seq<char>) -> nat
    decreases s.len(),
{
    if s.len() == 0 || ascii_digit(s[0]) {
        0
    } else {
        1 + digits_start(s.drop_first())
    }
}

/// How many ASCII digits `s` starts with.
pub open spec fn digits_run(s: Seq<char>) -> nat
    decreases s.len(),
{
    if s.len() == 0 || !ascii_digit(s[0]) {
        0
    } else {
        1 + digits_run(s.drop_first())
    }
}

/// `digits` with a comma before every third one, counted from the right.
pub open spec fn grouped(digits: Seq<char>) -> Seq<char>
    decreases digits.len(),
{
    if digits.len() <= 3 {
        digits
    } else {
        grouped(digits.take(digits.len() - 3)).push(',') + digits.skip(digits.len() - 3)
    }
}

/// `s` with its first run of digits grouped by commas, and all else as it was.
pub open spec fn with_commas(s: Seq<char>) -> Seq<char> {
    let start = digits_start(s) as int;
    let end = start + digits_run(s.skip(start));
    s.take(start) + grouped(s.subrange(start, end)) + s.skip(end)
}

/// `thousands::Separable::separate_with_commas` on text: a comma goes before
/// every third digit, counted from the right, of the first run of ASCII digits;
/// a sign, a decimal point and what follows them stay as they are.
#[verifier::external_body]
pub(crate) fn separate_with_commas(text: &str) -> (result: String)
    ensures
        result@ == with_commas(text@),
{
    text.separate_with_commas()
}

/// `value` in base ten with a comma before every third digit.
pub fn number_with_commas(value: u64) -> (text: String)
    ensures
        text@ == with_commas(decimal(value as nat)),
{
    let digits: String = decimal_text(value);
    separate_with_commas(digits.as_str())
}

/// A number in base ten is all digits, so grouping leaves only digits and
/// commas and the whole number is one run.
pub proof fn decimal_is_grouped_whole(value: nat)
    ensures
        with_commas(decimal(value)) == grouped(decimal(value)),
{
    let s = decimal(value);
    lemma_decimal_digits(value);
    lemma_all_digits(s);
    assert(s.skip(0) =~= s);
    assert(s.take(0) =~= Seq::<char>::empty());
    assert(s.subrange(0, s.len() as int) =~= s);
    assert(s.skip(s.len() as int) =~= Seq::<char>::empty());
    assert(with_commas(s) =~= grouped(s));
}

proof fn lemma_decimal_digits(value: nat)
    ensures
        decimal(value).len() > 0,
        forall|i: int| 0 <= i < decimal(value).len() ==> ascii_digit(#[trigger] decimal(value)[i]),
    decreases value,
{
    if value >= 10 {
        lemma_decimal_digits(value / 10);
    }
}

proof fn lemma_all_digits(s: Seq<char>)
    requires
        forall|i: int| 0 <= i < s.len() ==> ascii_digit(#[trigger] s[i]),
    ensures
        digits_start(s) == 0,
        digits_run(s) == s.len(),
    decreases s.len(),
{
    if s.len() > 0 {
        assert(ascii_digit(s[0]));
        lemma_all_digits(s.drop_first());
    }
}

} // verus!
