//! Text building: decimal numerals, ASCII case, joined lists, and the size labels built on them.
use vstd::prelude::*;
use vstd::string::*;

verus! {

/// `std::string::String::push` appends the character to the end of the string.
pub assume_specification[ String::push ](s: &mut String, c: char)
    ensures
        final(s)@ == old(s)@.push(c),
;

/// Whether two texts are the same.
pub fn same_text(a: &str, b: &str) -> (same: bool)
    ensures
        same == (a@ == b@),
{
    let left: Vec<char> = chars_of(a);
    let right: Vec<char> = chars_of(b);
    if left.len() != right.len() {
        return false;
    }
    let mut i: usize = 0;
    while i < left.len()
        invariant
            i <= left@.len() == right@.len(),
            left@ == a@,
            right@ == b@,
            forall|j: int| 0 <= j < i ==> left@[j] == right@[j],
        decreases left@.len() - i,
    {
        if left[i] != right[i] {
            return false;
        }
        i = i + 1;
    }
    assert(left@ =~= right@);
    true
}

/// The decimal digit of a number below ten.
pub open spec fn digit(d: nat) -> char {
    (48 + d) as char
}

/// The decimal numeral of `n`, without leading zeros.
pub open spec fn decimal(n: nat) -> Seq<char>
    decreases n,
{
    if n < 10 {
        seq![digit(n)]
    } else {
        decimal(n / 10).push(digit(n % 10))
    }
}

/// Writes [`decimal`].
pub fn decimal_text(n: u128) -> (text: String)
    ensures
        text@ == decimal(n as nat),
    decreases n,
{
    let mut text: String = if n < 10 {
        String::new()
    } else {
        decimal_text(n / 10)
    };
    let last: u8 = (n % 10) as u8;
    text.push((48 + last) as char);
    assert(text@ =~= decimal(n as nat));
    text
}

/// The lower-case form of an ASCII letter; any other character unchanged.
pub open spec fn ascii_lower(c: char) -> char {
    if 'A' <= c && c <= 'Z' {
        (c as u32 + 32) as char
    } else {
        c
    }
}

/// The upper-case form of an ASCII letter; any other character unchanged.
pub open spec fn ascii_upper(c: char) -> char {
    if 'a' <= c && c <= 'z' {
        (c as u32 - 32) as char
    } else {
        c
    }
}

pub fn lower_char(c: char) -> (lower: char)
    ensures
        lower == ascii_lower(c),
{
    if 'A' <= c && c <= 'Z' {
        let code: u8 = (c as u32 + 32) as u8;
        code as char
    } else {
        c
    }
}

pub fn upper_char(c: char) -> (upper: char)
    ensures
        upper == ascii_upper(c),
{
    if 'a' <= c && c <= 'z' {
        let code: u8 = (c as u32 - 32) as u8;
        code as char
    } else {
        c
    }
}

/// Each letter of `text` in lower case.
pub open spec fn lower(text: Seq<char>) -> Seq<char> {
    text.map_values(|c: char| ascii_lower(c))
}

/// Each letter of `text` in upper case.
pub open spec fn upper(text: Seq<char>) -> Seq<char> {
    text.map_values(|c: char| ascii_upper(c))
}

/// The characters of a string, in order.
pub fn chars_of(text: &str) -> (chars: Vec<char>)
    ensures
        chars@ == text@,
{
    let mut chars: Vec<char> = Vec::new();
    for c in iter: text.chars()
        invariant
            chars@ == iter.seq().take(iter.index()),
            iter.seq() == text@,
    {
        chars.push(c);
    }
    chars
}

/// The string with the given characters.
pub fn string_of(chars: &Vec<char>) -> (text: String)
    ensures
        text@ == chars@,
{
    let mut text: String = String::new();
    let mut i: usize = 0;
    while i < chars.len()
        invariant
            i <= chars@.len(),
            text@ == chars@.take(i as int),
        decreases chars@.len() - i,
    {
        text.push(chars[i]);
        i = i + 1;
    }
    assert(chars@.take(i as int) =~= chars@);
    text
}

pub fn lower_text(text: &str) -> (result: String)
    ensures
        result@ == lower(text@),
{
    let mut chars: Vec<char> = chars_of(text);
    let mut i: usize = 0;
    while i < chars.len()
        invariant
            i <= chars@.len(),
            chars@.len() == text@.len(),
            forall|k: int| 0 <= k < i ==> chars@[k] == ascii_lower(text@[k]),
            forall|k: int| i <= k < chars@.len() ==> chars@[k] == text@[k],
        decreases chars@.len() - i,
    {
        let c: char = lower_char(chars[i]);
        chars.set(i, c);
        i = i + 1;
    }
    assert(chars@ =~= lower(text@));
    string_of(&chars)
}

pub fn upper_text(text: &str) -> (result: String)
    ensures
        result@ == upper(text@),
{
    let mut chars: Vec<char> = chars_of(text);
    let mut i: usize = 0;
    while i < chars.len()
        invariant
            i <= chars@.len(),
            chars@.len() == text@.len(),
            forall|k: int| 0 <= k < i ==> chars@[k] == ascii_upper(text@[k]),
            forall|k: int| i <= k < chars@.len() ==> chars@[k] == text@[k],
        decreases chars@.len() - i,
    {
        let c: char = upper_char(chars[i]);
        chars.set(i, c);
        i = i + 1;
    }
    assert(chars@ =~= upper(text@));
    string_of(&chars)
}

/// The parts one after another, `separator` between neighbours.
pub open spec fn joined(parts: Seq<Seq<char>>, separator: Seq<char>) -> Seq<char>
    decreases parts.len(),
{
    if parts.len() == 0 {
        Seq::empty()
    } else if parts.len() == 1 {
        parts[0]
    } else {
        joined(parts.drop_last(), separator) + separator + parts.last()
    }
}

/// The texts of a list of strings.
pub open spec fn texts(parts: Seq<String>) -> Seq<Seq<char>> {
    parts.map_values(|part: String| part@)
}

/// Writes [`joined`].
pub fn join(parts: &Vec<String>, separator: &str) -> (text: String)
    ensures
        text@ == joined(texts(parts@), separator@),
{
    let mut text: String = String::new();
    let mut i: usize = 0;
    while i < parts.len()
        invariant
            i <= parts@.len(),
            text@ == joined(texts(parts@).take(i as int), separator@),
        decreases parts@.len() - i,
    {
        let ghost so_far = texts(parts@).take(i as int);
        let ghost longer = texts(parts@).take(i + 1);
        assert(longer.drop_last() =~= so_far);
        if i > 0 {
            text.append(separator);
        }
        text.append(parts[i].as_str());
        assert(longer.last() == parts@[i as int]@);
        assert(text@ =~= joined(longer, separator@));
        i = i + 1;
    }
    assert(texts(parts@).take(i as int) =~= texts(parts@));
    text
}

/// One mebibyte.
pub const MEBIBYTE: u128 = 0x10_0000;

/// Mebibytes with at most one decimal, rounded to the nearest tenth, a zero decimal left out.
pub open spec fn mebibyte_label(bytes: nat) -> Seq<char> {
    let tenths = (bytes * 10 + MEBIBYTE as nat / 2) / (MEBIBYTE as nat);
    if tenths % 10 == 0 {
        decimal(tenths / 10)
    } else {
        decimal(tenths / 10) + seq!['.'] + decimal(tenths % 10)
    }
}

pub fn format_bytes_mb(bytes: usize) -> (text: String)
    ensures
        text@ == mebibyte_label(bytes as nat),
{
    let tenths: u128 = (bytes as u128 * 10 + MEBIBYTE / 2) / MEBIBYTE;
    let whole: u128 = tenths / 10;
    let frac: u128 = tenths % 10;
    let mut text: String = decimal_text(whole);
    if frac != 0 {
        text.push('.');
        text.append(decimal_text(frac).as_str());
        assert(text@ =~= mebibyte_label(bytes as nat));
    }
    text
}

/// Whether a character is white space: the `White_Space` property of Unicode.
pub open spec fn white_space(c: char) -> bool {
    let n = c as u32;
    (9 <= n <= 13) || n == 0x20 || n == 0x85 || n == 0xA0 || n == 0x1680 || (0x2000 <= n <= 0x200A)
        || n == 0x2028 || n == 0x2029 || n == 0x202F || n == 0x205F || n == 0x3000
}

/// Whether a text holds nothing but white space.
pub open spec fn blank(text: Seq<char>) -> bool {
    forall|i: int| 0 <= i < text.len() ==> white_space(#[trigger] text[i])
}

pub fn is_white_space(c: char) -> (white: bool)
    ensures
        white == white_space(c),
{
    let n: u32 = c as u32;
    (9 <= n && n <= 13) || n == 0x20 || n == 0x85 || n == 0xA0 || n == 0x1680 || (0x2000 <= n && n
        <= 0x200A) || n == 0x2028 || n == 0x2029 || n == 0x202F || n == 0x205F || n == 0x3000
}

pub fn is_blank(text: &str) -> (empty: bool)
    ensures
        empty == blank(text@),
{
    let chars: Vec<char> = chars_of(text);
    let mut i: usize = 0;
    while i < chars.len()
        invariant
            i <= chars@.len(),
            chars@ == text@,
            forall|j: int| 0 <= j < i ==> white_space(#[trigger] text@[j]),
        decreases chars@.len() - i,
    {
        if !is_white_space(chars[i]) {
            return false;
        }
        i = i + 1;
    }
    true
}

/// The place of the first `{}` from `from` on; the length of the template where there is none.
pub open spec fn placeholder(template: Seq<char>, from: int) -> int
    decreases template.len() - from,
{
    if from < 0 || from + 1 >= template.len() {
        template.len() as int
    } else if template[from] == '{' && template[from + 1] == '}' {
        from
    } else {
        placeholder(template, from + 1)
    }
}

/// The template with a value in place of the first `{}`.
pub open spec fn filled(template: Seq<char>, value: Seq<char>) -> Seq<char> {
    let at = placeholder(template, 0);
    if at < template.len() {
        template.take(at) + value + template.skip(at + 2)
    } else {
        template
    }
}

/// Puts a value in place of the first `{}` of a template.
pub fn fill_placeholder(template: &str, value: &str) -> (text: String)
    ensures
        text@ == filled(template@, value@),
{
    let chars: Vec<char> = chars_of(template);
    let mut at: usize = 0;
    while at < chars.len() && !(chars.len() - at >= 2 && chars[at] == '{' && chars[at + 1] == '}')
        invariant
            at <= chars@.len(),
            chars@ == template@,
            placeholder(template@, 0) == placeholder(template@, at as int),
        decreases chars@.len() - at,
    {
        at = at + 1;
    }
    if at >= chars.len() {
        assert(placeholder(template@, 0) == template@.len());
        return template.to_owned();
    }
    let mut text: String = String::new();
    let mut i: usize = 0;
    while i < at
        invariant
            i <= at <= chars@.len(),
            chars@ == template@,
            text@ == template@.take(i as int),
        decreases at - i,
    {
        text.push(chars[i]);
        i = i + 1;
        assert(text@ =~= template@.take(i as int));
    }
    text.append(value);
    let ghost head = text@;
    let mut k: usize = at + 2;
    assert(text@ =~= head + template@.subrange(at + 2, k as int));
    while k < chars.len()
        invariant
            at + 2 <= k <= chars@.len(),
            chars@ == template@,
            text@ == head + template@.subrange(at + 2, k as int),
        decreases chars@.len() - k,
    {
        text.push(chars[k]);
        k = k + 1;
        assert(text@ =~= head + template@.subrange(at + 2, k as int));
    }
    assert(text@ =~= filled(template@, value@));
    text
}

/// The number that digits stand for.
pub open spec fn number_of(digits: Seq<char>) -> nat
    decreases digits.len(),
{
    if digits.len() == 0 {
        0
    } else {
        (number_of(digits.drop_last()) * 10 + (digits.last() as u32 - 48)) as nat
    }
}

/// A numeral stands for its number: it is made of digits, and read back it gives the number again.
pub proof fn law_numerals_are_read_back(n: nat, i: int)
    ensures
        number_of(decimal(n)) == n,
        decimal(n).len() > 0,
        0 <= i < decimal(n).len() ==> '0' <= decimal(n)[i] && decimal(n)[i] <= '9',
        n > 0 ==> decimal(n)[0] != '0',
    decreases n,
{
    if n < 10 {
        assert(decimal(n).drop_last() =~= Seq::empty());
        assert(number_of(Seq::<char>::empty()) == 0);
    } else {
        law_numerals_are_read_back(n / 10, i);
        law_numerals_are_read_back(n / 10, 0);
        assert(decimal(n).drop_last() =~= decimal(n / 10));
    }
}

/// Letter case: lower case of a capital is its small letter, and other characters stay.
pub proof fn law_case_is_of_letters(c: char)
    ensures
        'A' <= c && c <= 'Z' ==> 'a' <= ascii_lower(c) && ascii_lower(c) <= 'z' && ascii_upper(
            ascii_lower(c),
        ) == c,
        'a' <= c && c <= 'z' ==> 'A' <= ascii_upper(c) && ascii_upper(c) <= 'Z' && ascii_lower(
            ascii_upper(c),
        ) == c,
        !('A' <= c && c <= 'Z') ==> ascii_lower(c) == c,
        !('a' <= c && c <= 'z') ==> ascii_upper(c) == c,
{
}

/// Joined parts: one more part follows behind a separator, and a single part stands alone.
pub proof fn law_parts_are_joined_in_order(
    parts: Seq<Seq<char>>,
    part: Seq<char>,
    separator: Seq<char>,
)
    ensures
        joined(seq![part], separator) == part,
        parts.len() > 0 ==> joined(parts.push(part), separator) == joined(parts, separator)
            + separator + part,
        joined(Seq::empty(), separator).len() == 0,
{
    assert(parts.push(part).drop_last() =~= parts);
}

proof fn lemma_placeholder(template: Seq<char>, from: int, k: int)
    requires
        0 <= from,
    ensures
        ({
            let at = placeholder(template, from);
            &&& at < template.len() ==> from <= at && at + 1 < template.len() && template[at] == '{'
                && template[at + 1] == '}'
            &&& at <= template.len()
            &&& from <= k < at && k + 1 < template.len() ==> !(template[k] == '{' && template[k
                + 1] == '}')
        }),
    decreases template.len() - from,
{
    if from + 1 < template.len() && !(template[from] == '{' && template[from + 1] == '}') {
        lemma_placeholder(template, from + 1, k);
    }
}

/// A value takes the place of the first braces, and what stands around them stays; a template
/// without braces stays as it is.
pub proof fn law_first_braces_are_filled(
    before: Seq<char>,
    behind: Seq<char>,
    value: Seq<char>,
)
    requires
        forall|k: int|
            0 <= k < before.len() ==> !(#[trigger] before[k] == '{' && k + 1 < before.len()
                && before[k + 1] == '}'),
    ensures
        filled(before + seq!['{', '}'] + behind, value) == before + value + behind,
        filled(before, value) == before,
{
    let template = before + seq!['{', '}'] + behind;
    let n = before.len() as int;
    let at = placeholder(template, 0);
    lemma_placeholder(template, 0, n);
    assert(template[n] == '{' && template[n + 1] == '}');
    if at < n {
        lemma_placeholder(template, 0, at);
        assert(before[at] == '{');
        if at + 1 < n {
            assert(before[at + 1] == '}');
        } else {
            assert(template[at + 1] == '{');
        }
    }
    assert(at == n);
    assert(template.take(n) =~= before);
    assert(template.skip(n + 2) =~= behind);
    let none = placeholder(before, 0);
    lemma_placeholder(before, 0, none);
    if none < before.len() {
        assert(before[none] == '{');
    }
}

/// Mebibytes are rounded to the nearest tenth, and a whole number has no decimal.
pub proof fn law_mebibytes_are_told_in_tenths(bytes: nat)
    ensures
        exists|tenths: nat|
            (mebibyte_label(bytes) == if tenths % 10 == 0 {
                decimal(tenths / 10)
            } else {
                decimal(tenths / 10) + seq!['.'] + decimal(tenths % 10)
            }) && #[trigger] (tenths * 1_048_576) <= bytes * 10 + 524_288 && bytes * 10 < tenths
                * 1_048_576 + 524_288,
{
    let tenths = (bytes * 10 + 524_288) / 1_048_576;
    assert(tenths * 1_048_576 <= bytes * 10 + 524_288);
}

/// A text of nothing but white space is blank, and one with any other character is not.
pub proof fn law_blank_texts_hold_nothing(text: Seq<char>, c: char)
    ensures
        blank(Seq::empty()),
        blank(text.push(c)) <==> blank(text) && white_space(c),
        white_space(' ') && white_space('\t') && white_space('\n') && white_space('\r'),
        '!' <= c && c <= '~' ==> !white_space(c),
{
    let more = text.push(c);
    if blank(more) {
        assert(white_space(more[text.len() as int]));
        assert forall|i: int| 0 <= i < text.len() implies white_space(#[trigger] text[i]) by {
            assert(more[i] == text[i]);
        }
    }
}

} // verus!
