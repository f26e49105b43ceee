//! Text: what it means for one text to stand in another, and the small
//! operations on text that the rest of the library is built from.
use vstd::prelude::*;

verus! {

/// `String::push` appends the given character to the end of the string.
pub assume_specification[ String::push ](text: &mut String, c: char)
    ensures
        final(text)@ == old(text)@.push(c),
;

/// `part` stands in `text` and starts at index `at`.
pub open spec fn occurs_at(text: Seq<char>, part: Seq<char>, at: int) -> bool {
    &&& 0 <= at
    &&& at + part.len() <= text.len()
    &&& text.subrange(at, at + part.len()) == part
}

/// `part` stands somewhere in `text`.
pub open spec fn contains_text(text: Seq<char>, part: Seq<char>) -> bool {
    exists|at: int| occurs_at(text, part, at)
}

/// `text` begins with `prefix`.
pub open spec fn starts_with_text(text: Seq<char>, prefix: Seq<char>) -> bool {
    occurs_at(text, prefix, 0)
}

/// `text` ends with `suffix`.
pub open spec fn ends_with_text(text: Seq<char>, suffix: Seq<char>) -> bool {
    occurs_at(text, suffix, text.len() - suffix.len())
}

/// The texts of a list of strings.
pub open spec fn texts(strings: Seq<String>) -> Seq<Seq<char>> {
    strings.map_values(|string: String| string@)
}

/// The texts of a list of strings stand where the strings stand.
pub proof fn texts_keep_their_places(strings: Seq<String>)
    ensures
        texts(strings).len() == strings.len(),
        forall|i: int| 0 <= i < strings.len() ==> #[trigger] texts(strings)[i] == strings[i]@,
{
}

/// The characters of `text`.
pub fn chars_of(text: &str) -> (chars: Vec<char>)
    ensures
        chars@ == text@,
{
    let mut chars: Vec<char> = Vec::new();
    for c in it: text.chars()
        invariant
            it.seq() == text@,
            chars@ == text@.take(it.index()),
    {
        chars.push(c);
        assert(text@.take(it.index() + 1) == text@.take(it.index()).push(c));
    }
    assert(text@.take(text@.len() as int) == text@);
    chars
}

/// Whether `part` stands in `text` from index `at` on.
fn matches_at(text: &Vec<char>, part: &Vec<char>, at: usize) -> (found: bool)
    requires
        at + part@.len() <= text@.len(),
    ensures
        found == occurs_at(text@, part@, at as int),
{
    let len: usize = text.len();
    let mut k: usize = 0;
    while k < part.len()
        invariant
            len == text@.len(),
            k <= part@.len(),
            at + part@.len() <= len,
            forall|j: int| 0 <= j < k ==> text@[at + j] == part@[j],
        decreases part@.len() - k,
    {
        if text[at + k] != part[k] {
            assert(text@.subrange(at as int, at + part@.len())[k as int] != part@[k as int]);
            return false;
        }
        k += 1;
    }
    assert(text@.subrange(at as int, at + part@.len()) =~= part@);
    true
}

/// Whether `part` stands somewhere in `text`.
pub fn text_contains(text: &str, part: &str) -> (found: bool)
    ensures
        found == contains_text(text@, part@),
{
    let chars = chars_of(text);
    let wanted = chars_of(part);
    if wanted.len() > chars.len() {
        return false;
    }
    let last: usize = chars.len() - wanted.len();
    let mut at: usize = 0;
    while at <= last
        invariant
            chars@ == text@,
            wanted@ == part@,
            last + wanted@.len() == chars@.len(),
            at <= last + 1,
            forall|i: int| 0 <= i < at ==> !occurs_at(text@, part@, i),
        decreases last + 1 - at,
    {
        if matches_at(&chars, &wanted, at) {
            assert(occurs_at(text@, part@, at as int));
            return true;
        }
        if at == last {
            return false;
        }
        at += 1;
    }
    false
}

/// Whether `text` begins with `prefix`.
pub fn text_starts_with(text: &str, prefix: &str) -> (found: bool)
    ensures
        found == starts_with_text(text@, prefix@),
{
    let chars = chars_of(text);
    let wanted = chars_of(prefix);
    wanted.len() <= chars.len() && matches_at(&chars, &wanted, 0)
}

/// The characters `from..to` of `chars`, as a string.
fn string_of(chars: &Vec<char>, from: usize, to: usize) -> (text: String)
    requires
        from <= to <= chars@.len(),
    ensures
        text@ == chars@.subrange(from as int, to as int),
{
    let mut text = String::new();
    let mut k: usize = from;
    while k < to
        invariant
            from <= k <= to <= chars@.len(),
            text@ == chars@.subrange(from as int, k as int),
        decreases to - k,
    {
        text.push(chars[k]);
        assert(chars@.subrange(from as int, k + 1) == chars@.subrange(from as int, k as int).push(
            chars@[k as int],
        ));
        k += 1;
    }
    text
}

/// `text` with each `,` turned into `:`.
pub open spec fn commas_replaced(text: Seq<char>) -> Seq<char> {
    text.map_values(|c: char| if c == ',' { ':' } else { c })
}

/// Turns each `,` of `text` into `:`.
pub fn replace_commas(text: &str) -> (replaced: String)
    ensures
        replaced@ == commas_replaced(text@),
{
    let mut replaced = String::new();
    for c in it: text.chars()
        invariant
            it.seq() == text@,
            replaced@ == commas_replaced(text@.take(it.index())),
    {
        if c == ',' {
            replaced.push(':');
        } else {
            replaced.push(c);
        }
        assert(text@.take(it.index() + 1) == text@.take(it.index()).push(c));
        assert(commas_replaced(text@.take(it.index()).push(c)) =~= commas_replaced(
            text@.take(it.index()),
        ).push(if c == ',' { ':' } else { c }));
    }
    assert(text@.take(text@.len() as int) == text@);
    replaced
}

/// The code points with the Unicode property `White_Space`.
pub open spec fn is_white_space(c: char) -> bool {
    let code = c as u32;
    ||| 0x09 <= code <= 0x0d
    ||| code == 0x20
    ||| code == 0x85
    ||| code == 0xa0
    ||| code == 0x1680
    ||| 0x2000 <= code <= 0x200a
    ||| code == 0x2028
    ||| code == 0x2029
    ||| code == 0x202f
    ||| code == 0x205f
    ||| code == 0x3000
}

/// Whether `c` is white space.
pub fn white_space(c: char) -> (white: bool)
    ensures
        white == is_white_space(c),
{
    let code: u32 = c as u32;
    (0x09 <= code && code <= 0x0d) || code == 0x20 || code == 0x85 || code == 0xa0 || code == 0x1680
        || (0x2000 <= code && code <= 0x200a) || code == 0x2028 || code == 0x2029 || code == 0x202f
        || code == 0x205f || code == 0x3000
}

/// `text` without the white space that it begins with.
pub open spec fn trimmed_start(text: Seq<char>) -> Seq<char>
    decreases text.len(),
{
    if text.len() > 0 && is_white_space(text.first()) {
        trimmed_start(text.drop_first())
    } else {
        text
    }
}

/// `text` without the white space that it ends with.
pub open spec fn trimmed_end(text: Seq<char>) -> Seq<char>
    decreases text.len(),
{
    if text.len() > 0 && is_white_space(text.last()) {
        trimmed_end(text.drop_last())
    } else {
        text
    }
}

/// `text` without the white space around it.
pub open spec fn trimmed(text: Seq<char>) -> Seq<char> {
    trimmed_end(trimmed_start(text))
}

/// Drops the white space around `text`.
pub fn trim_text(text: &str) -> (inner: String)
    ensures
        inner@ == trimmed(text@),
{
    let chars = chars_of(text);
    let len: usize = chars.len();
    let mut from: usize = 0;
    assert(text@.subrange(0, len as int) == text@);
    while from < len && white_space(chars[from])
        invariant
            chars@ == text@,
            len == text@.len(),
            from <= len,
            trimmed_start(text@) == trimmed_start(text@.subrange(from as int, len as int)),
        decreases len - from,
    {
        assert(text@.subrange(from as int, len as int).drop_first() == text@.subrange(
            from + 1,
            len as int,
        ));
        from += 1;
    }
    let mut to: usize = len;
    while from < to && white_space(chars[to - 1])
        invariant
            chars@ == text@,
            from <= to <= len == text@.len(),
            trimmed(text@) == trimmed_end(text@.subrange(from as int, to as int)),
        decreases to - from,
    {
        assert(text@.subrange(from as int, to as int).drop_last() == text@.subrange(
            from as int,
            to - 1,
        ));
        to -= 1;
    }
    string_of(&chars, from, to)
}

/// What stands in a part of a text stands in the text.
pub proof fn contains_text_is_transitive(text: Seq<char>, part: Seq<char>, inner: Seq<char>)
    requires
        contains_text(text, part),
        contains_text(part, inner),
    ensures
        contains_text(text, inner),
{
    let at = choose|at: int| occurs_at(text, part, at);
    let within = choose|within: int| occurs_at(part, inner, within);
    assert(text.subrange(at + within, at + within + inner.len()) =~= part.subrange(
        within,
        within + inner.len(),
    ));
    assert(occurs_at(text, inner, at + within));
}

/// What is left of a text without the white space around it stands in the text.
pub proof fn trimmed_stands_in_text(text: Seq<char>)
    ensures
        contains_text(text, trimmed(text)),
{
    trimmed_start_stands_in_text(text);
    trimmed_end_stands_in_text(trimmed_start(text));
    contains_text_is_transitive(text, trimmed_start(text), trimmed(text));
}

proof fn trimmed_start_stands_in_text(text: Seq<char>)
    ensures
        contains_text(text, trimmed_start(text)),
    decreases text.len(),
{
    if text.len() > 0 && is_white_space(text.first()) {
        trimmed_start_stands_in_text(text.drop_first());
        assert(occurs_at(text, text.drop_first(), 1));
        contains_text_is_transitive(text, text.drop_first(), trimmed_start(text));
    } else {
        assert(text.subrange(0, text.len() as int) =~= text);
        assert(occurs_at(text, text, 0));
    }
}

proof fn trimmed_end_stands_in_text(text: Seq<char>)
    ensures
        contains_text(text, trimmed_end(text)),
    decreases text.len(),
{
    if text.len() > 0 && is_white_space(text.last()) {
        trimmed_end_stands_in_text(text.drop_last());
        assert(occurs_at(text, text.drop_last(), 0));
        contains_text_is_transitive(text, text.drop_last(), trimmed_end(text));
    } else {
        assert(text.subrange(0, text.len() as int) =~= text);
        assert(occurs_at(text, text, 0));
    }
}

/// Trimming takes away white space only: a text is some white space, then what
/// trimming leaves, then some white space, and what is left neither begins nor
/// ends with white space.
pub proof fn trimming_takes_white_space_only(text: Seq<char>)
    ensures
        exists|before: Seq<char>, after: Seq<char>|
            {
                &&& text == #[trigger] (before + trimmed(text) + after)
                &&& forall|i: int| 0 <= i < before.len() ==> is_white_space(#[trigger] before[i])
                &&& forall|i: int| 0 <= i < after.len() ==> is_white_space(#[trigger] after[i])
            },
        trimmed(text).len() > 0 ==> {
            &&& !is_white_space(trimmed(text).first())
            &&& !is_white_space(trimmed(text).last())
        },
{
    let right = trimmed_start(text);
    let before = trimming_the_start(text);
    let after = trimming_the_end(right);
    assert(text =~= before + trimmed(text) + after);
    if trimmed(text).len() > 0 {
        assert(right.first() == trimmed(text).first());
    }
}

proof fn trimming_the_start(text: Seq<char>) -> (before: Seq<char>)
    ensures
        text == before + trimmed_start(text),
        forall|i: int| 0 <= i < before.len() ==> is_white_space(#[trigger] before[i]),
        trimmed_start(text).len() > 0 ==> !is_white_space(trimmed_start(text).first()),
    decreases text.len(),
{
    if text.len() > 0 && is_white_space(text.first()) {
        let rest = trimming_the_start(text.drop_first());
        let before = seq![text.first()] + rest;
        let inner = trimmed_start(text);
        assert(inner == trimmed_start(text.drop_first()));
        assert(text.drop_first() == rest + inner);
        assert(text =~= seq![text.first()] + text.drop_first());
        assert(text =~= before + inner);
        before
    } else {
        assert(text =~= Seq::<char>::empty() + text);
        Seq::empty()
    }
}

proof fn trimming_the_end(text: Seq<char>) -> (after: Seq<char>)
    ensures
        text == trimmed_end(text) + after,
        forall|i: int| 0 <= i < after.len() ==> is_white_space(#[trigger] after[i]),
        trimmed_end(text).len() > 0 ==> !is_white_space(trimmed_end(text).last()),
    decreases text.len(),
{
    if text.len() > 0 && is_white_space(text.last()) {
        let rest = trimming_the_end(text.drop_last());
        let after = rest.push(text.last());
        let inner = trimmed_end(text);
        assert(inner == trimmed_end(text.drop_last()));
        assert(text.drop_last() == inner + rest);
        assert(text =~= text.drop_last().push(text.last()));
        assert(text =~= inner + after);
        after
    } else {
        assert(text =~= text + Seq::<char>::empty());
        Seq::empty()
    }
}

/// The characters that are white space, one by one.
pub proof fn white_space_is_listed(c: char)
    ensures
        is_white_space(c) <==> seq![
            '\t', '\n', '\u{b}', '\u{c}', '\r', ' ', '\u{85}', '\u{a0}', '\u{1680}', '\u{2000}',
            '\u{2001}', '\u{2002}', '\u{2003}', '\u{2004}', '\u{2005}', '\u{2006}', '\u{2007}',
            '\u{2008}', '\u{2009}', '\u{200a}', '\u{2028}', '\u{2029}', '\u{202f}', '\u{205f}',
            '\u{3000}',
        ].contains(c),
{
    let listed = seq![
        '\t', '\n', '\u{b}', '\u{c}', '\r', ' ', '\u{85}', '\u{a0}', '\u{1680}', '\u{2000}',
        '\u{2001}', '\u{2002}', '\u{2003}', '\u{2004}', '\u{2005}', '\u{2006}', '\u{2007}',
        '\u{2008}', '\u{2009}', '\u{200a}', '\u{2028}', '\u{2029}', '\u{202f}', '\u{205f}',
        '\u{3000}',
    ];
    if is_white_space(c) {
        let at: int = if c <= '\r' {
            c as int - 9
        } else if c == ' ' {
            5
        } else if c == '\u{85}' {
            6
        } else if c == '\u{a0}' {
            7
        } else if c == '\u{1680}' {
            8
        } else if c <= '\u{200a}' {
            c as int - 0x2000 + 9
        } else if c == '\u{2028}' {
            20
        } else if c == '\u{2029}' {
            21
        } else if c == '\u{202f}' {
            22
        } else if c == '\u{205f}' {
            23
        } else {
            24
        };
        assert(listed[at] == c);
    }
}

/// One text stands in another exactly where the other is that text with
/// something or nothing on either side of it. It begins or ends the other where
/// there is nothing on that side.
pub proof fn contained_text_has_two_sides(text: Seq<char>, part: Seq<char>)
    ensures
        contains_text(text, part) <==> exists|before: Seq<char>, after: Seq<char>|
            text == #[trigger] (before + part + after),
        starts_with_text(text, part) <==> exists|after: Seq<char>| text == #[trigger] (part + after),
        ends_with_text(text, part) <==> exists|before: Seq<char>| text == #[trigger] (before
            + part),
{
    if contains_text(text, part) {
        let at = choose|at: int| occurs_at(text, part, at);
        assert(text =~= text.take(at) + part + text.skip(at + part.len()));
    }
    if exists|before: Seq<char>, after: Seq<char>| text == #[trigger] (before + part + after) {
        let (before, after) = choose|before: Seq<char>, after: Seq<char>|
            text == #[trigger] (before + part + after);
        surrounded_text_is_contained(before, part, after);
    }
    if starts_with_text(text, part) {
        assert(text =~= part + text.skip(part.len() as int));
    }
    if exists|after: Seq<char>| text == #[trigger] (part + after) {
        let after = choose|after: Seq<char>| text == #[trigger] (part + after);
        assert(text.subrange(0, part.len() as int) =~= part);
    }
    if ends_with_text(text, part) {
        assert(text =~= text.take(text.len() - part.len()) + part);
    }
    if exists|before: Seq<char>| text == #[trigger] (before + part) {
        let before = choose|before: Seq<char>| text == #[trigger] (before + part);
        assert(text.subrange(before.len() as int, text.len() as int) =~= part);
    }
}

/// A text stands in whatever is put around it.
pub proof fn surrounded_text_is_contained(before: Seq<char>, part: Seq<char>, after: Seq<char>)
    ensures
        contains_text(before + part + after, part),
{
    let text = before + part + after;
    let at = before.len() as int;
    assert(text.subrange(at, at + part.len()) =~= part);
    assert(occurs_at(text, part, at));
}

/// Replacing commas keeps every character in its place but the commas.
pub proof fn only_commas_are_replaced(text: Seq<char>)
    ensures
        commas_replaced(text).len() == text.len(),
        forall|i: int|
            0 <= i < text.len() ==> {
                &&& text[i] == ',' ==> #[trigger] commas_replaced(text)[i] == ':'
                &&& text[i] != ',' ==> commas_replaced(text)[i] == text[i]
            },
{
}

/// The decimal digit of `d`, which is below ten.
pub open spec fn digit(d: nat) -> char {
    (48 + d) as char
}

/// `n` in decimal notation, without leading zeros.
pub open spec fn decimal(n: nat) -> Seq<char>
    decreases n,
{
    if n < 10 {
        seq![digit(n)]
    } else {
        decimal(n / 10).push(digit(n % 10))
    }
}

/// A number below ten is written as its digit, and ten times a number and `d`
/// more as that number with the digit `d` behind it.
pub proof fn decimal_goes_digit_by_digit(n: nat, d: nat)
    requires
        d < 10,
    ensures
        decimal(d) == seq!["0123456789"@[d as int]],
        n > 0 ==> decimal(n * 10 + d) == decimal(n).push("0123456789"@[d as int]),
{
    reveal_strlit("0123456789");
    assert((n * 10 + d) / 10 == n);
    assert((n * 10 + d) % 10 == d);
    assert(digit(d) == "0123456789"@[d as int]);
}

/// Appends `n` in decimal notation to `text`.
pub fn push_decimal(text: &mut String, n: u128)
    ensures
        final(text)@ == old(text)@ + decimal(n as nat),
    decreases n,
{
    if n >= 10 {
        push_decimal(text, n / 10);
    }
    let d: u8 = (n % 10) as u8;
    text.push((48u8 + d) as char);
    assert(text@ == old(text)@ + decimal(n as nat));
}

} // verus!
