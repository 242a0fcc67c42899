//! Small pieces of text: what a key types, what fits in a one-row field,
//! numbers in words, and the comparisons the rest of the window relies on.

use vstd::prelude::*;
use vstd::string::*;

verus! {

broadcast use vstd::string::group_string_axioms;

/// `String::push` of the standard library: the character is appended and
/// nothing else changes.
pub assume_specification[ String::push ](s: &mut String, c: char)
    ensures
        final(s)@ == old(s)@.push(c),
;

/// `std::str::from_utf8` of the standard library: the bytes as text, when
/// they are UTF-8, and nothing otherwise.
#[verifier::external_body]
pub(crate) fn text_from_utf8(bytes: &Vec<u8>) -> (text: Option<String>)
    ensures
        text is Some == vstd::utf8::valid_utf8(bytes@),
        text matches Some(text) ==> text@ == vstd::utf8::decode_utf8(bytes@),
{
    std::str::from_utf8(bytes).ok().map(|text| text.to_owned())
}

/// What the standard library's `Debug` writes for a text: in double quotes,
/// with what cannot be read escaped.
pub uninterp spec fn debug_quoted(text: Seq<char>) -> Seq<char>;

/// The text as the `Debug` of `str` in the standard library writes it.
#[verifier::external_body]
pub(crate) fn quoted(text: &str) -> (s: String)
    ensures
        s@ == debug_quoted(text@),
{
    format!("{text:?}")
}

/// The control characters: Unicode's general category Cc.
pub open spec fn is_control(c: char) -> bool {
    (c as u32) < 0x20 || 0x7f <= (c as u32) <= 0x9f
}

/// The private-use block where keys without a character are reported.
pub open spec fn is_function_key(c: char) -> bool {
    0xf700 <= (c as u32) <= 0xf8ff
}

/// Whether `c` is text someone typed.
pub open spec fn is_typed(c: char) -> bool {
    !is_control(c) && !is_function_key(c)
}

/// What `characters` contributes as typed text.
pub open spec fn typed(characters: Seq<char>) -> Seq<char> {
    characters.filter(|c: char| is_typed(c))
}

/// `text` up to its first line feed.
pub open spec fn first_line(text: Seq<char>) -> Seq<char> {
    match text.index_of_first('\n') {
        Some(at) => text.take(at),
        None => text,
    }
}

/// Unicode's White_Space property.
pub open spec fn is_space(c: char) -> bool {
    ||| 0x09 <= (c as u32) <= 0x0d
    ||| c as u32 == 0x20
    ||| c as u32 == 0x85
    ||| c as u32 == 0xa0
    ||| c as u32 == 0x1680
    ||| 0x2000 <= (c as u32) <= 0x200a
    ||| 0x2028 <= (c as u32) <= 0x2029
    ||| c as u32 == 0x202f
    ||| c as u32 == 0x205f
    ||| c as u32 == 0x3000
}

/// `text` without the white space it starts with.
pub open spec fn trimmed_start(text: Seq<char>) -> Seq<char>
    decreases text.len(),
{
    if text.len() > 0 && is_space(text[0]) {
        trimmed_start(text.drop_first())
    } else {
        text
    }
}

/// `text` without the white space it ends with.
pub open spec fn trimmed_end(text: Seq<char>) -> Seq<char>
    decreases text.len(),
{
    if text.len() > 0 && is_space(text.last()) {
        trimmed_end(text.drop_last())
    } else {
        text
    }
}

/// `text` without the white space at either end.
pub open spec fn trimmed(text: Seq<char>) -> Seq<char> {
    trimmed_end(trimmed_start(text))
}

/// The digit `d`, for `d` below ten.
pub open spec fn digit(d: int) -> char {
    ('0' as int + d) as char
}

/// `n` in decimal, without leading zeros.
pub open spec fn decimal_digits(n: nat) -> Seq<char>
    decreases n,
{
    if n < 10 {
        seq![digit(n as int)]
    } else {
        decimal_digits(n / 10).push(digit((n % 10) as int))
    }
}

/// Whether `text` is digits and nothing else, at least one.
pub open spec fn all_digits(text: Seq<char>) -> bool {
    text.len() > 0 && forall|i: int| 0 <= i < text.len() ==> '0' <= #[trigger] text[i] <= '9'
}

/// The number that digits write.
pub open spec fn number_value(digits: Seq<char>) -> nat
    decreases digits.len(),
{
    if digits.len() == 0 {
        0
    } else {
        number_value(digits.drop_last()) * 10 + (digits.last() as nat - '0' as nat) as nat
    }
}

/// `text` as a number: digits, with or without a plus before them, that fit.
pub open spec fn number_in(text: Seq<char>) -> Option<usize> {
    let digits = if text.len() > 0 && text[0] == '+' {
        text.drop_first()
    } else {
        text
    };
    if all_digits(digits) && number_value(digits) <= usize::MAX {
        Some(number_value(digits) as usize)
    } else {
        None
    }
}

/// An ASCII capital as its small letter, anything else as it is.
pub open spec fn ascii_lower(c: char) -> char {
    if 'A' <= c <= 'Z' {
        ((c as u32) + 32) as char
    } else {
        c
    }
}

/// `text` with its ASCII capitals as small letters.
pub open spec fn ascii_lowered(text: Seq<char>) -> Seq<char> {
    text.map_values(|c: char| ascii_lower(c))
}

/// The characters of `s`, to index.
pub fn chars_of(s: &str) -> (v: Vec<char>)
    ensures
        v@ == s@,
{
    let mut v: Vec<char> = Vec::new();
    for c in it: s.chars()
        invariant
            it.seq() == s@,
            v@ == s@.take(it.index()),
    {
        assert(s@.take(it.index() + 1) =~= s@.take(it.index()).push(c));
        v.push(c);
    }
    assert(s@.take(s@.len() as int) =~= s@);
    v
}

/// The text made of `v[from..to]`.
pub fn text_of_chars(v: &Vec<char>, from: usize, to: usize) -> (s: String)
    requires
        from <= to <= v@.len(),
    ensures
        s@ == v@.subrange(from as int, to as int),
{
    let mut s: String = String::new();
    let mut i: usize = from;
    while i < to
        invariant
            from <= i <= to <= v@.len(),
            s@ == v@.subrange(from as int, i as int),
        decreases to - i,
    {
        assert(v@.subrange(from as int, i + 1) =~= v@.subrange(from as int, i as int).push(
            v@[i as int],
        ));
        s.push(v[i]);
        i += 1;
    }
    s
}

/// Whether two texts have the same characters.
pub fn same(a: &str, b: &str) -> (r: bool)
    ensures
        r == (a@ == b@),
{
    let left: String = a.to_owned();
    let right: String = b.to_owned();
    left == right
}

/// `a` followed by `b`.
pub fn joined(a: &str, b: &str) -> (s: String)
    ensures
        s@ == a@ + b@,
{
    let mut s: String = a.to_owned();
    s.append(b);
    s
}

/// `a`, `b` and `c`, one after another.
pub fn joined3(a: &str, b: &str, c: &str) -> (s: String)
    ensures
        s@ == a@ + b@ + c@,
{
    let mut s: String = a.to_owned();
    s.append(b);
    s.append(c);
    s
}

/// What a key event's `characters` contributes as typed text.
///
/// Keys that have no character, the function keys, Help, Insert, keypad Clear
/// and the rest, are reported as code points in U+F700..U+F8FF. They are not
/// control characters, so both kinds are dropped.
pub fn typed_text(characters: &str) -> (text: String)
    ensures
        text@ == typed(characters@),
{
    let mut text: String = String::new();
    for c in it: characters.chars()
        invariant
            it.seq() == characters@,
            text@ == typed(characters@.take(it.index())),
    {
        proof {
            let head = characters@.take(it.index());
            assert(characters@.take(it.index() + 1) =~= head.push(c));
            reveal(Seq::filter);
            assert(head.push(c).drop_last() =~= head);
        }
        let code: u32 = c as u32;
        let control = code < 0x20 || (0x7f <= code && code <= 0x9f);
        let function_key = 0xf700 <= code && code <= 0xf8ff;
        if !control && !function_key {
            text.push(c);
        }
    }
    assert(characters@.take(characters@.len() as int) =~= characters@);
    text
}

/// Whether `text` starts with `prefix`.
pub fn starts_with(text: &str, prefix: &str) -> (r: bool)
    ensures
        r == prefix@.is_prefix_of(text@),
{
    let a = chars_of(text);
    let b = chars_of(prefix);
    if b.len() > a.len() {
        return false;
    }
    let mut i: usize = 0;
    while i < b.len()
        invariant
            a@ == text@,
            b@ == prefix@,
            b@.len() <= a@.len(),
            i <= b@.len(),
            forall|j: int| 0 <= j < i ==> a@[j] == b@[j],
        decreases b@.len() - i,
    {
        if a[i] != b[i] {
            assert(text@.subrange(0, prefix@.len() as int)[i as int] == a@[i as int]);
            return false;
        }
        i += 1;
    }
    assert(prefix@ =~= text@.subrange(0, prefix@.len() as int));
    true
}

/// A pasted string cut down to what a one-row field can hold: its first
/// line, without control characters.
pub fn single_line(text: &str) -> (line: String)
    ensures
        line@ == typed(first_line(text@)),
{
    let chars = chars_of(text);
    let mut end: usize = 0;
    while end < chars.len() && chars[end] != '\n'
        invariant
            end <= chars@.len(),
            forall|j: int| 0 <= j < end ==> chars@[j] != '\n',
        decreases chars@.len() - end,
    {
        end += 1;
    }
    proof {
        text@.index_of_first_ensures('\n');
        assert(first_line(text@) =~= text@.take(end as int));
        assert(text@.subrange(0, end as int) =~= text@.take(end as int));
    }
    let line = text_of_chars(&chars, 0, end);
    typed_text(line.as_str())
}

/// Whether `c` is white space.
pub fn space(c: char) -> (r: bool)
    ensures
        r == is_space(c),
{
    let code: u32 = c as u32;
    (0x09 <= code && code <= 0x0d) || code == 0x20 || code == 0x85 || code == 0xa0 || code == 0x1680
        || (0x2000 <= code && code <= 0x200a) || code == 0x2028 || code == 0x2029 || code == 0x202f
        || code == 0x205f || code == 0x3000
}

/// The bytes of a text that may be cut anywhere: its characters, or nothing
/// when the cut went through one.
pub open spec fn readable(bytes: Seq<u8>) -> Seq<char> {
    if vstd::utf8::valid_utf8(bytes) {
        vstd::utf8::decode_utf8(bytes)
    } else {
        Seq::empty()
    }
}

/// See [`readable`].
pub fn read(bytes: &Vec<u8>) -> (text: String)
    ensures
        text@ == readable(bytes@),
{
    match text_from_utf8(bytes) {
        Some(text) => text,
        None => String::new(),
    }
}

/// The first `n` characters of `text`.
pub fn shortened(text: &str, n: usize) -> (s: String)
    ensures
        s@ == (if n < text@.len() {
            text@.take(n as int)
        } else {
            text@
        }),
{
    let chars = chars_of(text);
    let to = if n < chars.len() {
        n
    } else {
        chars.len()
    };
    assert(chars@.subrange(0, to as int) =~= chars@.take(to as int));
    assert(chars@.take(chars@.len() as int) =~= chars@);
    text_of_chars(&chars, 0, to)
}

/// Whether `text` has the character `c`.
pub fn has_char(text: &str, c: char) -> (r: bool)
    ensures
        r == text@.contains(c),
{
    let chars = chars_of(text);
    let mut i: usize = 0;
    while i < chars.len()
        invariant
            i <= chars@.len(),
            chars@ == text@,
            forall|j: int| 0 <= j < i ==> chars@[j] != c,
        decreases chars@.len() - i,
    {
        if chars[i] == c {
            return true;
        }
        i += 1;
    }
    false
}

/// `s` when there are many of something, nothing when there is one.
pub open spec fn plural(n: int) -> Seq<char> {
    if n == 1 {
        ""@
    } else {
        "s"@
    }
}

/// See [`plural`].
pub fn plural_ending(n: usize) -> (s: &'static str)
    ensures
        s@ == plural(n as int),
{
    if n == 1 {
        ""
    } else {
        "s"
    }
}

/// `text` without the white space at either end.
pub fn trim(text: &str) -> (s: String)
    ensures
        s@ == trimmed(text@),
{
    let chars = chars_of(text);
    let mut from: usize = 0;
    assert(chars@.skip(0) =~= chars@);
    while from < chars.len() && space(chars[from])
        invariant
            from <= chars@.len(),
            trimmed_start(chars@) == trimmed_start(chars@.skip(from as int)),
        decreases chars@.len() - from,
    {
        assert(chars@.skip(from as int).drop_first() =~= chars@.skip(from + 1));
        from += 1;
    }
    let mut to: usize = chars.len();
    assert(chars@.subrange(from as int, to as int) =~= chars@.skip(from as int));
    while from < to && space(chars[to - 1])
        invariant
            from <= to <= chars@.len(),
            trimmed_end(chars@.skip(from as int)) == trimmed_end(
                chars@.subrange(from as int, to as int),
            ),
        decreases to,
    {
        assert(chars@.subrange(from as int, to as int).drop_last() =~= chars@.subrange(
            from as int,
            to - 1,
        ));
        to -= 1;
    }
    text_of_chars(&chars, from, to)
}

/// `n` in decimal.
pub fn decimal(n: usize) -> (s: String)
    ensures
        s@ == decimal_digits(n as nat),
    decreases n,
{
    let d: usize = n % 10;
    let mut s: String = if n < 10 {
        String::new()
    } else {
        decimal(n / 10)
    };
    let c: char = (48u8 + d as u8) as char;
    s.push(c);
    assert(n < 10 ==> s@ =~= seq![digit(n as int)]);
    s
}

/// More digits, a larger number.
proof fn number_grows(digits: Seq<char>, n: int)
    requires
        0 <= n <= digits.len(),
        all_digits(digits),
    ensures
        number_value(digits.take(n)) <= number_value(digits),
    decreases digits.len() - n,
{
    if n < digits.len() {
        number_grows(digits, n + 1);
        assert(digits.take(n + 1).drop_last() =~= digits.take(n));
    } else {
        assert(digits.take(n) =~= digits);
    }
}

/// See [`number_in`].
pub fn parse_number(text: &str) -> (n: Option<usize>)
    ensures
        n == number_in(text@),
{
    let chars = chars_of(text);
    let from: usize = if chars.len() > 0 && chars[0] == '+' {
        1
    } else {
        0
    };
    let ghost digits = chars@.skip(from as int);
    assert(from == 1 ==> digits =~= text@.drop_first());
    assert(from == 0 ==> digits =~= text@);
    if from == chars.len() {
        return None;
    }
    let mut i: usize = from;
    while i < chars.len()
        invariant
            from <= i <= chars@.len(),
            chars@ == text@,
            from == (if chars@.len() > 0 && chars@[0] == '+' {
                1int
            } else {
                0int
            }),
            digits == chars@.skip(from as int),
            digits == (if text@.len() > 0 && text@[0] == '+' {
                text@.drop_first()
            } else {
                text@
            }),
            forall|j: int| 0 <= j < i - from ==> '0' <= #[trigger] digits[j] <= '9',
        decreases chars@.len() - i,
    {
        assert(digits[i - from] == chars@[i as int]);
        if chars[i] < '0' || chars[i] > '9' {
            return None;
        }
        i += 1;
    }
    assert(all_digits(digits));
    let mut value: usize = 0;
    let mut k: usize = from;
    assert(digits.take(0) =~= Seq::empty());
    while k < chars.len()
        invariant
            from <= k <= chars@.len(),
            chars@ == text@,
            digits == chars@.skip(from as int),
            digits == (if text@.len() > 0 && text@[0] == '+' {
                text@.drop_first()
            } else {
                text@
            }),
            all_digits(digits),
            value == number_value(digits.take(k - from)),
        decreases chars@.len() - k,
    {
        assert(digits[k - from] == chars@[k as int]);
        let d: usize = (chars[k] as u8 - 48u8) as usize;
        proof {
            let next = digits.take(k + 1 - from);
            assert(next.drop_last() =~= digits.take(k - from));
            assert(next.last() == chars@[k as int]);
            number_grows(digits, k + 1 - from);
        }
        if value > (usize::MAX - d) / 10 {
            return None;
        }
        value = value * 10 + d;
        k += 1;
    }
    assert(digits.take(digits.len() as int) =~= digits);
    Some(value)
}

/// `c` with an ASCII capital as its small letter.
pub fn lower(c: char) -> (r: char)
    ensures
        r == ascii_lower(c),
{
    if 'A' <= c && c <= 'Z' {
        (c as u8 + 32u8) as char
    } else {
        c
    }
}

/// Whether two texts are the same but for the case of ASCII letters.
pub fn same_ignoring_case(a: &str, b: &str) -> (r: bool)
    ensures
        r == (ascii_lowered(a@) == ascii_lowered(b@)),
{
    let x = chars_of(a);
    let y = chars_of(b);
    if x.len() != y.len() {
        assert(ascii_lowered(a@).len() != ascii_lowered(b@).len());
        return false;
    }
    let mut i: usize = 0;
    while i < x.len()
        invariant
            i <= x@.len() == y@.len(),
            x@ == a@,
            y@ == b@,
            forall|j: int| 0 <= j < i ==> ascii_lower(x@[j]) == ascii_lower(y@[j]),
        decreases x@.len() - i,
    {
        if lower(x[i]) != lower(y[i]) {
            assert(ascii_lowered(x@)[i as int] != ascii_lowered(y@)[i as int]);
            return false;
        }
        i += 1;
    }
    assert(ascii_lowered(x@) =~= ascii_lowered(y@));
    true
}

/// Typed text is typed text already: filtering it again changes nothing.
pub proof fn typed_is_idempotent(characters: Seq<char>)
    ensures
        typed(typed(characters)) == typed(characters),
    decreases characters.len(),
{
    reveal(Seq::filter);
    if characters.len() > 0 {
        typed_is_idempotent(characters.drop_last());
        let head = typed(characters.drop_last());
        if is_typed(characters.last()) {
            assert(typed(characters) =~= head.push(characters.last()));
            assert(head.push(characters.last()).drop_last() =~= head);
        }
    }
}

/// Nothing but what someone typed gets through.
pub proof fn typed_has_no_keys(characters: Seq<char>, i: int)
    requires
        0 <= i < typed(characters).len(),
    ensures
        is_typed(typed(characters)[i]),
        characters.contains(typed(characters)[i]),
    decreases characters.len(),
{
    reveal(Seq::filter);
    let head = typed(characters.drop_last());
    if i < head.len() {
        typed_has_no_keys(characters.drop_last(), i);
        let at = characters.drop_last().index_of(head[i]);
        assert(characters[at] == head[i]);
    }
}

/// A one-row field never gets a line feed, nor any control character.
pub proof fn a_field_holds_one_line(text: Seq<char>, i: int)
    requires
        0 <= i < typed(first_line(text)).len(),
    ensures
        !is_control(typed(first_line(text))[i]),
        typed(first_line(text))[i] != '\n',
{
    typed_has_no_keys(first_line(text), i);
}

/// A number in decimal has at least one digit and only digits.
pub proof fn decimal_is_digits(n: nat, i: int)
    ensures
        decimal_digits(n).len() >= 1,
        0 <= i < decimal_digits(n).len() ==> '0' <= decimal_digits(n)[i] <= '9',
    decreases n,
{
    if n >= 10 {
        decimal_is_digits(n / 10, i);
    }
}

/// A number that is written out reads back as itself.
pub proof fn a_number_reads_back(n: nat)
    ensures
        number_value(decimal_digits(n)) == n,
        all_digits(decimal_digits(n)),
        n <= usize::MAX ==> number_in(decimal_digits(n)) == Some(n as usize),
    decreases n,
{
    let text = decimal_digits(n);
    assert(all_digits(text)) by {
        assert forall|i: int| 0 <= i < text.len() implies '0' <= #[trigger] text[i] <= '9' by {
            decimal_is_digits(n, i);
        }
    }
    if n < 10 {
        assert(text.drop_last() =~= Seq::<char>::empty());
        reveal_with_fuel(number_value, 2);
    } else {
        a_number_reads_back(n / 10);
        assert(text.drop_last() =~= decimal_digits(n / 10));
    }
    assert(text[0] != '+') by {
        decimal_is_digits(n, 0);
    }
}

/// Trimming takes white space from the ends, all of it, and nothing else.
pub proof fn trimming_takes_the_space_around(text: Seq<char>)
    ensures
        exists|a: int, b: int|
            {
                &&& 0 <= a <= b <= text.len()
                &&& trimmed(text) == #[trigger] text.subrange(a, b)
                &&& forall|i: int| 0 <= i < a ==> is_space(#[trigger] text[i])
                &&& forall|i: int| b <= i < text.len() ==> is_space(#[trigger] text[i])
            },
        trimmed(text).len() > 0 ==> !is_space(trimmed(text)[0]) && !is_space(trimmed(text).last()),
{
    let a = leading(text);
    let rest = trimmed_start(text);
    let cut = trailing(rest);
    let b = text.len() - cut;
    assert(rest =~= text.skip(a));
    assert(trimmed(text) =~= text.subrange(a, b));
    assert forall|i: int| b <= i < text.len() implies is_space(#[trigger] text[i]) by {
        assert(rest[i - a] == text[i]);
    }
    assert(trimmed(text) == text.subrange(a, b));
    if trimmed(text).len() > 0 {
        assert(trimmed(text)[0] == rest[0]);
    }
}

/// How much white space a text starts with.
proof fn leading(text: Seq<char>) -> (n: int)
    ensures
        0 <= n <= text.len(),
        trimmed_start(text) == text.skip(n),
        forall|i: int| 0 <= i < n ==> is_space(#[trigger] text[i]),
        n < text.len() ==> !is_space(text[n]),
    decreases text.len(),
{
    if text.len() > 0 && is_space(text[0]) {
        let rest = text.drop_first();
        let n = leading(rest);
        assert(rest.skip(n) =~= text.skip(n + 1));
        assert forall|i: int| 0 <= i < n + 1 implies is_space(#[trigger] text[i]) by {
            if i > 0 {
                assert(rest[i - 1] == text[i]);
            }
        }
        if n < rest.len() {
            assert(rest[n] == text[n + 1]);
        }
        n + 1
    } else {
        assert(text.skip(0) =~= text);
        0
    }
}

/// How much white space a text ends with.
proof fn trailing(text: Seq<char>) -> (n: int)
    ensures
        0 <= n <= text.len(),
        trimmed_end(text) == text.take(text.len() - n),
        forall|i: int| text.len() - n <= i < text.len() ==> is_space(#[trigger] text[i]),
        n < text.len() ==> !is_space(text[text.len() - n - 1]),
    decreases text.len(),
{
    if text.len() > 0 && is_space(text.last()) {
        let rest = text.drop_last();
        let n = trailing(rest);
        assert(rest.take(rest.len() - n) =~= text.take(text.len() - (n + 1)));
        assert forall|i: int| text.len() - (n + 1) <= i < text.len() implies is_space(
            #[trigger] text[i],
        ) by {
            if i < rest.len() {
                assert(rest[i] == text[i]);
            }
        }
        n + 1
    } else {
        assert(text.take(text.len() as int) =~= text);
        0
    }
}

/// The first line is the text up to its first line feed: it has none, what
/// follows it is one, and a text without one is its own first line.
pub proof fn the_first_line_ends_at_the_line_feed(text: Seq<char>)
    ensures
        first_line(text).is_prefix_of(text),
        !first_line(text).contains('\n'),
        first_line(text).len() < text.len() ==> text[first_line(text).len() as int] == '\n',
{
    text.index_of_first_ensures('\n');
    if let Some(at) = text.index_of_first('\n') {
        let line = text.take(at);
        if line.contains('\n') {
            let k = line.index_of('\n');
            assert(text[k] == '\n');
        }
    }
}

/// Printable characters are text someone typed; what the keyboard reports for
/// keys without a character is not.
pub proof fn printable_characters_are_typed(c: char)
    ensures
        ' ' <= c <= '~' ==> is_typed(c),
        c == '\n' || c == '\t' || c == '\u{7f}' || c == '\u{f708}' ==> !is_typed(c),
{
}

} // verus!
