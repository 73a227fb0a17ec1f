//! Plain-text helpers: lines, trimming, joining, and decimal numbers.
//!
//! Every function works on the characters of a string, so its contract is a
//! statement about `Seq<char>`.

use vstd::prelude::*;
use vstd::utf8::{decode_utf8, valid_utf8};

verus! {

/// `String::push` appends one character at the end of the string.
pub assume_specification[ String::push ](s: &mut String, c: char)
    ensures
        final(s)@ == old(s)@.push(c),
;

/// The error of `core::str::from_utf8`.
#[verifier::external_type_specification]
#[verifier::external_body]
pub struct ExUtf8Error(core::str::Utf8Error);

/// `core::str::from_utf8` gives the text that the bytes encode if they are
/// valid UTF-8, and an error if they are not.
pub assume_specification[ core::str::from_utf8 ](v: &[u8]) -> (r: Result<
    &str,
    core::str::Utf8Error,
>)
    ensures
        match r {
            Ok(s) => valid_utf8(v@) && s@ == decode_utf8(v@),
            Err(_) => !valid_utf8(v@),
        },
;

/// The characters of each string of a vector.
pub open spec fn views(parts: Seq<String>) -> Seq<Seq<char>> {
    parts.map_values(|s: String| s@)
}

/// The characters of a text that may be missing.
pub open spec fn optional_text(text: Option<String>) -> Option<Seq<char>> {
    match text {
        Some(t) => Some(t@),
        None => None,
    }
}

/// The position of the first line feed of `s`, or the length of `s` if it has none.
pub open spec fn line_end(s: Seq<char>) -> int
    decreases s.len(),
{
    if s.len() == 0 || s[0] == '\n' {
        0
    } else {
        1 + line_end(s.drop_first())
    }
}

/// `s` without the carriage return at its end, if it has one.
pub open spec fn without_return(s: Seq<char>) -> Seq<char> {
    if s.len() > 0 && s.last() == '\r' {
        s.drop_last()
    } else {
        s
    }
}

/// The lines of `s`: a line ends at a line feed, alone or after a carriage
/// return, neither of which belongs to the line. The last line may lack its
/// line feed, and a carriage return at its end then stays.
pub open spec fn lines_of(s: Seq<char>) -> Seq<Seq<char>>
    decreases s.len(),
{
    if s.len() == 0 {
        seq![]
    } else if line_end(s) >= s.len() {
        seq![s]
    } else {
        proof {
            lemma_line_end(s);
        }
        seq![without_return(s.take(line_end(s)))] + lines_of(s.skip(line_end(s) + 1))
    }
}

/// The characters with the Unicode property `White_Space`.
pub open spec fn is_white_space(c: char) -> bool {
    let n = c as u32;
    ||| 0x9 <= n <= 0xd
    ||| n == 0x20
    ||| n == 0x85
    ||| n == 0xa0
    ||| n == 0x1680
    ||| 0x2000 <= n <= 0x200a
    ||| n == 0x2028
    ||| n == 0x2029
    ||| n == 0x202f
    ||| n == 0x205f
    ||| n == 0x3000
}

/// `s` without the white space at its start.
pub open spec fn trimmed_start(s: Seq<char>) -> Seq<char>
    decreases s.len(),
{
    if s.len() > 0 && is_white_space(s[0]) {
        trimmed_start(s.drop_first())
    } else {
        s
    }
}

/// `s` without the white space at its end.
pub open spec fn trimmed_end(s: Seq<char>) -> Seq<char>
    decreases s.len(),
{
    if s.len() > 0 && is_white_space(s.last()) {
        trimmed_end(s.drop_last())
    } else {
        s
    }
}

/// `s` without the white space at either end.
pub open spec fn trimmed(s: Seq<char>) -> Seq<char> {
    trimmed_end(trimmed_start(s))
}

/// The parts one after the other, with `sep` between each two of them.
pub open spec fn joined(parts: Seq<Seq<char>>, sep: Seq<char>) -> Seq<char>
    decreases parts.len(),
{
    if parts.len() == 0 {
        seq![]
    } else if parts.len() == 1 {
        parts[0]
    } else {
        joined(parts.drop_last(), sep) + sep + parts.last()
    }
}

/// The character of a decimal digit.
pub open spec fn digit_char(d: nat) -> char {
    (0x30 + d) as char
}

/// `n` in decimal, without leading zeros.
pub open spec fn decimal_of(n: nat) -> Seq<char>
    decreases n,
{
    if n < 10 {
        seq![digit_char(n)]
    } else {
        decimal_of(n / 10).push(digit_char(n % 10))
    }
}

/// Whether `c` is one of the ten ASCII digits.
pub open spec fn is_digit(c: char) -> bool {
    '0' <= c && c <= '9'
}

/// The number that the digits of `s` stand for.
pub open spec fn digits_value(s: Seq<char>) -> nat
    decreases s.len(),
{
    if s.len() == 0 {
        0
    } else {
        digits_value(s.drop_last()) * 10 + (s.last() as u32 - 0x30) as nat
    }
}

/// `s` without the plus sign at its start, if it has one.
pub open spec fn without_plus(s: Seq<char>) -> Seq<char> {
    if s.len() > 0 && s[0] == '+' {
        s.drop_first()
    } else {
        s
    }
}

/// The unsigned number written by `s`: decimal digits, at least one of them,
/// after an optional plus sign. A number that `usize` cannot hold is none.
pub open spec fn usize_of(s: Seq<char>) -> Option<usize> {
    let digits = without_plus(s);
    if digits.len() > 0 && (forall|i: int| 0 <= i < digits.len() ==> is_digit(#[trigger] digits[i]))
        && digits_value(digits) <= usize::MAX {
        Some(digits_value(digits) as usize)
    } else {
        None
    }
}

/// `c` in lower case if it is an ASCII capital letter, else `c`.
pub open spec fn ascii_lower(c: char) -> char {
    if 'A' <= c && c <= 'Z' {
        (c as u32 + 0x20) as char
    } else {
        c
    }
}

/// Whether `a` and `b` are the same but for the case of ASCII letters.
pub open spec fn same_but_ascii_case(a: Seq<char>, b: Seq<char>) -> bool {
    a.map_values(|c: char| ascii_lower(c)) == b.map_values(|c: char| ascii_lower(c))
}

/// The characters of a string.
pub fn chars_of(s: &str) -> (r: Vec<char>)
    ensures
        r@ == s@,
{
    let mut out: Vec<char> = Vec::new();
    for c in it: s.chars()
        invariant
            it.seq() == s@,
            out@ == s@.take(it.index()),
    {
        out.push(c);
    }
    out
}

/// The string made of a range of characters.
pub fn text_of(chars: &Vec<char>, from: usize, to: usize) -> (r: String)
    requires
        from <= to <= chars@.len(),
    ensures
        r@ == chars@.subrange(from as int, to as int),
{
    let mut out = String::new();
    let mut i: usize = from;
    while i < to
        invariant
            from <= i <= to <= chars@.len(),
            out@ == chars@.subrange(from as int, i as int),
        decreases to - i,
    {
        out.push(chars[i]);
        i = i + 1;
        assert(chars@.subrange(from as int, i as int) == chars@.subrange(
            from as int,
            i - 1,
        ).push(chars@[i - 1]));
    }
    out
}

/// Where the first line ends: before it no character is a line feed.
pub proof fn lemma_line_end(s: Seq<char>)
    ensures
        0 <= line_end(s) <= s.len(),
        forall|i: int| 0 <= i < line_end(s) ==> s[i] != '\n',
        line_end(s) < s.len() ==> s[line_end(s)] == '\n',
    decreases s.len(),
{
    if s.len() > 0 && s[0] != '\n' {
        lemma_line_end(s.drop_first());
        assert forall|i: int| 0 <= i < line_end(s) implies s[i] != '\n' by {
            if i > 0 {
                assert(s[i] == s.drop_first()[i - 1]);
            }
        }
    }
}

/// The line end is the only position with no line feed before it and one at it.
pub proof fn lemma_line_end_at(s: Seq<char>, n: int)
    requires
        0 <= n <= s.len(),
        forall|i: int| 0 <= i < n ==> s[i] != '\n',
        n < s.len() ==> s[n] == '\n',
    ensures
        line_end(s) == n,
{
    lemma_line_end(s);
    if line_end(s) < n {
        assert(s[line_end(s)] != '\n');
    }
}

/// The lines of a text.
pub fn lines(text: &str) -> (r: Vec<String>)
    ensures
        views(r@) == lines_of(text@),
{
    let chars = chars_of(text);
    let mut out: Vec<String> = Vec::new();
    let mut start: usize = 0;
    proof {
        assert(chars@.skip(0) == chars@);
        assert(views(out@) + lines_of(chars@.skip(0)) == lines_of(text@));
    }
    while start < chars.len()
        invariant
            start <= chars@.len(),
            chars@ == text@,
            views(out@) + lines_of(chars@.skip(start as int)) == lines_of(text@),
        decreases chars@.len() - start,
    {
        let ghost rest = chars@.skip(start as int);
        let ghost before = out@;
        let mut end: usize = start;
        while end < chars.len() && chars[end] != '\n'
            invariant
                start <= end <= chars@.len(),
                forall|i: int| start <= i < end ==> chars@[i] != '\n',
            decreases chars@.len() - end,
        {
            end = end + 1;
        }
        proof {
            lemma_line_end_at(rest, end - start);
        }
        if end == chars.len() {
            let line = text_of(&chars, start, end);
            out.push(line);
            assert(line@ == rest);
            assert(views(out@) == views(before).push(rest));
            assert(chars@.skip(end as int) == Seq::<char>::empty());
            start = end;
        } else {
            let mut stop: usize = end;
            if end > start && chars[end - 1] == '\r' {
                stop = end - 1;
            }
            let line = text_of(&chars, start, stop);
            out.push(line);
            proof {
                let first = rest.take(end - start);
                assert(line@ == without_return(first));
                assert(views(out@) == views(before).push(line@));
                assert(rest.skip(end - start + 1) == chars@.skip(end + 1));
            }
            start = end + 1;
        }
    }
    assert(chars@.skip(start as int) == Seq::<char>::empty());
    out
}

/// White space at the start does not change what is left after it.
pub proof fn lemma_trimmed_start_skip(s: Seq<char>, n: int)
    requires
        0 <= n <= s.len(),
        forall|i: int| 0 <= i < n ==> is_white_space(s[i]),
    ensures
        trimmed_start(s) == trimmed_start(s.skip(n)),
    decreases n,
{
    if n == 0 {
        assert(s.skip(0) == s);
    } else {
        lemma_trimmed_start_skip(s.drop_first(), n - 1);
        assert(s.drop_first().skip(n - 1) == s.skip(n));
    }
}

/// White space at the end does not change what is left before it.
pub proof fn lemma_trimmed_end_take(s: Seq<char>, n: int)
    requires
        0 <= n <= s.len(),
        forall|i: int| n <= i < s.len() ==> is_white_space(s[i]),
    ensures
        trimmed_end(s) == trimmed_end(s.take(n)),
    decreases s.len() - n,
{
    if n == s.len() {
        assert(s.take(n) == s);
    } else {
        lemma_trimmed_end_take(s.drop_last(), n);
        assert(s.drop_last().take(n) == s.take(n));
    }
}

/// Whether `c` is white space.
pub fn white_space(c: char) -> (r: bool)
    ensures
        r == is_white_space(c),
{
    let n: u32 = c as u32;
    (0x9 <= n && n <= 0xd) || n == 0x20 || n == 0x85 || n == 0xa0 || n == 0x1680 || (0x2000 <= n
        && n <= 0x200a) || n == 0x2028 || n == 0x2029 || n == 0x202f || n == 0x205f || n == 0x3000
}

/// The position of the first character that is not white space.
fn first_visible(chars: &Vec<char>) -> (r: usize)
    ensures
        r <= chars@.len(),
        forall|i: int| 0 <= i < r ==> is_white_space(chars@[i]),
        r < chars@.len() ==> !is_white_space(chars@[r as int]),
{
    let mut from: usize = 0;
    while from < chars.len() && white_space(chars[from])
        invariant
            from <= chars@.len(),
            forall|i: int| 0 <= i < from ==> is_white_space(chars@[i]),
        decreases chars@.len() - from,
    {
        from = from + 1;
    }
    from
}

/// A text without the white space at its start.
pub fn trim_start(text: &str) -> (r: String)
    ensures
        r@ == trimmed_start(text@),
{
    let chars = chars_of(text);
    let from = first_visible(&chars);
    proof {
        lemma_trimmed_start_skip(text@, from as int);
        assert(chars@.subrange(from as int, chars@.len() as int) == text@.skip(from as int));
    }
    text_of(&chars, from, chars.len())
}

/// A text without the white space at either end.
pub fn trim(text: &str) -> (r: String)
    ensures
        r@ == trimmed(text@),
{
    let chars = chars_of(text);
    let from = first_visible(&chars);
    let mut to: usize = chars.len();
    let ghost tail = chars@.skip(from as int);
    while to > from && white_space(chars[to - 1])
        invariant
            from <= to <= chars@.len(),
            forall|i: int| to <= i < chars@.len() ==> is_white_space(chars@[i]),
        decreases to,
    {
        to = to - 1;
    }
    proof {
        lemma_trimmed_start_skip(text@, from as int);
        assert(trimmed_start(tail) == tail);
        lemma_trimmed_end_take(tail, to - from);
        assert(tail.take(to - from) == chars@.subrange(from as int, to as int));
    }
    text_of(&chars, from, to)
}

/// Whether two texts are the same.
pub fn same_text(a: &str, b: &str) -> (r: bool)
    ensures
        r == (a@ == b@),
{
    let a_chars = chars_of(a);
    let b_chars = chars_of(b);
    if a_chars.len() != b_chars.len() {
        return false;
    }
    let mut i: usize = 0;
    while i < a_chars.len()
        invariant
            i <= a_chars@.len() == b_chars@.len(),
            a_chars@ == a@,
            b_chars@ == b@,
            forall|j: int| 0 <= j < i ==> a_chars@[j] == b_chars@[j],
        decreases a_chars@.len() - i,
    {
        if a_chars[i] != b_chars[i] {
            return false;
        }
        i = i + 1;
    }
    assert(a@ == b@);
    true
}

/// Whether two byte sequences are the same.
pub fn same_bytes(a: &[u8], b: &[u8]) -> (r: bool)
    ensures
        r == (a@ == b@),
{
    if a.len() != b.len() {
        return false;
    }
    let mut i: usize = 0;
    while i < a.len()
        invariant
            i <= a@.len() == b@.len(),
            forall|j: int| 0 <= j < i ==> a@[j] == b@[j],
        decreases a@.len() - i,
    {
        if a[i] != b[i] {
            return false;
        }
        i = i + 1;
    }
    assert(a@ == b@);
    true
}

/// Whether a text begins with `prefix`.
pub fn starts_with(text: &str, prefix: &str) -> (r: bool)
    ensures
        r == prefix@.is_prefix_of(text@),
{
    let chars = chars_of(text);
    let wanted = chars_of(prefix);
    if chars.len() < wanted.len() {
        return false;
    }
    let mut i: usize = 0;
    while i < wanted.len()
        invariant
            i <= wanted@.len() <= chars@.len(),
            chars@ == text@,
            wanted@ == prefix@,
            forall|j: int| 0 <= j < i ==> chars@[j] == wanted@[j],
        decreases wanted@.len() - i,
    {
        if chars[i] != wanted[i] {
            assert(text@.subrange(0, prefix@.len() as int)[i as int] != prefix@[i as int]);
            return false;
        }
        i = i + 1;
    }
    assert(text@.subrange(0, prefix@.len() as int) == prefix@);
    true
}

/// Whether two texts are the same but for the case of ASCII letters.
pub fn same_text_but_ascii_case(a: &str, b: &str) -> (r: bool)
    ensures
        r == same_but_ascii_case(a@, b@),
{
    let a_chars = chars_of(a);
    let b_chars = chars_of(b);
    let ghost a_low = a@.map_values(|c: char| ascii_lower(c));
    let ghost b_low = b@.map_values(|c: char| ascii_lower(c));
    if a_chars.len() != b_chars.len() {
        assert(a_low.len() != b_low.len());
        return false;
    }
    let mut i: usize = 0;
    while i < a_chars.len()
        invariant
            i <= a_chars@.len() == b_chars@.len(),
            a_chars@ == a@,
            b_chars@ == b@,
            a_low == a@.map_values(|c: char| ascii_lower(c)),
            b_low == b@.map_values(|c: char| ascii_lower(c)),
            forall|j: int| 0 <= j < i ==> a_low[j] == b_low[j],
        decreases a_chars@.len() - i,
    {
        let x = lower(a_chars[i]);
        let y = lower(b_chars[i]);
        if x != y {
            assert(a_low[i as int] != b_low[i as int]);
            return false;
        }
        i = i + 1;
    }
    assert(a_low == b_low);
    true
}

/// `c` in lower case if it is an ASCII capital letter, else `c`.
fn lower(c: char) -> (r: char)
    ensures
        r == ascii_lower(c),
{
    if 'A' <= c && c <= 'Z' {
        ((c as u8) + 0x20) as char
    } else {
        c
    }
}

/// The parts of a list, with a separator between each two of them.
pub fn join(parts: &Vec<String>, sep: &str) -> (r: String)
    ensures
        r@ == joined(views(parts@), sep@),
{
    let mut out = String::new();
    let mut i: usize = 0;
    let ghost all = views(parts@);
    while i < parts.len()
        invariant
            i <= parts@.len(),
            all == views(parts@),
            out@ == joined(all.take(i as int), sep@),
        decreases parts@.len() - i,
    {
        if i > 0 {
            out.append(sep);
        }
        out.append(parts[i].as_str());
        proof {
            let next = all.take(i + 1);
            assert(next.drop_last() == all.take(i as int));
            assert(next.last() == parts@[i as int]@);
        }
        i = i + 1;
    }
    assert(all.take(i as int) == all);
    out
}

/// A number in decimal.
pub fn decimal(n: u64) -> (r: String)
    ensures
        r@ == decimal_of(n as nat),
    decreases n,
{
    if n < 10 {
        let mut out = String::new();
        out.push(((n as u8) + 0x30) as char);
        assert(out@ == decimal_of(n as nat));
        out
    } else {
        let mut out = decimal(n / 10);
        out.push((((n % 10) as u8) + 0x30) as char);
        out
    }
}

proof fn lemma_digits_value_grows(s: Seq<char>, n: int)
    requires
        0 <= n <= s.len(),
        forall|i: int| 0 <= i < s.len() ==> is_digit(#[trigger] s[i]),
    ensures
        digits_value(s.take(n)) <= digits_value(s),
    decreases s.len() - n,
{
    if n == s.len() {
        assert(s.take(n) == s);
    } else {
        lemma_digits_value_grows(s.drop_last(), n);
        assert(s.drop_last().take(n) == s.take(n));
    }
}

/// The unsigned number that a text writes, if it writes one.
pub fn parse_usize(text: &str) -> (r: Option<usize>)
    ensures
        r == usize_of(text@),
{
    let chars = chars_of(text);
    let start: usize = if chars.len() > 0 && chars[0] == '+' {
        1
    } else {
        0
    };
    let ghost digits = chars@.skip(start as int);
    assert(digits == without_plus(text@));
    if start == chars.len() {
        return None;
    }
    let mut i: usize = start;
    while i < chars.len()
        invariant
            start <= i <= chars@.len(),
            digits == chars@.skip(start as int),
            digits == without_plus(text@),
            forall|j: int| 0 <= j < i - start ==> is_digit(#[trigger] digits[j]),
        decreases chars@.len() - i,
    {
        let c = chars[i];
        if !('0' <= c && c <= '9') {
            assert(!is_digit(digits[i - start]));
            return None;
        }
        i = i + 1;
    }
    let mut value: usize = 0;
    i = start;
    while i < chars.len()
        invariant
            start <= i <= chars@.len(),
            chars@ == text@,
            digits == chars@.skip(start as int),
            digits == without_plus(text@),
            forall|j: int| 0 <= j < digits.len() ==> is_digit(#[trigger] digits[j]),
            value == digits_value(digits.take(i - start)),
        decreases chars@.len() - i,
    {
        let c = chars[i];
        proof {
            let next = digits.take(i - start + 1);
            assert(is_digit(digits[i - start]));
            assert(next.drop_last() == digits.take(i - start));
            assert(next.last() == c);
            lemma_digits_value_grows(digits, i - start + 1);
        }
        let digit: usize = ((c as u8) - 0x30) as usize;
        if value > (usize::MAX - digit) / 10 {
            return None;
        }
        value = value * 10 + digit;
        i = i + 1;
    }
    assert(digits.take(i - start) == digits);
    Some(value)
}

/// No line holds a line feed.
pub proof fn lemma_lines_hold_no_feed(s: Seq<char>, i: int, j: int)
    requires
        0 <= i < lines_of(s).len(),
        0 <= j < lines_of(s)[i].len(),
    ensures
        lines_of(s)[i][j] != '\n',
    decreases s.len(),
{
    lemma_line_end(s);
    if line_end(s) < s.len() {
        let rest = s.skip(line_end(s) + 1);
        if i > 0 {
            assert(lines_of(s)[i] == lines_of(rest)[i - 1]);
            lemma_lines_hold_no_feed(rest, i - 1, j);
        }
    }
}

/// Joining can start at the front as well as at the back.
pub proof fn lemma_joined_front(parts: Seq<Seq<char>>, sep: Seq<char>)
    requires
        parts.len() >= 2,
    ensures
        joined(parts, sep) == parts[0] + sep + joined(parts.drop_first(), sep),
    decreases parts.len(),
{
    let rest = parts.drop_first();
    if parts.len() == 2 {
        assert(joined(parts.drop_last(), sep) == parts[0]);
        assert(joined(rest, sep) == parts[1]);
    } else {
        lemma_joined_front(parts.drop_last(), sep);
        assert(parts.drop_last().drop_first() == rest.drop_last());
        assert(joined(parts, sep) == parts[0] + sep + joined(rest, sep));
    }
}

/// What is left without the white space at the start is the end of the text.
pub proof fn lemma_trimmed_start_suffix(s: Seq<char>)
    ensures
        trimmed_start(s).len() <= s.len(),
        trimmed_start(s) == s.skip(s.len() - trimmed_start(s).len()),
        forall|i: int| 0 <= i < s.len() - trimmed_start(s).len() ==> is_white_space(s[i]),
        trimmed_start(s).len() > 0 ==> !is_white_space(trimmed_start(s)[0]),
    decreases s.len(),
{
    if s.len() > 0 && is_white_space(s[0]) {
        let rest = s.drop_first();
        lemma_trimmed_start_suffix(rest);
        let n = s.len() - trimmed_start(s).len();
        assert(rest.skip(n - 1) == s.skip(n));
        assert forall|i: int| 0 <= i < n implies is_white_space(s[i]) by {
            if i > 0 {
                assert(rest[i - 1] == s[i]);
            }
        }
    } else {
        assert(s.skip(0) == s);
    }
}

/// Padding a line with spaces does not change what trimming leaves of it.
pub proof fn lemma_trimmed_after_padding(pad: Seq<char>, line: Seq<char>)
    requires
        forall|i: int| 0 <= i < pad.len() ==> is_white_space(#[trigger] pad[i]),
    ensures
        trimmed(pad + line) == trimmed(line),
{
    assert forall|i: int| 0 <= i < pad.len() implies is_white_space((pad + line)[i]) by {
        assert((pad + line)[i] == pad[i]);
    }
    lemma_trimmed_start_skip(pad + line, pad.len() as int);
    assert((pad + line).skip(pad.len() as int) == line);
}

/// White space at the end stays at the end, unless nothing is before it.
pub proof fn lemma_trimmed_start_push(s: Seq<char>, c: char)
    requires
        is_white_space(c),
    ensures
        trimmed_start(s.push(c)) == trimmed_start(s).push(c) || (trimmed_start(s.push(c)).len() == 0
            && trimmed_start(s).len() == 0),
    decreases s.len(),
{
    if s.len() == 0 {
        assert(s.push(c).drop_first() == s);
    } else if is_white_space(s[0]) {
        assert(s.push(c).drop_first() == s.drop_first().push(c));
        lemma_trimmed_start_push(s.drop_first(), c);
    }
}

/// A carriage return at the end of a line is lost in trimming anyway.
pub proof fn lemma_trimmed_without_return(s: Seq<char>)
    ensures
        trimmed(without_return(s)) == trimmed(s),
{
    if s.len() > 0 && s.last() == '\r' {
        let t = s.drop_last();
        assert(s == t.push('\r'));
        lemma_trimmed_start_push(t, '\r');
        if trimmed_start(s) == trimmed_start(t).push('\r') {
            assert(trimmed_start(s).drop_last() == trimmed_start(t));
        } else {
            assert(trimmed_start(s) == trimmed_start(t));
        }
    }
}

/// The lines of joined parts are the parts: all but the last without the
/// carriage return at their end, and the last only if it is not empty.
pub proof fn lemma_lines_of_joined(parts: Seq<Seq<char>>)
    requires
        forall|i: int, j: int|
            0 <= i < parts.len() && 0 <= j < parts[i].len() ==> #[trigger] parts[i][j] != '\n',
    ensures
        lines_of(joined(parts, seq!['\n'])) == (if parts.len() == 0 {
            seq![]
        } else if parts.last().len() == 0 {
            parts.drop_last().map_values(|p: Seq<char>| without_return(p))
        } else {
            parts.drop_last().map_values(|p: Seq<char>| without_return(p)).push(parts.last())
        }),
    decreases parts.len(),
{
    let feed = seq!['\n'];
    let text = joined(parts, feed);
    if parts.len() == 0 {
    } else if parts.len() == 1 {
        lemma_line_end_at(text, text.len() as int);
        assert(parts.drop_last() == Seq::<Seq<char>>::empty());
        if parts[0].len() == 0 {
            assert(lines_of(text) == parts.drop_last().map_values(|p: Seq<char>| without_return(p)));
        } else {
            assert(lines_of(text) == parts.drop_last().map_values(
                |p: Seq<char>| without_return(p),
            ).push(parts.last()));
        }
    } else {
        let rest = parts.drop_first();
        let n = parts[0].len() as int;
        lemma_joined_front(parts, feed);
        assert forall|i: int, j: int|
            0 <= i < rest.len() && 0 <= j < rest[i].len() implies #[trigger] rest[i][j] != '\n' by {
            assert(rest[i][j] == parts[i + 1][j]);
        }
        lemma_lines_of_joined(rest);
        assert forall|i: int| 0 <= i < n implies text[i] != '\n' by {
            assert(text[i] == parts[0][i]);
        }
        lemma_line_end_at(text, n);
        assert(text.take(n) == parts[0]);
        assert(text.skip(n + 1) == joined(rest, feed));
        assert(lines_of(text) == seq![without_return(parts[0])] + lines_of(joined(rest, feed)));
        let heads = parts.drop_last().map_values(|p: Seq<char>| without_return(p));
        let rest_heads = rest.drop_last().map_values(|p: Seq<char>| without_return(p));
        assert(heads == seq![without_return(parts[0])] + rest_heads);
        if parts.last().len() == 0 {
            assert(lines_of(text) == heads);
        } else {
            assert(lines_of(text) == heads.push(parts.last()));
        }
    }
}

} // verus!
