//! What holds of texts: lines, white space, joining, numbers, and letters.

use crate::text::{
    decimal_of, digits_value, is_digit, is_white_space, joined, lemma_line_end_at,
    lemma_trimmed_start_suffix, lines_of, same_but_ascii_case, trimmed, trimmed_end, trimmed_start,
    usize_of, without_plus, without_return,
};
use vstd::prelude::*;

verus! {

/// Whether no character of a text is a line feed.
pub open spec fn one_line(s: Seq<char>) -> bool {
    forall|i: int| 0 <= i < s.len() ==> #[trigger] s[i] != '\n'
}

/// Whether a character is seen as a gap: those from tab to carriage return, the
/// space, and the other spaces and separators of Unicode.
pub open spec fn is_gap(c: char) -> bool {
    ||| c == '\t' || c == '\n' || c == '\u{b}' || c == '\u{c}' || c == '\r' || c == ' '
    ||| c == '\u{85}' || c == '\u{a0}' || c == '\u{1680}'
    ||| '\u{2000}' <= c && c <= '\u{200a}'
    ||| c == '\u{2028}' || c == '\u{2029}' || c == '\u{202f}' || c == '\u{205f}'
    ||| c == '\u{3000}'
}

/// Whether all characters of a text are gaps.
pub open spec fn all_gaps(s: Seq<char>) -> bool {
    forall|i: int| 0 <= i < s.len() ==> is_gap(#[trigger] s[i])
}

/// An empty text has no line. A text without a line feed is one line.
pub proof fn law_text_without_feed_is_one_line(s: Seq<char>)
    requires
        one_line(s),
    ensures
        s.len() == 0 ==> lines_of(s).len() == 0,
        s.len() > 0 ==> lines_of(s) == seq![s],
{
    lemma_line_end_at(s, s.len() as int);
}

/// A line feed ends the first line, and so does a carriage return with a line
/// feed; the lines of what follows come after it.
pub proof fn law_feed_ends_the_line(line: Seq<char>, rest: Seq<char>)
    requires
        one_line(line),
    ensures
        line.len() == 0 || line.last() != '\r' ==> lines_of(line + seq!['\n'] + rest) == seq![line]
            + lines_of(rest),
        lines_of(line + seq!['\r', '\n'] + rest) == seq![line] + lines_of(rest),
{
    let short = line + seq!['\n'] + rest;
    let n = line.len() as int;
    assert forall|i: int| 0 <= i < n implies short[i] != '\n' by {
        assert(short[i] == line[i]);
    }
    lemma_line_end_at(short, n);
    assert(short.take(n) == line);
    assert(short.skip(n + 1) == rest);
    let long = line + seq!['\r', '\n'] + rest;
    assert forall|i: int| 0 <= i < n + 1 implies long[i] != '\n' by {
        if i < n {
            assert(long[i] == line[i]);
        }
    }
    lemma_line_end_at(long, n + 1);
    assert(long.take(n + 1) == line.push('\r'));
    assert(without_return(line.push('\r')) == line);
    assert(long.skip(n + 2) == rest);
}

proof fn lemma_gap_is_white_space(c: char)
    ensures
        is_gap(c) == is_white_space(c),
{
}

proof fn lemma_trimmed_end_prefix(s: Seq<char>)
    ensures
        trimmed_end(s).len() <= s.len(),
        trimmed_end(s) == s.take(trimmed_end(s).len() as int),
        forall|i: int| trimmed_end(s).len() <= i < s.len() ==> is_white_space(s[i]),
        trimmed_end(s).len() > 0 ==> !is_white_space(trimmed_end(s).last()),
    decreases s.len(),
{
    if s.len() > 0 && is_white_space(s.last()) {
        let front = s.drop_last();
        lemma_trimmed_end_prefix(front);
        let n = trimmed_end(s).len() as int;
        assert(front.take(n) == s.take(n));
        assert forall|i: int| n <= i < s.len() implies is_white_space(s[i]) by {
            if i < front.len() {
                assert(is_white_space(front[i]));
            }
        }
    } else {
        assert(s.take(s.len() as int) == s);
    }
}

/// Trimming the start takes gaps off the front, and all of them.
pub proof fn law_trimming_the_start_takes_gaps_alone(s: Seq<char>)
    ensures
        exists|front: Seq<char>| #[trigger] all_gaps(front) && s == front + trimmed_start(s),
        trimmed_start(s).len() > 0 ==> !is_gap(trimmed_start(s)[0]),
{
    lemma_trimmed_start_suffix(s);
    let n = s.len() - trimmed_start(s).len();
    let front = s.take(n);
    assert forall|i: int| 0 <= i < front.len() implies is_gap(#[trigger] front[i]) by {
        lemma_gap_is_white_space(s[i]);
        assert(front[i] == s[i]);
    }
    assert(all_gaps(front));
    assert(s == front + trimmed_start(s));
}

/// Trimming takes gaps off both ends, and all of them: what is left begins and
/// ends with something else, or is empty.
pub proof fn law_trimming_takes_gaps_alone(s: Seq<char>)
    ensures
        exists|front: Seq<char>, back: Seq<char>|
            #![trigger all_gaps(front), all_gaps(back)]
            all_gaps(front) && all_gaps(back) && s == front + trimmed(s) + back,
        trimmed(s).len() > 0 ==> !is_gap(trimmed(s)[0]) && !is_gap(trimmed(s).last()),
{
    law_trimming_the_start_takes_gaps_alone(s);
    let rest = trimmed_start(s);
    lemma_trimmed_end_prefix(rest);
    let front = choose|front: Seq<char>| #[trigger] all_gaps(front) && s == front + rest;
    let back = rest.skip(trimmed(s).len() as int);
    assert forall|i: int| 0 <= i < back.len() implies is_gap(#[trigger] back[i]) by {
        let k = trimmed(s).len() + i;
        assert(is_white_space(rest[k]));
        assert(back[i] == rest[k]);
        lemma_gap_is_white_space(back[i]);
    }
    assert(all_gaps(back));
    assert(s == front + trimmed(s) + back);
    if trimmed(s).len() > 0 {
        assert(trimmed(s)[0] == rest[0]);
    }
}

/// Joining puts the separator between each two parts, and nowhere else.
pub proof fn law_joining_separates(parts: Seq<Seq<char>>, part: Seq<char>, sep: Seq<char>)
    ensures
        joined(Seq::<Seq<char>>::empty(), sep).len() == 0,
        joined(seq![part], sep) == part,
        parts.len() > 0 ==> joined(parts.push(part), sep) == joined(parts, sep) + sep + part,
{
    assert(parts.push(part).drop_last() == parts);
}

/// A number below ten is written by its digit. Any other is written by what
/// ten goes into it, followed by what is left.
pub proof fn law_decimal_digits(tens: nat, ones: nat)
    requires
        ones < 10,
    ensures
        decimal_of(ones) == seq!["0123456789"@[ones as int]],
        tens > 0 ==> decimal_of(tens * 10 + ones) == decimal_of(tens) + decimal_of(ones),
{
    reveal_strlit("0123456789");
    assert("0123456789"@[ones as int] as u32 == 0x30 + ones);
    if tens > 0 {
        let n = tens * 10 + ones;
        assert(n / 10 == tens && n % 10 == ones) by (nonlinear_arith)
            requires
                n == tens * 10 + ones,
                ones < 10,
        ;
    }
}

proof fn lemma_decimal_value(n: nat)
    ensures
        decimal_of(n).len() > 0,
        forall|i: int| 0 <= i < decimal_of(n).len() ==> is_digit(#[trigger] decimal_of(n)[i]),
        digits_value(decimal_of(n)) == n,
    decreases n,
{
    if n < 10 {
        let s = decimal_of(n);
        assert(s.drop_last() == Seq::<char>::empty());
        assert(digits_value(s.drop_last()) == 0);
    } else {
        lemma_decimal_value(n / 10);
        let s = decimal_of(n);
        assert(s.drop_last() == decimal_of(n / 10));
        assert forall|i: int| 0 <= i < s.len() implies is_digit(#[trigger] s[i]) by {
            if i < s.len() - 1 {
                assert(s[i] == decimal_of(n / 10)[i]);
            }
        }
    }
}

proof fn lemma_leading_zero(s: Seq<char>)
    ensures
        digits_value(seq!['0'] + s) == digits_value(s),
    decreases s.len(),
{
    let t = seq!['0'] + s;
    if s.len() == 0 {
        assert(t == seq!['0']);
        assert(t.drop_last() == s);
    } else {
        lemma_leading_zero(s.drop_last());
        assert(t.drop_last() == seq!['0'] + s.drop_last());
    }
}

/// A number is read from its decimal text, if `usize` can hold it.
pub proof fn law_written_number_is_read(n: nat)
    ensures
        n <= usize::MAX ==> usize_of(decimal_of(n)) == Some(n as usize),
        n > usize::MAX ==> usize_of(decimal_of(n)) is None,
{
    lemma_decimal_value(n);
    assert(is_digit(decimal_of(n)[0]));
    assert(without_plus(decimal_of(n)) == decimal_of(n));
}

/// Zeros before the digits of a number and one plus sign before them change nothing.
pub proof fn law_zeros_and_plus_are_ignored(s: Seq<char>)
    ensures
        s.len() > 0 && s[0] != '+' ==> usize_of(seq!['0'] + s) == usize_of(s),
        s.len() == 0 || s[0] != '+' ==> usize_of(seq!['+'] + s) == usize_of(s),
{
    let zero = seq!['0'] + s;
    let plus = seq!['+'] + s;
    assert(plus.drop_first() == s);
    if s.len() > 0 && s[0] != '+' {
        lemma_leading_zero(s);
        assert(without_plus(s) == s && without_plus(zero) == zero);
        if forall|i: int| 0 <= i < s.len() ==> is_digit(#[trigger] s[i]) {
            assert forall|i: int| 0 <= i < zero.len() implies is_digit(#[trigger] zero[i]) by {
                if i > 0 {
                    assert(zero[i] == s[i - 1]);
                }
            }
        } else {
            let i = choose|i: int| 0 <= i < s.len() && !is_digit(#[trigger] s[i]);
            assert(zero[i + 1] == s[i]);
            assert(!is_digit(zero[i + 1]));
        }
    }
}

/// A text that is empty, or that holds anything else than digits after an
/// optional plus sign, is no number.
pub proof fn law_other_texts_are_no_numbers(s: Seq<char>, i: int)
    requires
        0 <= i < s.len(),
        s[i] < '0' || s[i] > '9',
        i > 0 || s[i] != '+',
    ensures
        usize_of(s) is None,
        usize_of(Seq::<char>::empty()) is None,
{
    let digits = without_plus(s);
    if s[0] == '+' {
        assert(digits[i - 1] == s[i]);
        assert(!is_digit(digits[i - 1]));
    } else {
        assert(!is_digit(digits[i]));
    }
}

/// Two texts are the same but for the case of ASCII letters exactly if they
/// are as long, and each character is the same in both or a letter from `a` to
/// `z` in the one and its capital in the other.
pub proof fn law_case_of_ascii_letters_alone_is_ignored(a: Seq<char>, b: Seq<char>)
    ensures
        same_but_ascii_case(a, b) <==> a.len() == b.len() && forall|i: int|
            0 <= i < a.len() ==> same_letter(#[trigger] a[i], b[i]),
{
    let lower = |c: char| crate::text::ascii_lower(c);
    let x = a.map_values(lower);
    let y = b.map_values(lower);
    if same_but_ascii_case(a, b) {
        assert(x.len() == y.len());
        assert forall|i: int| 0 <= i < a.len() implies same_letter(#[trigger] a[i], b[i]) by {
            assert(x[i] == y[i]);
        }
    }
    if a.len() == b.len() && forall|i: int|
        0 <= i < a.len() ==> same_letter(#[trigger] a[i], b[i]) {
        assert forall|i: int| 0 <= i < x.len() implies x[i] == y[i] by {
            assert(same_letter(a[i], b[i]));
        }
        assert(x == y);
    }
}

/// Whether two characters are the same, or the two cases of an ASCII letter.
pub open spec fn same_letter(a: char, b: char) -> bool {
    ||| a == b
    ||| 'a' <= a && a <= 'z' && a as u32 == b as u32 + 32
    ||| 'a' <= b && b <= 'z' && b as u32 == a as u32 + 32
}

} // verus!
