//! What holds of PEM texts: armor, indentation, and what is written and read.

use crate::generate::{blanks, element_text, indented};
use crate::pem::{
    after_open, armored_text, base64_decoded, base64_text, before_close, body_text, closes_body,
    lemma_base64_round_trip, opens_body, pem_chain_decoded, pem_decoded, unindented, PemChainError,
    PemError, MAX_PEM_BODY_BYTES, PEM_BEGIN, PEM_END,
};
use crate::private_key::private_key_verdict;
use crate::text::{
    is_white_space, joined, lemma_joined_front, lemma_line_end, lemma_line_end_at,
    lemma_lines_hold_no_feed, lemma_lines_of_joined, lemma_trimmed_after_padding,
    lemma_trimmed_end_take, lemma_trimmed_start_push, lemma_trimmed_start_skip,
    lemma_trimmed_start_suffix, lemma_trimmed_without_return, line_end, lines_of, trimmed,
    trimmed_end, trimmed_start, without_return,
};
use vstd::prelude::*;
use vstd::utf8::encode_utf8;

verus! {

/// Whether two lists of lines are the same after trimming.
pub open spec fn same_trimmed(a: Seq<Seq<char>>, b: Seq<Seq<char>>) -> bool {
    a.len() == b.len() && forall|i: int|
        0 <= i < a.len() ==> trimmed(#[trigger] a[i]) == trimmed(b[i])
}

proof fn lemma_before_close_same(a: Seq<Seq<char>>, b: Seq<Seq<char>>)
    requires
        same_trimmed(a, b),
    ensures
        same_trimmed(before_close(a), before_close(b)),
    decreases a.len(),
{
    if a.len() > 0 {
        assert(trimmed(a[0]) == trimmed(b[0]));
        assert(same_trimmed(a.drop_first(), b.drop_first())) by {
            assert forall|i: int| 0 <= i < a.len() - 1 implies trimmed(
                #[trigger] a.drop_first()[i],
            ) == trimmed(b.drop_first()[i]) by {
                assert(trimmed(a[i + 1]) == trimmed(b[i + 1]));
            }
        }
        lemma_before_close_same(a.drop_first(), b.drop_first());
        if !closes_body(a[0]) {
            let x = before_close(a);
            let y = before_close(b);
            assert forall|i: int| 0 <= i < x.len() implies trimmed(#[trigger] x[i]) == trimmed(
                y[i],
            ) by {
                if i > 0 {
                    assert(x[i] == before_close(a.drop_first())[i - 1]);
                    assert(y[i] == before_close(b.drop_first())[i - 1]);
                }
            }
        }
    }
}

proof fn lemma_body_text_same(a: Seq<Seq<char>>, b: Seq<Seq<char>>)
    requires
        same_trimmed(a, b),
    ensures
        body_text(a) == body_text(b),
    decreases a.len(),
{
    if a.len() > 0 {
        assert(trimmed(a[0]) == trimmed(b[0]));
        assert forall|i: int| 0 <= i < a.len() - 1 implies trimmed(#[trigger] a.drop_first()[i])
            == trimmed(b.drop_first()[i]) by {
            assert(trimmed(a[i + 1]) == trimmed(b[i + 1]));
        }
        lemma_body_text_same(a.drop_first(), b.drop_first());
    }
}

proof fn lemma_after_open_same(a: Seq<Seq<char>>, b: Seq<Seq<char>>)
    requires
        same_trimmed(a, b),
    ensures
        after_open(a) is Some <==> after_open(b) is Some,
        after_open(a) is Some ==> same_trimmed(after_open(a)->0, after_open(b)->0),
    decreases a.len(),
{
    if a.len() > 0 {
        assert(trimmed(a[0]) == trimmed(b[0]));
        assert forall|i: int| 0 <= i < a.len() - 1 implies trimmed(#[trigger] a.drop_first()[i])
            == trimmed(b.drop_first()[i]) by {
            assert(trimmed(a[i + 1]) == trimmed(b[i + 1]));
        }
        lemma_after_open_same(a.drop_first(), b.drop_first());
    }
}

/// White space around the lines of a PEM text does not change the text in its armor.
pub proof fn law_armor_ignores_white_space(a: Seq<Seq<char>>, b: Seq<Seq<char>>)
    requires
        same_trimmed(a, b),
    ensures
        armored_text(a) == armored_text(b),
{
    lemma_before_close_same(a, b);
    lemma_after_open_same(before_close(a), before_close(b));
    if after_open(before_close(a)) is Some {
        lemma_body_text_same(after_open(before_close(a))->0, after_open(before_close(b))->0);
    }
}

proof fn lemma_blank_marks_nothing(line: Seq<char>)
    requires
        trimmed(line).len() == 0,
    ensures
        !opens_body(line),
        !closes_body(line),
{
    reveal_strlit("-----BEGIN");
    reveal_strlit("-----END");
}

proof fn lemma_body_text_blank(ls: Seq<Seq<char>>, blank: Seq<char>)
    requires
        trimmed(blank).len() == 0,
    ensures
        body_text(ls.push(blank)) == body_text(ls),
    decreases ls.len(),
{
    lemma_blank_marks_nothing(blank);
    if ls.len() == 0 {
        assert(ls.push(blank).drop_first() == ls);
        assert(trimmed(blank) + body_text(ls) == body_text(ls));
    } else {
        assert(ls.push(blank).drop_first() == ls.drop_first().push(blank));
        lemma_body_text_blank(ls.drop_first(), blank);
    }
}

proof fn lemma_after_open_blank(ls: Seq<Seq<char>>, blank: Seq<char>)
    requires
        trimmed(blank).len() == 0,
    ensures
        after_open(ls.push(blank)) == (match after_open(ls) {
            Some(rest) => Some(rest.push(blank)),
            None => None,
        }),
    decreases ls.len(),
{
    lemma_blank_marks_nothing(blank);
    if ls.len() == 0 {
        assert(ls.push(blank).drop_first() == ls);
    } else {
        assert(ls.push(blank).drop_first() == ls.drop_first().push(blank));
        lemma_after_open_blank(ls.drop_first(), blank);
    }
}

proof fn lemma_before_close_blank(ls: Seq<Seq<char>>, blank: Seq<char>)
    requires
        trimmed(blank).len() == 0,
    ensures
        before_close(ls.push(blank)) == before_close(ls) || before_close(ls.push(blank))
            == before_close(ls).push(blank),
    decreases ls.len(),
{
    lemma_blank_marks_nothing(blank);
    if ls.len() == 0 {
        assert(ls.push(blank).drop_first() == ls);
        assert(before_close(ls.push(blank)) == before_close(ls).push(blank));
    } else {
        assert(ls.push(blank).drop_first() == ls.drop_first().push(blank));
        lemma_before_close_blank(ls.drop_first(), blank);
        let rest = before_close(ls.drop_first());
        assert((seq![ls[0]] + rest).push(blank) == seq![ls[0]] + rest.push(blank));
    }
}

/// A blank line at the end of a PEM text does not change the text in its armor.
pub proof fn law_armor_ignores_last_blank(ls: Seq<Seq<char>>, blank: Seq<char>)
    requires
        trimmed(blank).len() == 0,
    ensures
        armored_text(ls.push(blank)) == armored_text(ls),
{
    lemma_before_close_blank(ls, blank);
    let inner = before_close(ls);
    lemma_after_open_blank(inner, blank);
    if after_open(inner) is Some {
        lemma_body_text_blank(after_open(inner)->0, blank);
    }
}

/// Writing lines one below the other and reading them back keeps the text in their armor.
pub proof fn law_armor_survives_joining(parts: Seq<Seq<char>>)
    requires
        forall|i: int, j: int|
            0 <= i < parts.len() && 0 <= j < parts[i].len() ==> #[trigger] parts[i][j] != '\n',
    ensures
        armored_text(lines_of(joined(parts, seq!['\n']))) == armored_text(parts),
{
    lemma_lines_of_joined(parts);
    if parts.len() > 0 {
        let heads = parts.drop_last().map_values(|p: Seq<char>| without_return(p));
        let last = parts.last();
        assert(same_trimmed(heads, parts.drop_last())) by {
            assert forall|i: int| 0 <= i < heads.len() implies trimmed(#[trigger] heads[i])
                == trimmed(parts.drop_last()[i]) by {
                lemma_trimmed_without_return(parts[i]);
            }
        }
        assert(parts == parts.drop_last().push(last));
        if last.len() == 0 {
            law_armor_ignores_white_space(heads, parts.drop_last());
            law_armor_ignores_last_blank(parts.drop_last(), last);
        } else {
            assert(same_trimmed(heads.push(last), parts)) by {
                assert forall|i: int| 0 <= i < parts.len() implies trimmed(
                    #[trigger] heads.push(last)[i],
                ) == trimmed(parts[i]) by {
                    if i < heads.len() {
                        assert(trimmed(heads[i]) == trimmed(parts.drop_last()[i]));
                    }
                }
            }
            law_armor_ignores_white_space(heads.push(last), parts);
        }
    }
}

/// Indenting a PEM text does not change what it decodes to, by however many
/// spaces: what the generator indents, the validator reads.
pub proof fn law_indented_pem_decodes_alike(text: Seq<char>, n: nat)
    ensures
        pem_decoded(indented(text, n)) == pem_decoded(text),
{
    let ls = lines_of(text);
    let padded = ls.map_values(|l: Seq<char>| blanks(n) + l);
    lemma_padded_holds_no_feed(text, n);
    law_armor_survives_joining(padded);
    assert(same_trimmed(padded, ls)) by {
        assert forall|i: int| 0 <= i < padded.len() implies trimmed(#[trigger] padded[i])
            == trimmed(ls[i]) by {
            lemma_trimmed_after_padding(blanks(n), ls[i]);
        }
    }
    law_armor_ignores_white_space(padded, ls);
}

proof fn lemma_padded_holds_no_feed(text: Seq<char>, n: nat)
    ensures
        ({
            let padded = lines_of(text).map_values(|l: Seq<char>| blanks(n) + l);
            forall|i: int, j: int|
                0 <= i < padded.len() && 0 <= j < padded[i].len() ==> #[trigger] padded[i][j]
                    != '\n'
        }),
{
    let ls = lines_of(text);
    let padded = ls.map_values(|l: Seq<char>| blanks(n) + l);
    assert forall|i: int, j: int| 0 <= i < padded.len() && 0 <= j < padded[i].len() implies
        #[trigger] padded[i][j] != '\n' by {
        assert(padded[i] == blanks(n) + ls[i]);
        if j >= n {
            lemma_lines_hold_no_feed(text, i, j - n);
            assert(padded[i][j] == ls[i][j - n]);
        } else {
            assert(padded[i][j] == blanks(n)[j]);
        }
    }
}

proof fn lemma_trimmed_start_of_padded(line: Seq<char>, n: nat)
    ensures
        trimmed_start(blanks(n) + line) == trimmed_start(line),
{
    lemma_trimmed_start_skip(blanks(n) + line, n as int);
    assert((blanks(n) + line).skip(n as int) == line);
}

proof fn lemma_strip_joined(parts: Seq<Seq<char>>)
    requires
        forall|i: int, j: int|
            0 <= i < parts.len() && 0 <= j < parts[i].len() ==> #[trigger] parts[i][j] != '\n',
        forall|i: int|
            0 <= i < parts.len() - 1 ==> trimmed_start(#[trigger] parts[i]).len() == 0
                || parts[i].last() != '\r',
        parts.len() <= 1 || parts.last().len() > 0,
    ensures
        unindented(joined(parts, seq!['\n'])) == joined(
            parts.map_values(|l: Seq<char>| trimmed_start(l)),
            seq!['\n'],
        ),
{
    let strip = |l: Seq<char>| trimmed_start(l);
    let feed = seq!['\n'];
    let again = lines_of(joined(parts, feed));
    lemma_lines_of_joined(parts);
    if parts.len() > 0 {
        let heads = parts.drop_last().map_values(|p: Seq<char>| without_return(p));
        assert forall|i: int| 0 <= i < heads.len() implies strip(#[trigger] heads[i]) == strip(
            parts[i],
        ) by {
            let p = parts[i];
            assert(heads[i] == without_return(p));
            if p.len() > 0 && p.last() == '\r' {
                assert(trimmed_start(p).len() == 0);
                assert(p == p.drop_last().push('\r'));
                lemma_trimmed_start_push(p.drop_last(), '\r');
                assert(trimmed_start(without_return(p)) == trimmed_start(p));
            }
        }
        if parts.last().len() == 0 {
            assert(again.map_values(strip) == Seq::<Seq<char>>::empty());
            assert(parts.map_values(strip) == seq![parts[0]]);
            assert(joined(parts.map_values(strip), feed) == parts[0]);
            assert(unindented(joined(parts, feed)) == parts[0]);
        } else {
            assert(again.map_values(strip) == parts.map_values(strip));
        }
    } else {
        assert(again.map_values(strip) == parts.map_values(strip));
    }
}

/// Stripping the indent of an indented PEM text gives what stripping the text
/// itself gives. Left out are texts that lose a character when their lines are
/// written and read again: a line above the last that ends in a carriage
/// return of its own, and an empty last line that is not indented.
pub proof fn law_stripping_undoes_indenting(text: Seq<char>, n: nat)
    requires
        forall|i: int|
            0 <= i < lines_of(text).len() - 1 ==> trimmed_start(#[trigger] lines_of(text)[i]).len()
                == 0 || lines_of(text)[i].last() != '\r',
        n > 0 || lines_of(text).len() <= 1 || lines_of(text).last().len() > 0,
    ensures
        unindented(indented(text, n)) == unindented(text),
{
    let ls = lines_of(text);
    let padded = ls.map_values(|l: Seq<char>| blanks(n) + l);
    let strip = |l: Seq<char>| trimmed_start(l);
    lemma_padded_holds_no_feed(text, n);
    assert forall|i: int| 0 <= i < padded.len() implies trimmed_start(#[trigger] padded[i])
        == trimmed_start(ls[i]) by {
        lemma_trimmed_start_of_padded(ls[i], n);
    }
    assert forall|i: int| 0 <= i < padded.len() - 1 implies trimmed_start(
        #[trigger] padded[i],
    ).len() == 0 || padded[i].last() != '\r' by {
        if trimmed_start(ls[i]).len() > 0 {
            assert(ls[i].len() > 0);
            assert(padded[i].last() == ls[i].last());
        }
    }
    if padded.len() > 0 {
        assert(padded.last() == blanks(n) + ls.last());
    }
    lemma_strip_joined(padded);
    assert(padded.map_values(strip) == ls.map_values(strip));
}

/// Joined parts begin with the first one.
proof fn lemma_joined_begins(parts: Seq<Seq<char>>, sep: Seq<char>)
    requires
        parts.len() > 0,
    ensures
        joined(parts, sep).len() >= parts[0].len(),
        joined(parts, sep).take(parts[0].len() as int) == parts[0],
{
    if parts.len() > 1 {
        lemma_joined_front(parts, sep);
    } else {
        assert(joined(parts, sep) == parts[0]);
    }
}

/// Cutting the first of several joined parts cuts the whole.
proof fn lemma_joined_cut(parts: Seq<Seq<char>>, sep: Seq<char>, k: int)
    requires
        parts.len() > 0,
        0 <= k <= parts[0].len(),
    ensures
        joined(parts.update(0, parts[0].skip(k)), sep) == joined(parts, sep).skip(k),
{
    let cut = parts.update(0, parts[0].skip(k));
    if parts.len() > 1 {
        lemma_joined_front(parts, sep);
        lemma_joined_front(cut, sep);
        assert(cut.drop_first() == parts.drop_first());
        let tail = sep + joined(parts.drop_first(), sep);
        assert(joined(parts, sep) == parts[0] + tail);
        assert(joined(cut, sep) == parts[0].skip(k) + tail);
        assert((parts[0] + tail).skip(k) == parts[0].skip(k) + tail);
    } else {
        assert(joined(parts, sep) == parts[0]);
        assert(joined(cut, sep) == cut[0]);
    }
}

/// White space around a text that begins and ends with a visible character is dropped.
proof fn lemma_trimmed_around(before: Seq<char>, text: Seq<char>, after: Seq<char>)
    requires
        forall|i: int| 0 <= i < before.len() ==> is_white_space(#[trigger] before[i]),
        forall|i: int| 0 <= i < after.len() ==> is_white_space(#[trigger] after[i]),
        text.len() > 0,
        !is_white_space(text[0]),
        !is_white_space(text.last()),
    ensures
        trimmed(before + text + after) == text,
{
    let whole = before + text + after;
    let inner = text + after;
    assert forall|i: int| 0 <= i < before.len() implies is_white_space(whole[i]) by {
        assert(whole[i] == before[i]);
    }
    lemma_trimmed_start_skip(whole, before.len() as int);
    assert(whole.skip(before.len() as int) == inner);
    assert(inner[0] == text[0]);
    assert forall|i: int| text.len() <= i < inner.len() implies is_white_space(inner[i]) by {
        assert(inner[i] == after[i - text.len()]);
    }
    lemma_trimmed_end_take(inner, text.len() as int);
    assert(inner.take(text.len() as int) == text);
}

/// What trimming leaves of an indented text between two tags.
proof fn lemma_trimmed_written(pem: Seq<char>, n: nat, m: nat)
    requires
        lines_of(pem).len() > 0,
        trimmed_start(lines_of(pem)[0]).len() > 0,
        lines_of(pem).last().len() > 0,
        !is_white_space(lines_of(pem).last().last()),
    ensures
        ({
            let ls = lines_of(pem);
            let padded = ls.map_values(|l: Seq<char>| blanks(n) + l);
            trimmed(element_text(pem, n, m)) == joined(
                padded.update(0, trimmed_start(ls[0])),
                seq!['\n'],
            )
        }),
{
    let ls = lines_of(pem);
    let feed = seq!['\n'];
    let padded = ls.map_values(|l: Seq<char>| blanks(n) + l);
    let first = trimmed_start(ls[0]);
    let parts = padded.update(0, first);
    let whole = indented(pem, n);
    let text = joined(parts, feed);
    let k = padded[0].len() - first.len();
    assert(padded[0] == blanks(n) + ls[0]);
    lemma_trimmed_start_of_padded(ls[0], n);
    lemma_trimmed_start_suffix(padded[0]);
    assert(padded[0].skip(k) == first);
    lemma_joined_cut(padded, feed, k);
    lemma_joined_begins(padded, feed);
    lemma_joined_begins(parts, feed);
    let before = feed + whole.take(k);
    let after = feed + blanks(m);
    assert forall|i: int| 0 <= i < before.len() implies is_white_space(#[trigger] before[i]) by {
        if i > 0 {
            assert(before[i] == whole.take(padded[0].len() as int)[i - 1]);
        }
    }
    assert(text[0] == text.take(first.len() as int)[0]);
    assert(parts.last().len() > 0 && parts.last().last() == ls.last().last()) by {
        if ls.len() > 1 {
            assert(parts.last() == blanks(n) + ls.last());
        } else {
            lemma_trimmed_start_suffix(ls[0]);
        }
    }
    assert(text.last() == parts.last().last());
    lemma_trimmed_around(before, text, after);
    assert(element_text(pem, n, m) == before + text + after);
}

/// What stripping leaves of the lines of a text whose first line has lost its
/// indent and whose other lines are indented.
proof fn lemma_strip_written(pem: Seq<char>, n: nat)
    requires
        lines_of(pem).len() > 0,
        lines_of(pem).last().len() > 0,
        trimmed_start(lines_of(pem)[0]).len() > 0,
        forall|i: int|
            0 <= i < lines_of(pem).len() - 1 ==> trimmed_start(#[trigger] lines_of(pem)[i]).len()
                == 0 || lines_of(pem)[i].last() != '\r',
    ensures
        ({
            let ls = lines_of(pem);
            let padded = ls.map_values(|l: Seq<char>| blanks(n) + l);
            unindented(joined(padded.update(0, trimmed_start(ls[0])), seq!['\n'])) == unindented(
                pem,
            )
        }),
{
    let ls = lines_of(pem);
    let padded = ls.map_values(|l: Seq<char>| blanks(n) + l);
    let first = trimmed_start(ls[0]);
    let parts = padded.update(0, first);
    let strip = |l: Seq<char>| trimmed_start(l);
    lemma_padded_holds_no_feed(pem, n);
    lemma_trimmed_start_suffix(ls[0]);
    assert forall|i: int, j: int| 0 <= i < parts.len() && 0 <= j < parts[i].len() implies
        #[trigger] parts[i][j] != '\n' by {
        if i == 0 {
            lemma_lines_hold_no_feed(pem, 0, j + ls[0].len() - first.len());
        } else {
            assert(parts[i][j] == padded[i][j]);
        }
    }
    assert forall|i: int| 0 <= i < parts.len() implies trimmed_start(#[trigger] parts[i])
        == trimmed_start(ls[i]) by {
        if i > 0 {
            lemma_trimmed_start_of_padded(ls[i], n);
        }
    }
    assert forall|i: int| 0 <= i < parts.len() - 1 implies trimmed_start(#[trigger] parts[i]).len()
        == 0 || parts[i].last() != '\r' by {
        if trimmed_start(ls[i]).len() > 0 {
            assert(ls[i].len() > 0) by {
                lemma_trimmed_start_suffix(ls[i]);
            }
            assert(parts[i].last() == ls[i].last());
        }
    }
    if parts.len() > 1 {
        assert(parts.last() == blanks(n) + ls.last());
    }
    lemma_strip_joined(parts);
    assert(parts.map_values(strip) == ls.map_values(strip));
}

/// The text of a key that stands indented between two tags, each on a line of
/// its own, is read as the key itself, without its indentation, and so is what
/// is said of it with any certificate. Left out are
/// texts that lose a character when white space around them is dropped (a
/// blank first line of more than one, white space at the end of the last
/// line), and those that lose one when their lines are written and read again.
pub proof fn law_written_key_reads_back(pem: Seq<char>, n: nat, m: nat)
    requires
        ({
            let ls = lines_of(pem);
            ||| ls.len() == 0
            ||| ls.len() == 1 && trimmed_start(ls[0]).len() == 0
            ||| {
                &&& trimmed_start(ls[0]).len() > 0
                &&& ls.last().len() > 0
                &&& !is_white_space(ls.last().last())
                &&& forall|i: int|
                    0 <= i < ls.len() - 1 ==> trimmed_start(#[trigger] ls[i]).len() == 0
                        || ls[i].last() != '\r'
            }
        }),
    ensures
        unindented(trimmed(element_text(pem, n, m))) == unindented(pem),
        forall|leaf_spki: Seq<u8>| #[trigger]
            private_key_verdict(trimmed(element_text(pem, n, m)), leaf_spki)
                == private_key_verdict(pem, leaf_spki),
{
    let ls = lines_of(pem);
    if ls.len() > 0 && trimmed_start(ls[0]).len() > 0 {
        lemma_trimmed_written(pem, n, m);
        lemma_strip_written(pem, n);
    } else {
        let strip = |l: Seq<char>| trimmed_start(l);
        let feed = seq!['\n'];
        let padded = ls.map_values(|l: Seq<char>| blanks(n) + l);
        let written = element_text(pem, n, m);
        let none = Seq::<char>::empty();
        if ls.len() == 1 {
            lemma_trimmed_start_suffix(ls[0]);
            assert(joined(padded, feed) == blanks(n) + ls[0]);
            assert(trimmed_start(ls[0]) == none);
            assert(ls.map_values(strip)[0] == none);
            assert(joined(ls.map_values(strip), feed) == none);
        }
        assert(forall|i: int| 0 <= i < written.len() ==> is_white_space(written[i]));
        lemma_trimmed_start_skip(written, written.len() as int);
        assert(written.skip(written.len() as int) == none);
        assert(trimmed(written) == none);
        assert(lines_of(none).map_values(strip) == Seq::<Seq<char>>::empty());
        assert(unindented(none) == none);
        assert(unindented(pem) == none);
    }
}

proof fn lemma_before_close_of_plain(plain: Seq<Seq<char>>, rest: Seq<Seq<char>>)
    requires
        forall|i: int| 0 <= i < plain.len() ==> !closes_body(#[trigger] plain[i]),
    ensures
        before_close(plain + rest) == plain + before_close(rest),
    decreases plain.len(),
{
    if plain.len() == 0 {
        assert(plain + rest == rest);
        assert(plain + before_close(rest) == before_close(rest));
    } else {
        assert(!closes_body(plain[0]));
        assert((plain + rest).drop_first() == plain.drop_first() + rest);
        lemma_before_close_of_plain(plain.drop_first(), rest);
        assert(plain + before_close(rest) == seq![plain[0]] + (plain.drop_first() + before_close(
            rest,
        )));
    }
}

proof fn lemma_after_open_of_plain(plain: Seq<Seq<char>>, rest: Seq<Seq<char>>)
    requires
        forall|i: int| 0 <= i < plain.len() ==> !opens_body(#[trigger] plain[i]),
    ensures
        after_open(plain + rest) == after_open(rest),
    decreases plain.len(),
{
    if plain.len() == 0 {
        assert(plain + rest == rest);
    } else {
        assert(!opens_body(plain[0]));
        assert((plain + rest).drop_first() == plain.drop_first() + rest);
        lemma_after_open_of_plain(plain.drop_first(), rest);
    }
}

/// Decoding gives back the bytes that were put in armor: whatever stands
/// before and after the block, however the base64 text is cut into lines, and
/// whatever white space is around them.
pub proof fn law_armored_bytes_come_back(
    before: Seq<Seq<char>>,
    header: Seq<char>,
    body: Seq<Seq<char>>,
    footer: Seq<char>,
    after: Seq<Seq<char>>,
    bytes: Seq<u8>,
)
    requires
        ({
            let parts = before + seq![header] + body + seq![footer] + after;
            forall|i: int, j: int|
                0 <= i < parts.len() && 0 <= j < parts[i].len() ==> #[trigger] parts[i][j] != '\n'
        }),
        forall|i: int|
            0 <= i < before.len() ==> !opens_body(#[trigger] before[i]) && !closes_body(before[i]),
        forall|i: int|
            0 <= i < body.len() ==> !opens_body(#[trigger] body[i]) && !closes_body(body[i]),
        opens_body(header),
        closes_body(footer),
        encode_utf8(body_text(body)) == base64_text(bytes),
        base64_text(bytes).len() <= MAX_PEM_BODY_BYTES,
    ensures
        pem_decoded(
            joined(before + seq![header] + body + seq![footer] + after, seq!['\n']),
        ) == Ok::<Seq<u8>, PemError>(bytes),
{
    let parts = before + seq![header] + body + seq![footer] + after;
    law_armor_survives_joining(parts);
    let tail = seq![footer] + after;
    let plain = before + seq![header] + body;
    assert(parts == plain + tail);
    assert(!closes_body(header)) by {
        reveal_strlit("-----BEGIN");
        reveal_strlit("-----END");
        assert(trimmed(header)[5] == PEM_BEGIN@[5]);
        if closes_body(header) {
            assert(trimmed(header)[5] == PEM_END@[5]);
        }
    }
    assert forall|i: int| 0 <= i < plain.len() implies !closes_body(#[trigger] plain[i]) by {
        if i < before.len() {
            assert(plain[i] == before[i]);
        } else if i == before.len() {
            assert(plain[i] == header);
        } else {
            assert(plain[i] == body[i - before.len() - 1]);
        }
    }
    lemma_before_close_of_plain(plain, tail);
    assert(tail[0] == footer);
    assert(before_close(tail) == Seq::<Seq<char>>::empty());
    assert(before_close(parts) == plain);
    let block = seq![header] + body;
    assert(plain == before + block);
    lemma_after_open_of_plain(before, block);
    assert(block[0] == header);
    assert(block.drop_first() == body);
    assert(after_open(plain) == Some(body));
    lemma_base64_round_trip(bytes);
}

proof fn lemma_trimmed_push(s: Seq<char>, c: char)
    requires
        is_white_space(c),
    ensures
        trimmed(s.push(c)) == trimmed(s),
{
    lemma_trimmed_start_push(s, c);
    if trimmed_start(s.push(c)) == trimmed_start(s).push(c) {
        assert(trimmed_start(s).push(c).drop_last() == trimmed_start(s));
    } else {
        assert(trimmed_start(s.push(c)) == trimmed_start(s));
    }
}

/// A blank line at the start of a PEM text does not change the text in its armor.
pub proof fn law_armor_ignores_first_blank(ls: Seq<Seq<char>>, blank: Seq<char>)
    requires
        trimmed(blank).len() == 0,
    ensures
        armored_text(seq![blank] + ls) == armored_text(ls),
{
    let all = seq![blank] + ls;
    lemma_blank_marks_nothing(blank);
    assert(all[0] == blank);
    assert(all.drop_first() == ls);
    let inner = seq![blank] + before_close(ls);
    assert(before_close(all) == inner);
    assert(inner[0] == blank);
    assert(inner.drop_first() == before_close(ls));
}

proof fn lemma_armor_after_first(s: Seq<char>)
    requires
        s.len() > 0,
        is_white_space(s[0]),
    ensures
        armored_text(lines_of(s)) == armored_text(lines_of(s.drop_first())),
{
    let rest = s.drop_first();
    let e = line_end(s);
    lemma_line_end(s);
    lemma_line_end(rest);
    let ls = lines_of(s);
    if s[0] == '\n' {
        assert(s.take(0) == Seq::<char>::empty());
        assert(s.skip(1) == rest);
        assert(ls == seq![Seq::<char>::empty()] + lines_of(rest));
        law_armor_ignores_first_blank(lines_of(rest), Seq::<char>::empty());
    } else if rest.len() == 0 {
        assert(ls == seq![s]);
        assert(ls == seq![s] + lines_of(rest));
        lemma_trimmed_after_padding(s, rest);
        assert(s + rest == s);
        law_armor_ignores_first_blank(lines_of(rest), s);
    } else {
        let pad = seq![s[0]];
        if e >= s.len() {
            assert(line_end(rest) >= rest.len());
            lemma_trimmed_after_padding(pad, rest);
            assert(pad + rest == s);
            assert(same_trimmed(ls, lines_of(rest)));
        } else {
            let line = s.take(e);
            let shorter = rest.take(e - 1);
            assert(line_end(rest) == e - 1);
            assert(pad + shorter == line);
            lemma_trimmed_after_padding(pad, shorter);
            lemma_trimmed_without_return(line);
            lemma_trimmed_without_return(shorter);
            assert(s.skip(e + 1) == rest.skip(e));
            let tail = lines_of(s.skip(e + 1));
            assert(ls == seq![without_return(line)] + tail);
            assert(lines_of(rest) == seq![without_return(shorter)] + tail);
            assert(same_trimmed(ls, lines_of(rest)));
        }
        law_armor_ignores_white_space(ls, lines_of(rest));
    }
}

proof fn lemma_lines_push(t: Seq<char>, c: char)
    requires
        is_white_space(c),
    ensures
        ({
            let ls = lines_of(t.push(c));
            ||| same_trimmed(ls, lines_of(t))
            ||| ls.len() == lines_of(t).len() + 1 && same_trimmed(ls.drop_last(), lines_of(t))
                && trimmed(ls.last()).len() == 0
        }),
    decreases t.len(),
{
    let s = t.push(c);
    let ls = lines_of(s);
    let e = line_end(t);
    lemma_line_end(t);
    lemma_line_end(s);
    if t.len() == 0 {
        if c == '\n' {
            assert(s.take(0) == Seq::<char>::empty());
            assert(s.skip(1) == t);
            assert(ls == seq![s.take(0)] + lines_of(t));
        } else {
            lemma_line_end_at(s, 1);
            assert(ls == seq![s]);
            lemma_trimmed_push(t, c);
        }
        assert(ls.drop_last() == lines_of(t));
    } else if e < t.len() {
        lemma_line_end_at(s, e);
        let rest = t.skip(e + 1);
        assert(s.skip(e + 1) == rest.push(c));
        assert(s.take(e) == t.take(e));
        lemma_lines_push(rest, c);
        let head = seq![without_return(t.take(e))];
        let more = lines_of(rest.push(c));
        assert(ls == head + more);
        assert(lines_of(t) == head + lines_of(rest));
        if same_trimmed(more, lines_of(rest)) {
            assert(same_trimmed(ls, lines_of(t)));
        } else {
            assert(ls.drop_last() == head + more.drop_last());
            assert(same_trimmed(ls.drop_last(), lines_of(t)));
            assert(ls.last() == more.last());
        }
    } else {
        assert(lines_of(t) == seq![t]);
        if c == '\n' {
            lemma_line_end_at(s, t.len() as int);
            assert(s.take(t.len() as int) == t);
            let rest = s.skip(t.len() as int + 1);
            assert(rest.len() == 0);
            assert(ls == seq![without_return(t)] + lines_of(rest));
            lemma_trimmed_without_return(t);
        } else {
            lemma_line_end_at(s, s.len() as int);
            assert(ls == seq![s]);
            lemma_trimmed_push(t, c);
        }
        assert(same_trimmed(ls, lines_of(t)));
    }
}

proof fn lemma_armor_before_last(t: Seq<char>, c: char)
    requires
        is_white_space(c),
    ensures
        armored_text(lines_of(t.push(c))) == armored_text(lines_of(t)),
{
    let ls = lines_of(t.push(c));
    lemma_lines_push(t, c);
    if same_trimmed(ls, lines_of(t)) {
        law_armor_ignores_white_space(ls, lines_of(t));
    } else {
        law_armor_ignores_white_space(ls.drop_last(), lines_of(t));
        law_armor_ignores_last_blank(ls.drop_last(), ls.last());
        assert(ls == ls.drop_last().push(ls.last()));
    }
}

proof fn lemma_armor_of_trimmed_end(s: Seq<char>)
    ensures
        armored_text(lines_of(trimmed_end(s))) == armored_text(lines_of(s)),
    decreases s.len(),
{
    if s.len() > 0 && is_white_space(s.last()) {
        assert(s == s.drop_last().push(s.last()));
        lemma_armor_before_last(s.drop_last(), s.last());
        lemma_armor_of_trimmed_end(s.drop_last());
    }
}

proof fn lemma_armor_of_trimmed_start(s: Seq<char>)
    ensures
        armored_text(lines_of(trimmed_start(s))) == armored_text(lines_of(s)),
    decreases s.len(),
{
    if s.len() > 0 && is_white_space(s[0]) {
        lemma_armor_after_first(s);
        lemma_armor_of_trimmed_start(s.drop_first());
    }
}

/// White space around a PEM text does not change what it decodes to.
pub proof fn law_pem_ignores_outer_white_space(text: Seq<char>)
    ensures
        pem_decoded(trimmed(text)) == pem_decoded(text),
{
    lemma_armor_of_trimmed_start(text);
    lemma_armor_of_trimmed_end(trimmed_start(text));
}

/// A certificate that stands indented between two tags, each on a line of its
/// own, decodes to what the certificate itself decodes to.
pub proof fn law_written_certificate_reads_back(cert: Seq<char>, n: nat, m: nat)
    ensures
        pem_decoded(trimmed(element_text(cert, n, m))) == pem_decoded(cert),
{
    law_pem_ignores_outer_white_space(element_text(cert, n, m));
    lemma_armor_inside(indented(cert, n), m);
    law_indented_pem_decodes_alike(cert, n);
}

proof fn lemma_armor_inside(text: Seq<char>, m: nat)
    ensures
        armored_text(lines_of(seq!['\n'] + text + seq!['\n'] + blanks(m))) == armored_text(
            lines_of(text),
        ),
    decreases m,
{
    let front = seq!['\n'] + text;
    let written = front + seq!['\n'] + blanks(m);
    if m == 0 {
        assert(written == front.push('\n'));
        lemma_armor_before_last(front, '\n');
        assert(front.drop_first() == text);
        lemma_armor_after_first(front);
    } else {
        let shorter = front + seq!['\n'] + blanks((m - 1) as nat);
        assert(written == shorter.push(' '));
        lemma_armor_before_last(shorter, ' ');
        lemma_armor_inside(text, (m - 1) as nat);
    }
}

proof fn lemma_joined_first(part: Seq<char>, parts: Seq<Seq<char>>)
    ensures
        joined(seq![part] + parts, Seq::<char>::empty()) == part + joined(
            parts,
            Seq::<char>::empty(),
        ),
{
    let none = Seq::<char>::empty();
    let all = seq![part] + parts;
    if parts.len() == 0 {
        assert(all == seq![part]);
        assert(joined(all, none) == part);
        assert(part + joined(parts, none) == part);
    } else {
        lemma_joined_front(all, none);
        assert(all.drop_first() == parts);
        assert(part + none == part);
    }
}

proof fn lemma_body_text_is_joined(ls: Seq<Seq<char>>)
    ensures
        body_text(ls) == joined(
            ls.filter(|l: Seq<char>| !opens_body(l)).map_values(|l: Seq<char>| trimmed(l)),
            Seq::<char>::empty(),
        ),
    decreases ls.len(),
{
    let plain = |l: Seq<char>| !opens_body(l);
    let trim = |l: Seq<char>| trimmed(l);
    reveal(Seq::filter);
    if ls.len() == 0 {
        assert(ls.filter(plain).map_values(trim) == Seq::<Seq<char>>::empty());
    } else {
        let first = seq![ls[0]];
        let rest = ls.drop_first();
        assert(ls == first + rest);
        Seq::filter_distributes_over_add(first, rest, plain);
        assert(first.drop_last() == Seq::<Seq<char>>::empty());
        assert(first.drop_last().filter(plain) == Seq::<Seq<char>>::empty());
        lemma_body_text_is_joined(rest);
        if opens_body(ls[0]) {
            assert(first.filter(plain) == Seq::<Seq<char>>::empty());
            assert(ls.filter(plain) == rest.filter(plain));
        } else {
            assert(first.filter(plain) == first);
            assert(ls.filter(plain).map_values(trim) == seq![trimmed(ls[0])] + rest.filter(
                plain,
            ).map_values(trim));
            lemma_joined_first(trimmed(ls[0]), rest.filter(plain).map_values(trim));
        }
    }
}

/// Whether a line is one that `mark` begins, but for white space before it.
pub open spec fn is_marked(line: Seq<char>, mark: Seq<char>) -> bool {
    mark.is_prefix_of(trimmed(line))
}

/// The body of a PEM text is what stands between the first line that begins
/// with `-----BEGIN`, here the line `o`, and the first that begins with
/// `-----END`, here the line `c` if there is one: the trimmed lines there, one
/// after the other, without those that open again. It may hold up to 65536
/// bytes, and the text decodes to the bytes whose base64 text the body is, if
/// there are any.
pub proof fn law_pem_body_is_between_its_marks(text: Seq<char>, o: int, c: int)
    requires
        0 <= o < c <= lines_of(text).len(),
        is_marked(lines_of(text)[o], "-----BEGIN"@),
        forall|i: int| 0 <= i < o ==> !is_marked(#[trigger] lines_of(text)[i], "-----BEGIN"@),
        forall|i: int| 0 <= i < c ==> !is_marked(#[trigger] lines_of(text)[i], "-----END"@),
        c < lines_of(text).len() ==> is_marked(lines_of(text)[c], "-----END"@),
    ensures
        ({
            let inside = lines_of(text).subrange(o + 1, c).filter(
                |l: Seq<char>| !is_marked(l, "-----BEGIN"@),
            );
            let body = encode_utf8(
                joined(inside.map_values(|l: Seq<char>| trimmed(l)), Seq::<char>::empty()),
            );
            &&& body.len() > 65536 ==> pem_decoded(text) == Err::<Seq<u8>, PemError>(
                PemError::BodyTooLarge,
            )
            &&& body.len() <= 65536 ==> forall|bytes: Seq<u8>| #[trigger]
                base64_text(bytes) == body <==> pem_decoded(text) == Ok::<Seq<u8>, PemError>(bytes)
            &&& body.len() <= 65536 && pem_decoded(text) is Err ==> pem_decoded(text) == Err::<
                Seq<u8>,
                PemError,
            >(PemError::Base64)
        }),
{
    let ls = lines_of(text);
    let front = ls.take(c);
    let before = ls.take(o);
    let inner = ls.subrange(o + 1, c);
    assert(ls == front + ls.skip(c));
    assert forall|i: int| 0 <= i < front.len() implies !closes_body(#[trigger] front[i]) by {
        assert(!is_marked(ls[i], "-----END"@));
    }
    lemma_before_close_of_plain(front, ls.skip(c));
    if c < ls.len() {
        assert(ls.skip(c)[0] == ls[c]);
        assert(closes_body(ls[c]));
    }
    assert(before_close(ls) == front);
    assert(front == before + front.skip(o));
    assert forall|i: int| 0 <= i < before.len() implies !opens_body(#[trigger] before[i]) by {
        assert(!is_marked(ls[i], "-----BEGIN"@));
    }
    lemma_after_open_of_plain(before, front.skip(o));
    assert(front.skip(o)[0] == ls[o]);
    assert(opens_body(ls[o]));
    assert(front.skip(o).drop_first() == inner);
    lemma_body_text_is_joined(inner);
    let plain = |l: Seq<char>| !opens_body(l);
    let unmarked = |l: Seq<char>| !is_marked(l, "-----BEGIN"@);
    assert(plain =~= unmarked);
    let body = encode_utf8(body_text(inner));
    assert forall|bytes: Seq<u8>| #[trigger] base64_text(bytes) == body implies base64_decoded(body)
        == Some(bytes) by {
        lemma_base64_round_trip(bytes);
    }
}

/// A PEM text has no header exactly if every line that begins with
/// `-----BEGIN` comes after one that begins with `-----END`.
pub proof fn law_pem_without_header(text: Seq<char>)
    ensures
        pem_decoded(text) == Err::<Seq<u8>, PemError>(PemError::NoHeader) <==> forall|i: int|
            0 <= i < lines_of(text).len() && is_marked(#[trigger] lines_of(text)[i], "-----BEGIN"@)
                ==> exists|j: int|
                0 <= j < i && is_marked(#[trigger] lines_of(text)[j], "-----END"@),
{
    let ls = lines_of(text);
    lemma_header_before_close(ls);
    if forall|i: int|
        0 <= i < ls.len() && is_marked(#[trigger] ls[i], "-----BEGIN"@) ==> exists|j: int|
            0 <= j < i && is_marked(#[trigger] ls[j], "-----END"@) {
        assert forall|i: int| 0 <= i < ls.len() && opens_body(#[trigger] ls[i]) implies exists|j: int|
            0 <= j < i && closes_body(#[trigger] ls[j]) by {
            assert(is_marked(ls[i], "-----BEGIN"@));
            let j = choose|j: int| 0 <= j < i && is_marked(#[trigger] ls[j], "-----END"@);
            assert(closes_body(ls[j]));
        }
    } else {
        let i = choose|i: int|
            0 <= i < ls.len() && is_marked(#[trigger] ls[i], "-----BEGIN"@) && !exists|j: int|
                0 <= j < i && is_marked(#[trigger] ls[j], "-----END"@);
        assert(opens_body(ls[i]));
        assert forall|j: int| 0 <= j < i implies !closes_body(#[trigger] ls[j]) by {
            assert(!is_marked(ls[j], "-----END"@));
        }
    }
}

proof fn lemma_header_before_close(ls: Seq<Seq<char>>)
    ensures
        after_open(before_close(ls)) is None <==> forall|i: int|
            0 <= i < ls.len() && opens_body(#[trigger] ls[i]) ==> exists|j: int|
                0 <= j < i && closes_body(#[trigger] ls[j]),
    decreases ls.len(),
{
    if ls.len() > 0 {
        let rest = ls.drop_first();
        lemma_header_before_close(rest);
        if closes_body(ls[0]) {
            lemma_marks_differ(ls[0]);
        } else if opens_body(ls[0]) {
            assert(before_close(ls)[0] == ls[0]);
        } else {
            let more = before_close(rest);
            assert(before_close(ls) == seq![ls[0]] + more);
            assert((seq![ls[0]] + more).drop_first() == more);
            assert((seq![ls[0]] + more)[0] == ls[0]);
            if after_open(more) is None {
                assert forall|i: int| 0 <= i < ls.len() && opens_body(#[trigger] ls[i]) implies exists|
                    j: int,
                | 0 <= j < i && closes_body(#[trigger] ls[j]) by {
                    assert(opens_body(rest[i - 1]));
                    let j = choose|j: int| 0 <= j < i - 1 && closes_body(#[trigger] rest[j]);
                    assert(closes_body(ls[j + 1]));
                }
            } else {
                let i = choose|i: int|
                    0 <= i < rest.len() && opens_body(#[trigger] rest[i]) && !exists|j: int|
                        0 <= j < i && closes_body(#[trigger] rest[j]);
                assert(opens_body(ls[i + 1]));
                assert forall|j: int| 0 <= j < i + 1 implies !closes_body(#[trigger] ls[j]) by {
                    if j > 0 {
                        assert(!closes_body(rest[j - 1]));
                    }
                }
            }
        }
    }
}

proof fn lemma_marks_differ(line: Seq<char>)
    ensures
        !(opens_body(line) && closes_body(line)),
{
    reveal_strlit("-----BEGIN");
    reveal_strlit("-----END");
    if opens_body(line) && closes_body(line) {
        assert(trimmed(line)[5] == PEM_BEGIN@[5]);
        assert(trimmed(line)[5] == PEM_END@[5]);
    }
}

/// The bytes of a chain are the bytes of each of its texts, in their order.
pub proof fn law_pem_chain_is_its_texts(pems: Seq<Seq<char>>, ders: Seq<Seq<u8>>)
    ensures
        pem_chain_decoded(pems) == Ok::<Seq<Seq<u8>>, PemChainError>(ders) <==> ders.len()
            == pems.len() && forall|i: int|
            0 <= i < pems.len() ==> pem_decoded(#[trigger] pems[i]) == Ok::<Seq<u8>, PemError>(
                ders[i],
            ),
    decreases pems.len(),
{
    if pems.len() == 0 {
        if ders.len() == 0 {
            assert(ders == Seq::<Seq<u8>>::empty());
        }
    } else {
        let front = pems.drop_last();
        let n = front.len() as int;
        if pem_chain_decoded(pems) == Ok::<Seq<Seq<u8>>, PemChainError>(ders) {
            let before = pem_chain_decoded(front)->Ok_0;
            law_pem_chain_is_its_texts(front, before);
            assert forall|i: int| 0 <= i < pems.len() implies pem_decoded(#[trigger] pems[i])
                == Ok::<Seq<u8>, PemError>(ders[i]) by {
                if i < n {
                    assert(pem_decoded(front[i]) == Ok::<Seq<u8>, PemError>(before[i]));
                }
            }
        }
        if ders.len() == pems.len() && forall|i: int|
            0 <= i < pems.len() ==> pem_decoded(#[trigger] pems[i]) == Ok::<Seq<u8>, PemError>(
                ders[i],
            ) {
            let before = ders.drop_last();
            assert forall|i: int| 0 <= i < front.len() implies pem_decoded(#[trigger] front[i])
                == Ok::<Seq<u8>, PemError>(before[i]) by {
                assert(pem_decoded(pems[i]) == Ok::<Seq<u8>, PemError>(ders[i]));
            }
            law_pem_chain_is_its_texts(front, before);
            assert(pem_decoded(pems[n]) == Ok::<Seq<u8>, PemError>(ders[n]));
            assert(before.push(ders[n]) == ders);
        }
    }
}

/// Where a text of a chain holds no bytes, the error names the first such text,
/// counted from 1, and what is wrong with it.
pub proof fn law_first_bad_text_is_named(pems: Seq<Seq<char>>)
    requires
        pems.len() <= usize::MAX,
    ensures
        pem_chain_decoded(pems) matches Err(e) ==> {
            &&& 1 <= e.position <= pems.len()
            &&& pem_decoded(pems[e.position - 1]) == Err::<Seq<u8>, PemError>(e.cause)
            &&& forall|i: int| 0 <= i < e.position - 1 ==> pem_decoded(#[trigger] pems[i]) is Ok
        },
    decreases pems.len(),
{
    if pems.len() > 0 {
        let front = pems.drop_last();
        let n = front.len() as int;
        law_first_bad_text_is_named(front);
        match pem_chain_decoded(front) {
            Err(e) => {
                assert(front[e.position - 1] == pems[e.position - 1]);
                assert forall|i: int| 0 <= i < e.position - 1 implies pem_decoded(
                    #[trigger] pems[i],
                ) is Ok by {
                    assert(pem_decoded(front[i]) is Ok);
                }
            },
            Ok(before) => {
                law_pem_chain_is_its_texts(front, before);
                assert forall|i: int| 0 <= i < n implies pem_decoded(#[trigger] pems[i]) is Ok by {
                    assert(pem_decoded(front[i]) is Ok);
                }
            },
        }
    }
}

/// Stripping takes the white space off the start of each line and changes
/// nothing else. Left out are texts that lose a character when their lines are
/// written and read again.
pub proof fn law_stripping_strips_each_line(parts: Seq<Seq<char>>)
    requires
        forall|i: int, j: int|
            0 <= i < parts.len() && 0 <= j < parts[i].len() ==> #[trigger] parts[i][j] != '\n',
        forall|i: int|
            0 <= i < parts.len() - 1 ==> trimmed_start(#[trigger] parts[i]).len() == 0
                || parts[i].last() != '\r',
        parts.len() <= 1 || parts.last().len() > 0,
    ensures
        unindented(joined(parts, seq!['\n'])) == joined(
            parts.map_values(|l: Seq<char>| trimmed_start(l)),
            seq!['\n'],
        ),
{
    lemma_strip_joined(parts);
}

/// Indenting and stripping work line by line: each line of the text is one
/// below the other in the result, with the spaces before it or without the white
/// space at its start.
pub proof fn law_indent_is_changed_line_by_line(text: Seq<char>, n: nat)
    ensures
        unindented(text) == joined(
            lines_of(text).map_values(|l: Seq<char>| trimmed_start(l)),
            seq!['\n'],
        ),
        indented(text, n) == joined(
            lines_of(text).map_values(|l: Seq<char>| blanks(n) + l),
            seq!['\n'],
        ),
{
}

/// Whether `digit` is the digit of base64 for the six bits `bits`.
pub open spec fn is_base64_digit(digit: u8, bits: int) -> bool {
    ||| 0 <= bits < 26 && digit == 'A' as int + bits
    ||| 26 <= bits < 52 && digit == 'a' as int + bits - 26
    ||| 52 <= bits < 62 && digit == '0' as int + bits - 52
    ||| bits == 62 && digit == '+' as int
    ||| bits == 63 && digit == '/' as int
}

/// Three bytes are written by four digits of six bits each; one or two bytes at
/// the end by two or three digits, filled up with zero bits and the sign `=`.
pub proof fn law_base64_keeps_the_bits(a: u8, b: u8, c: u8, more: Seq<u8>)
    ensures
        ({
            let text = base64_text(seq![a, b, c] + more);
            &&& text.len() >= 4
            &&& text.skip(4) == base64_text(more)
            &&& exists|w: int, x: int, y: int, z: int|
                #![trigger is_base64_digit(text[0], w), is_base64_digit(text[1], x), is_base64_digit(text[2], y), is_base64_digit(text[3], z)]
                is_base64_digit(text[0], w) && is_base64_digit(text[1], x) && is_base64_digit(
                    text[2],
                    y,
                ) && is_base64_digit(text[3], z) && a * 65536 + b * 256 + c == w * 262144 + x
                    * 4096 + y * 64 + z
        }),
        ({
            let text = base64_text(seq![a, b]);
            &&& text.len() == 4
            &&& text[3] == '=' as int
            &&& exists|w: int, x: int, y: int|
                #![trigger is_base64_digit(text[0], w), is_base64_digit(text[1], x), is_base64_digit(text[2], y)]
                is_base64_digit(text[0], w) && is_base64_digit(text[1], x) && is_base64_digit(
                    text[2],
                    y,
                ) && a * 1024 + b * 4 == w * 4096 + x * 64 + y
        }),
        ({
            let text = base64_text(seq![a]);
            &&& text.len() == 4
            &&& text[2] == '=' as int && text[3] == '=' as int
            &&& exists|w: int, x: int|
                #![trigger is_base64_digit(text[0], w), is_base64_digit(text[1], x)]
                is_base64_digit(text[0], w) && is_base64_digit(text[1], x) && a * 16 == w * 64 + x
        }),
        base64_text(Seq::<u8>::empty()).len() == 0,
{
    let (p, q, r) = (a as int, b as int, c as int);
    let all = seq![a, b, c] + more;
    let text = base64_text(all);
    assert(all[0] == a && all[1] == b && all[2] == c);
    assert(all.skip(3) == more);
    assert(text.skip(4) == base64_text(more));
    assert(is_base64_digit(text[0], p / 4));
    assert(is_base64_digit(text[1], p % 4 * 16 + q / 16));
    assert(is_base64_digit(text[2], q % 16 * 4 + r / 64));
    assert(is_base64_digit(text[3], r % 64));
    let two = base64_text(seq![a, b]);
    assert(is_base64_digit(two[0], p / 4));
    assert(is_base64_digit(two[1], p % 4 * 16 + q / 16));
    assert(is_base64_digit(two[2], q % 16 * 4));
    let one = base64_text(seq![a]);
    assert(is_base64_digit(one[0], p / 4));
    assert(is_base64_digit(one[1], p % 4 * 16));
}

} // verus!
