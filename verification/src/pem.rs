//! PEM armor and the base64 text inside it.

use crate::text::{
    decimal, decimal_of, join, joined, lines, lines_of, starts_with, trim, trim_start, trimmed,
    trimmed_start, views,
};
use base64::Engine;
use vstd::prelude::*;
use vstd::utf8::encode_utf8;

verus! {

/// The most bytes of base64 text that one PEM body may hold.
pub const MAX_PEM_BODY_BYTES: usize = 65_536;

/// What a line starts with that opens a PEM body.
pub const PEM_BEGIN: &'static str = "-----BEGIN";

/// What a line starts with that closes a PEM body.
pub const PEM_END: &'static str = "-----END";

/// Why a PEM text has no decoded body.
#[derive(Debug, Clone, Copy, PartialEq, Eq, Structural)]
pub enum PemError {
    /// No line opens a body.
    NoHeader,
    /// The body holds more than `MAX_PEM_BODY_BYTES` bytes.
    BodyTooLarge,
    /// The body is not base64.
    Base64,
}

/// The first PEM text of a chain that could not be decoded.
#[derive(Debug, Clone, Copy, PartialEq, Eq, Structural)]
pub struct PemChainError {
    /// The place of the text in the chain, counted from 1.
    pub position: usize,
    /// What is wrong with it.
    pub cause: PemError,
}

/// The character of the base64 alphabet that stands for six bits.
pub open spec fn base64_char(bits: int) -> u8 {
    if bits < 26 {
        (0x41 + bits) as u8
    } else if bits < 52 {
        (0x61 + bits - 26) as u8
    } else if bits < 62 {
        (0x30 + bits - 52) as u8
    } else if bits == 62 {
        0x2b
    } else {
        0x2f
    }
}

/// The base64 text of a byte sequence, padded with `=` to whole groups of four.
pub open spec fn base64_text(v: Seq<u8>) -> Seq<u8>
    decreases v.len(),
{
    let a = v[0] as int;
    let b = v[1] as int;
    let c = v[2] as int;
    if v.len() == 0 {
        seq![]
    } else if v.len() == 1 {
        seq![base64_char(a / 4), base64_char(a % 4 * 16), 0x3d, 0x3d]
    } else if v.len() == 2 {
        seq![
            base64_char(a / 4),
            base64_char(a % 4 * 16 + b / 16),
            base64_char(b % 16 * 4),
            0x3d,
        ]
    } else {
        seq![
            base64_char(a / 4),
            base64_char(a % 4 * 16 + b / 16),
            base64_char(b % 16 * 4 + c / 64),
            base64_char(c % 64),
        ] + base64_text(v.skip(3))
    }
}

/// The bytes whose base64 text is `text`, if there are any.
pub open spec fn base64_decoded(text: Seq<u8>) -> Option<Seq<u8>> {
    if exists|v: Seq<u8>| base64_text(v) == text {
        Some(choose|v: Seq<u8>| base64_text(v) == text)
    } else {
        None
    }
}

/// Whether a line opens a PEM body.
pub open spec fn opens_body(line: Seq<char>) -> bool {
    PEM_BEGIN@.is_prefix_of(trimmed(line))
}

/// Whether a line closes a PEM body.
pub open spec fn closes_body(line: Seq<char>) -> bool {
    PEM_END@.is_prefix_of(trimmed(line))
}

/// The lines before the first one that closes a body; all of them if none does.
pub open spec fn before_close(ls: Seq<Seq<char>>) -> Seq<Seq<char>>
    decreases ls.len(),
{
    if ls.len() == 0 || closes_body(ls[0]) {
        seq![]
    } else {
        seq![ls[0]] + before_close(ls.drop_first())
    }
}

/// The lines after the first one that opens a body, if one does.
pub open spec fn after_open(ls: Seq<Seq<char>>) -> Option<Seq<Seq<char>>>
    decreases ls.len(),
{
    if ls.len() == 0 {
        None
    } else if opens_body(ls[0]) {
        Some(ls.drop_first())
    } else {
        after_open(ls.drop_first())
    }
}

/// The trimmed lines of a body, one after the other, without those that open another.
pub open spec fn body_text(ls: Seq<Seq<char>>) -> Seq<char>
    decreases ls.len(),
{
    if ls.len() == 0 {
        seq![]
    } else if opens_body(ls[0]) {
        body_text(ls.drop_first())
    } else {
        trimmed(ls[0]) + body_text(ls.drop_first())
    }
}

/// The text between the first line of `ls` that opens a body and the first
/// that closes one, if a body is opened there.
pub open spec fn armored_text(ls: Seq<Seq<char>>) -> Option<Seq<char>> {
    match after_open(before_close(ls)) {
        Some(body) => Some(body_text(body)),
        None => None,
    }
}

/// The bytes that a PEM text holds.
pub open spec fn pem_decoded(text: Seq<char>) -> Result<Seq<u8>, PemError> {
    match armored_text(lines_of(text)) {
        None => Err(PemError::NoHeader),
        Some(body) => if encode_utf8(body).len() > MAX_PEM_BODY_BYTES {
            Err(PemError::BodyTooLarge)
        } else {
            match base64_decoded(encode_utf8(body)) {
                Some(bytes) => Ok(bytes),
                None => Err(PemError::Base64),
            }
        },
    }
}

/// The bytes that each PEM text of a chain holds, or the first that holds none.
pub open spec fn pem_chain_decoded(pems: Seq<Seq<char>>) -> Result<Seq<Seq<u8>>, PemChainError>
    decreases pems.len(),
{
    if pems.len() == 0 {
        Ok(seq![])
    } else {
        match pem_chain_decoded(pems.drop_last()) {
            Err(e) => Err(e),
            Ok(before) => match pem_decoded(pems.last()) {
                Ok(der) => Ok(before.push(der)),
                Err(cause) => Err(PemChainError { position: pems.len() as usize, cause }),
            },
        }
    }
}

/// A PEM text whose lines have lost the white space at their start.
pub open spec fn unindented(text: Seq<char>) -> Seq<char> {
    joined(lines_of(text).map_values(|l: Seq<char>| trimmed_start(l)), seq!['\n'])
}

/// The byte sequences of a vector of vectors.
pub open spec fn byte_views(parts: Seq<Vec<u8>>) -> Seq<Seq<u8>> {
    parts.map_values(|v: Vec<u8>| v@)
}

/// Calls `base64::Engine::decode` on the engine `STANDARD`, which takes the
/// text of a byte sequence with its padding in place and every unused bit
/// zero, and nothing else: the result is the byte sequence whose base64 text
/// was given, and an error where no byte sequence has that text.
#[verifier::external_body]
fn base64_decode(text: &[u8]) -> (r: Option<Vec<u8>>)
    ensures
        match r {
            Some(v) => base64_text(v@) == text@,
            None => forall|v: Seq<u8>| base64_text(v) != text@,
        },
{
    base64::engine::general_purpose::STANDARD.decode(text).ok()
}

proof fn lemma_base64_char_injective(x: int, y: int)
    requires
        0 <= x < 64,
        0 <= y < 64,
        base64_char(x) == base64_char(y),
    ensures
        x == y,
{
}

proof fn lemma_base64_char_no_pad(x: int)
    requires
        0 <= x < 64,
    ensures
        base64_char(x) != 0x3d,
{
}

/// Two byte sequences with the same base64 text are the same.
pub proof fn lemma_base64_injective(v: Seq<u8>, w: Seq<u8>)
    requires
        base64_text(v) == base64_text(w),
    ensures
        v == w,
    decreases v.len(),
{
    let s = base64_text(v);
    let t = base64_text(w);
    if v.len() > 0 && w.len() > 0 {
        let (a, b, c) = (v[0] as int, v[1] as int, v[2] as int);
        let (x, y, z) = (w[0] as int, w[1] as int, w[2] as int);
        assert(s[0] == t[0] && s[1] == t[1] && s[2] == t[2] && s[3] == t[3]);
        lemma_base64_char_injective(a / 4, x / 4);
        lemma_base64_char_no_pad(b % 16 * 4);
        lemma_base64_char_no_pad(y % 16 * 4);
        lemma_base64_char_no_pad(b % 16 * 4 + c / 64);
        lemma_base64_char_no_pad(y % 16 * 4 + z / 64);
        lemma_base64_char_no_pad(c % 64);
        lemma_base64_char_no_pad(z % 64);
        if v.len() == 1 {
            assert(w.len() == 1);
            lemma_base64_char_injective(a % 4 * 16, x % 4 * 16);
            assert(a == x);
        } else if v.len() == 2 {
            assert(w.len() == 2);
            lemma_base64_char_injective(a % 4 * 16 + b / 16, x % 4 * 16 + y / 16);
            lemma_base64_char_injective(b % 16 * 4, y % 16 * 4);
            assert(a == x && b == y);
        } else {
            assert(w.len() >= 3);
            lemma_base64_char_injective(a % 4 * 16 + b / 16, x % 4 * 16 + y / 16);
            lemma_base64_char_injective(b % 16 * 4 + c / 64, y % 16 * 4 + z / 64);
            lemma_base64_char_injective(c % 64, z % 64);
            assert(a == x && b == y && c == z);
            assert(s.skip(4) == base64_text(v.skip(3)));
            assert(t.skip(4) == base64_text(w.skip(3)));
            lemma_base64_injective(v.skip(3), w.skip(3));
            assert forall|i: int| 0 <= i < v.len() implies v[i] == w[i] by {
                if i >= 3 {
                    assert(v[i] == v.skip(3)[i - 3]);
                    assert(w[i] == w.skip(3)[i - 3]);
                }
            }
            assert(v.skip(3).len() == w.skip(3).len());
        }
        assert(v == w);
    } else {
        assert(s.len() == 0 <==> v.len() == 0);
        assert(t.len() == 0 <==> w.len() == 0);
        assert(v == w);
    }
}

/// Decoding gives back the bytes that the base64 text was made of.
pub proof fn lemma_base64_round_trip(v: Seq<u8>)
    ensures
        base64_decoded(base64_text(v)) == Some(v),
{
    let text = base64_text(v);
    let w = choose|w: Seq<u8>| base64_text(w) == text;
    lemma_base64_injective(v, w);
}

/// The UTF-8 encoding of two texts in a row is the one after the other.
pub proof fn lemma_encode_concat(a: Seq<char>, b: Seq<char>)
    ensures
        encode_utf8(a + b) == encode_utf8(a) + encode_utf8(b),
    decreases a.len(),
{
    if a.len() == 0 {
        assert(a + b == b);
    } else {
        lemma_encode_concat(a.drop_first(), b);
        assert((a + b).drop_first() == a.drop_first() + b);
    }
}

impl PemError {
    /// What the error says.
    pub open spec fn message_spec(self) -> Seq<char> {
        match self {
            PemError::NoHeader => "no PEM header found"@,
            PemError::BodyTooLarge => "PEM body exceeds "@ + decimal_of(MAX_PEM_BODY_BYTES as nat)
                + " byte cap"@,
            PemError::Base64 => "PEM body base64 decode"@,
        }
    }

    /// The message of the error.
    pub fn message(&self) -> (r: String)
        ensures
            r@ == self.message_spec(),
    {
        match self {
            PemError::NoHeader => "no PEM header found".to_string(),
            PemError::BodyTooLarge => "PEM body exceeds ".to_string().concat(
                decimal(MAX_PEM_BODY_BYTES as u64).as_str(),
            ).concat(" byte cap"),
            PemError::Base64 => "PEM body base64 decode".to_string(),
        }
    }
}

impl PemChainError {
    /// What the error says.
    pub open spec fn message_spec(self) -> Seq<char> {
        "certificate #"@ + decimal_of(self.position as nat) + " PEM decode"@
    }

    /// The message of the error.
    pub fn message(&self) -> (r: String)
        ensures
            r@ == self.message_spec(),
    {
        "certificate #".to_string().concat(decimal(self.position as u64).as_str()).concat(
            " PEM decode",
        )
    }
}

/// Decodes the body of the first PEM block of a text.
pub fn decode_pem_body(pem: &str) -> (r: Result<Vec<u8>, PemError>)
    ensures
        match r {
            Ok(bytes) => pem_decoded(pem@) == Ok::<Seq<u8>, PemError>(bytes@),
            Err(e) => pem_decoded(pem@) == Err::<Seq<u8>, PemError>(e),
        },
{
    let all = lines(pem);
    let ghost ls = views(all@);
    let mut started = false;
    let mut body = String::new();
    let mut i: usize = 0;
    let mut open = true;
    proof {
        assert(ls.skip(0) == ls);
    }
    while open && i < all.len()
        invariant
            i <= all@.len(),
            ls == views(all@),
            ls == lines_of(pem@),
            encode_utf8(body@).len() <= MAX_PEM_BODY_BYTES,
            !started ==> body@.len() == 0,
            ({
                let rest = if open {
                    before_close(ls.skip(i as int))
                } else {
                    seq![]
                };
                if started {
                    &&& after_open(before_close(ls)) is Some
                    &&& body_text(after_open(before_close(ls))->0) == body@ + body_text(rest)
                } else {
                    after_open(before_close(ls)) == after_open(rest)
                }
            }),
        decreases all@.len() - i, open as int,
    {
        let line = trim(all[i].as_str());
        let ghost here = ls.skip(i as int);
        let ghost rest = before_close(here);
        proof {
            assert(here[0] == all@[i as int]@);
            assert(here.drop_first() == ls.skip(i + 1));
            reveal_strlit("-----BEGIN");
            reveal_strlit("-----END");
            if opens_body(here[0]) {
                assert(line@[5] == PEM_BEGIN@[5]);
                if closes_body(here[0]) {
                    assert(line@[5] == PEM_END@[5]);
                }
            }
            if !closes_body(here[0]) {
                assert(rest.drop_first() == before_close(here.drop_first()));
            }
        }
        if starts_with(line.as_str(), PEM_BEGIN) {
            if !started {
                assert(body@ + body_text(rest.drop_first()) == body_text(rest.drop_first()));
            }
            started = true;
            i = i + 1;
        } else if starts_with(line.as_str(), PEM_END) {
            assert(rest == Seq::<Seq<char>>::empty());
            open = false;
        } else {
            if started {
                let have: usize = body.as_str().as_bytes().len();
                let more: usize = line.as_str().as_bytes().len();
                proof {
                    lemma_encode_concat(body@, line@);
                    assert(body@ + body_text(rest) == (body@ + line@) + body_text(
                        rest.drop_first(),
                    ));
                    lemma_encode_concat(body@ + line@, body_text(rest.drop_first()));
                }
                if more > MAX_PEM_BODY_BYTES - have {
                    return Err(PemError::BodyTooLarge);
                }
                body.append(line.as_str());
            }
            i = i + 1;
        }
    }
    if !started {
        return Err(PemError::NoHeader);
    }
    match base64_decode(body.as_str().as_bytes()) {
        Some(bytes) => {
            proof {
                lemma_base64_round_trip(bytes@);
            }
            Ok(bytes)
        },
        None => Err(PemError::Base64),
    }
}

/// A chain that decodes has as many bodies as texts.
pub proof fn lemma_pem_chain_len(pems: Seq<Seq<char>>)
    requires
        pem_chain_decoded(pems) is Ok,
    ensures
        pem_chain_decoded(pems)->Ok_0.len() == pems.len(),
    decreases pems.len(),
{
    if pems.len() > 0 {
        lemma_pem_chain_len(pems.drop_last());
    }
}

proof fn lemma_pem_chain_fails(pems: Seq<Seq<char>>, n: int)
    requires
        0 <= n <= pems.len(),
        pem_chain_decoded(pems.take(n)) is Err,
    ensures
        pem_chain_decoded(pems) == pem_chain_decoded(pems.take(n)),
    decreases pems.len() - n,
{
    if n == pems.len() {
        assert(pems.take(n) == pems);
    } else {
        assert(pems.drop_last().take(n) == pems.take(n));
        lemma_pem_chain_fails(pems.drop_last(), n);
    }
}

/// Decodes every PEM text of a chain, up to the first that cannot be decoded.
pub fn decode_pem_chain(pems: &Vec<String>) -> (r: Result<Vec<Vec<u8>>, PemChainError>)
    ensures
        match r {
            Ok(ders) => pem_chain_decoded(views(pems@)) == Ok::<Seq<Seq<u8>>, PemChainError>(
                byte_views(ders@),
            ),
            Err(e) => pem_chain_decoded(views(pems@)) == Err::<Seq<Seq<u8>>, PemChainError>(e),
        },
{
    let ghost all = views(pems@);
    let mut out: Vec<Vec<u8>> = Vec::new();
    let mut i: usize = 0;
    assert(byte_views(out@) == Seq::<Seq<u8>>::empty());
    while i < pems.len()
        invariant
            i <= pems@.len(),
            all == views(pems@),
            pem_chain_decoded(all.take(i as int)) == Ok::<Seq<Seq<u8>>, PemChainError>(
                byte_views(out@),
            ),
        decreases pems@.len() - i,
    {
        let ghost next = all.take(i + 1);
        proof {
            assert(next.drop_last() == all.take(i as int));
            assert(next.last() == pems@[i as int]@);
        }
        match decode_pem_body(pems[i].as_str()) {
            Ok(der) => {
                let ghost before = out@;
                out.push(der);
                assert(byte_views(out@) == byte_views(before).push(der@));
            },
            Err(cause) => {
                proof {
                    lemma_pem_chain_fails(all, i + 1);
                }
                return Err(PemChainError { position: i + 1, cause });
            },
        }
        i = i + 1;
    }
    assert(all.take(i as int) == all);
    Ok(out)
}

/// Removes the white space at the start of every line of a PEM text.
pub fn strip_pem_indent(pem: &str) -> (r: String)
    ensures
        r@ == unindented(pem@),
{
    let all = lines(pem);
    let ghost wanted = lines_of(pem@).map_values(|l: Seq<char>| trimmed_start(l));
    let mut out: Vec<String> = Vec::new();
    let mut i: usize = 0;
    while i < all.len()
        invariant
            i <= all@.len(),
            views(all@) == lines_of(pem@),
            wanted == lines_of(pem@).map_values(|l: Seq<char>| trimmed_start(l)),
            views(out@) == wanted.take(i as int),
        decreases all@.len() - i,
    {
        let ghost before = out@;
        let line = trim_start(all[i].as_str());
        out.push(line);
        proof {
            assert(views(all@)[i as int] == all@[i as int]@);
            assert(views(out@) == views(before).push(line@));
            assert(wanted.take(i + 1) == wanted.take(i as int).push(wanted[i as int]));
        }
        i = i + 1;
    }
    assert(wanted.take(i as int) == wanted);
    proof {
        reveal_strlit("\n");
        assert("\n"@ == seq!['\n']);
    }
    join(&out, "\n")
}

} // verus!
