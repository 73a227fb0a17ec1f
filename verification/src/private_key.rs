//! Whether a private key belongs to a certificate.

use crate::pem::{strip_pem_indent, unindented};
use crate::text::{same_bytes, views};
use crate::x509::ParsedCert;
use rsa::pkcs1::DecodeRsaPrivateKey;
use rsa::pkcs8::{DecodePrivateKey, EncodePublicKey};
use rsa::{RsaPrivateKey, RsaPublicKey};
use vstd::prelude::*;

verus! {

/// Whether the private key of a keybox belongs to its leaf certificate.
#[derive(Debug, Clone, Copy, PartialEq, Eq, Structural)]
pub enum KeyMatch {
    /// It does.
    Matched,
    /// It does not, or it cannot be read.
    Mismatched,
    /// There is none.
    Skipped,
}

/// What is said of a private key that no decoder reads.
pub const UNPARSEABLE_KEY: &'static str =
    "private key present but unparseable (encrypted PKCS#8, unsupported curve, or corrupt)";

/// A verdict with the errors that were found on the way.
#[verifier::ext_equal]
pub struct MatchView {
    pub verdict: KeyMatch,
    pub errors: Seq<Seq<char>>,
}

/// The subject public key info of an RSA key in PKCS#8 PEM form, or the
/// message of the encoder; nothing where the text is no such key.
pub uninterp spec fn rsa_pkcs8_public(pem: Seq<char>) -> Option<Result<Seq<u8>, Seq<char>>>;

/// The subject public key info of an RSA key in PKCS#1 PEM form, or the
/// message of the encoder; nothing where the text is no such key.
pub uninterp spec fn rsa_pkcs1_public(pem: Seq<char>) -> Option<Result<Seq<u8>, Seq<char>>>;

/// The subject public key info of a P-256 key in PKCS#8 PEM form, or the
/// message of the encoder; nothing where the text is no such key.
pub uninterp spec fn p256_public(pem: Seq<char>) -> Option<Result<Seq<u8>, Seq<char>>>;

/// The subject public key info of a P-384 key in PKCS#8 PEM form, or the
/// message of the encoder; nothing where the text is no such key.
pub uninterp spec fn p384_public(pem: Seq<char>) -> Option<Result<Seq<u8>, Seq<char>>>;

/// The values of what a decoder found.
pub open spec fn public_view(public: Option<Result<Vec<u8>, String>>) -> Option<
    Result<Seq<u8>, Seq<char>>,
> {
    match public {
        None => None,
        Some(Ok(der)) => Some(Ok(der@)),
        Some(Err(e)) => Some(Err(e@)),
    }
}

/// Calls `RsaPrivateKey::from_pkcs8_pem` of `rsa`, takes the public half, and
/// encodes it with `to_public_key_der`.
#[verifier::external_body]
fn rsa_from_pkcs8(pem: &str) -> (r: Option<Result<Vec<u8>, String>>)
    ensures
        public_view(r) == rsa_pkcs8_public(pem@),
{
    match RsaPrivateKey::from_pkcs8_pem(pem) {
        Err(_) => None,
        Ok(key) => match RsaPublicKey::from(&key).to_public_key_der() {
            Ok(der) => Some(Ok(der.as_bytes().to_vec())),
            Err(e) => Some(Err(e.to_string())),
        },
    }
}

/// Calls `RsaPrivateKey::from_pkcs1_pem` of `rsa`, takes the public half, and
/// encodes it with `to_public_key_der`.
#[verifier::external_body]
fn rsa_from_pkcs1(pem: &str) -> (r: Option<Result<Vec<u8>, String>>)
    ensures
        public_view(r) == rsa_pkcs1_public(pem@),
{
    match RsaPrivateKey::from_pkcs1_pem(pem) {
        Err(_) => None,
        Ok(key) => match RsaPublicKey::from(&key).to_public_key_der() {
            Ok(der) => Some(Ok(der.as_bytes().to_vec())),
            Err(e) => Some(Err(e.to_string())),
        },
    }
}

/// Calls `SecretKey::from_pkcs8_pem` of `p256`, takes the public half, and
/// encodes it with `to_public_key_der`.
#[verifier::external_body]
fn p256_from_pkcs8(pem: &str) -> (r: Option<Result<Vec<u8>, String>>)
    ensures
        public_view(r) == p256_public(pem@),
{
    match p256::SecretKey::from_pkcs8_pem(pem) {
        Err(_) => None,
        Ok(key) => match key.public_key().to_public_key_der() {
            Ok(der) => Some(Ok(der.as_bytes().to_vec())),
            Err(e) => Some(Err(e.to_string())),
        },
    }
}

/// Calls `SecretKey::from_pkcs8_pem` of `p384`, takes the public half, and
/// encodes it with `to_public_key_der`.
#[verifier::external_body]
fn p384_from_pkcs8(pem: &str) -> (r: Option<Result<Vec<u8>, String>>)
    ensures
        public_view(r) == p384_public(pem@),
{
    match p384::SecretKey::from_pkcs8_pem(pem) {
        Err(_) => None,
        Ok(key) => match key.public_key().to_public_key_der() {
            Ok(der) => Some(Ok(der.as_bytes().to_vec())),
            Err(e) => Some(Err(e.to_string())),
        },
    }
}

/// Whether two subject public key infos are the same.
pub open spec fn same_key(derived_spki: Seq<u8>, leaf_spki: Seq<u8>) -> KeyMatch {
    if derived_spki == leaf_spki {
        KeyMatch::Matched
    } else {
        KeyMatch::Mismatched
    }
}

/// What is said of a key whose public half is `public`; `family` names the
/// kind of key.
pub open spec fn public_verdict(
    family: Seq<char>,
    public: Option<Result<Seq<u8>, Seq<char>>>,
    leaf_spki: Seq<u8>,
) -> Option<MatchView> {
    match public {
        None => None,
        Some(Ok(der)) => Some(MatchView { verdict: same_key(der, leaf_spki), errors: seq![] }),
        Some(Err(e)) => Some(
            MatchView {
                verdict: KeyMatch::Mismatched,
                errors: seq![family + " public-side DER encode failed: "@ + e],
            },
        ),
    }
}

/// What is said of a key after all decoders were tried.
pub open spec fn settled(found: Option<MatchView>) -> MatchView {
    match found {
        Some(view) => view,
        None => MatchView { verdict: KeyMatch::Mismatched, errors: seq![UNPARSEABLE_KEY@] },
    }
}

/// The public half of an RSA key in either of its two PEM forms.
pub open spec fn rsa_public(pem: Seq<char>) -> Option<Result<Seq<u8>, Seq<char>>> {
    if rsa_pkcs8_public(pem) is Some {
        rsa_pkcs8_public(pem)
    } else {
        rsa_pkcs1_public(pem)
    }
}

/// What is said of a private key: the verdict of the first decoder that reads
/// its text, whose lines lose their indentation first.
pub open spec fn private_key_verdict(private_pem: Seq<char>, leaf_spki: Seq<u8>) -> MatchView {
    let pem = unindented(private_pem);
    settled(
        if rsa_public(pem) is Some {
            public_verdict("RSA"@, rsa_public(pem), leaf_spki)
        } else if p256_public(pem) is Some {
            public_verdict("P-256"@, p256_public(pem), leaf_spki)
        } else {
            public_verdict("P-384"@, p384_public(pem), leaf_spki)
        },
    )
}

/// Says whether two subject public key infos are the same.
pub fn verdict(derived_spki: &[u8], leaf_spki: &[u8]) -> (r: KeyMatch)
    ensures
        r == same_key(derived_spki@, leaf_spki@),
{
    if same_bytes(derived_spki, leaf_spki) {
        KeyMatch::Matched
    } else {
        KeyMatch::Mismatched
    }
}

/// Judges the public half that a decoder found, and adds what went wrong with it.
pub fn judge_public_key(
    family: &str,
    public: Option<Result<Vec<u8>, String>>,
    leaf_spki: &[u8],
    errors: &mut Vec<String>,
) -> (r: Option<KeyMatch>)
    ensures
        match public_verdict(family@, public_view(public), leaf_spki@) {
            None => r is None && final(errors)@ == old(errors)@,
            Some(view) => {
                &&& r == Some(view.verdict)
                &&& views(final(errors)@) == views(old(errors)@) + view.errors
            },
        },
{
    match public {
        None => None,
        Some(Ok(der)) => {
            assert(views(errors@) == views(old(errors)@) + Seq::<Seq<char>>::empty());
            Some(verdict(der.as_slice(), leaf_spki))
        },
        Some(Err(e)) => {
            let message = family.to_string().concat(" public-side DER encode failed: ").concat(
                e.as_str(),
            );
            errors.push(message);
            assert(views(errors@) == views(old(errors)@) + seq![message@]);
            Some(KeyMatch::Mismatched)
        },
    }
}

/// Settles what is said of a key after all decoders were tried.
pub fn settle(found: Option<KeyMatch>, errors: &mut Vec<String>) -> (r: KeyMatch)
    ensures
        match found {
            Some(v) => r == v && final(errors)@ == old(errors)@,
            None => {
                let view = settled(None);
                &&& r == view.verdict
                &&& views(final(errors)@) == views(old(errors)@) + view.errors
            },
        },
{
    match found {
        Some(v) => v,
        None => {
            errors.push(UNPARSEABLE_KEY.to_string());
            assert(views(errors@) == views(old(errors)@) + seq![UNPARSEABLE_KEY@]);
            KeyMatch::Mismatched
        },
    }
}

/// Judges a text as an RSA key.
pub fn try_match_rsa(pem: &str, leaf_spki: &[u8], errors: &mut Vec<String>) -> (r: Option<
    KeyMatch,
>)
    ensures
        match public_verdict("RSA"@, rsa_public(pem@), leaf_spki@) {
            None => r is None && final(errors)@ == old(errors)@,
            Some(view) => {
                &&& r == Some(view.verdict)
                &&& views(final(errors)@) == views(old(errors)@) + view.errors
            },
        },
{
    let mut public = rsa_from_pkcs8(pem);
    if public.is_none() {
        public = rsa_from_pkcs1(pem);
    }
    judge_public_key("RSA", public, leaf_spki, errors)
}

/// Judges a text as a P-256 key.
pub fn try_match_p256(pem: &str, leaf_spki: &[u8], errors: &mut Vec<String>) -> (r: Option<
    KeyMatch,
>)
    ensures
        match public_verdict("P-256"@, p256_public(pem@), leaf_spki@) {
            None => r is None && final(errors)@ == old(errors)@,
            Some(view) => {
                &&& r == Some(view.verdict)
                &&& views(final(errors)@) == views(old(errors)@) + view.errors
            },
        },
{
    judge_public_key("P-256", p256_from_pkcs8(pem), leaf_spki, errors)
}

/// Judges a text as a P-384 key.
pub fn try_match_p384(pem: &str, leaf_spki: &[u8], errors: &mut Vec<String>) -> (r: Option<
    KeyMatch,
>)
    ensures
        match public_verdict("P-384"@, p384_public(pem@), leaf_spki@) {
            None => r is None && final(errors)@ == old(errors)@,
            Some(view) => {
                &&& r == Some(view.verdict)
                &&& views(final(errors)@) == views(old(errors)@) + view.errors
            },
        },
{
    judge_public_key("P-384", p384_from_pkcs8(pem), leaf_spki, errors)
}

/// Says whether a private key belongs to the certificate `leaf`, and adds what
/// went wrong with it.
pub fn match_private_key(private_pem: &str, leaf: &ParsedCert, errors: &mut Vec<String>) -> (r:
    KeyMatch)
    ensures
        ({
            let view = private_key_verdict(private_pem@, leaf@.key.spki);
            &&& r == view.verdict
            &&& views(final(errors)@) == views(old(errors)@) + view.errors
        }),
{
    let leaf_spki = leaf.key.spki.as_slice();
    let cleaned = strip_pem_indent(private_pem);
    if let Some(v) = try_match_rsa(cleaned.as_str(), leaf_spki, errors) {
        return v;
    }
    if let Some(v) = try_match_p256(cleaned.as_str(), leaf_spki, errors) {
        return v;
    }
    let last = try_match_p384(cleaned.as_str(), leaf_spki, errors);
    settle(last, errors)
}

} // verus!
