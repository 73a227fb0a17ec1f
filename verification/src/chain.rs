//! Signatures and the links of a certificate chain.

use crate::text::{decimal, decimal_of, optional_text, same_bytes, same_text};
use crate::x509::{cert_views, CertView, KeyAlgorithm, ParsedCert};
use ring::signature::{self, UnparsedPublicKey, VerificationAlgorithm};
use vstd::prelude::*;

verus! {

pub const OID_RSA_SHA1: &'static str = "1.2.840.113549.1.1.5";

pub const OID_RSA_SHA256: &'static str = "1.2.840.113549.1.1.11";

pub const OID_RSA_SHA384: &'static str = "1.2.840.113549.1.1.12";

pub const OID_RSA_SHA512: &'static str = "1.2.840.113549.1.1.13";

pub const OID_ECDSA_SHA1: &'static str = "1.2.840.10045.4.1";

pub const OID_ECDSA_SHA256: &'static str = "1.2.840.10045.4.3.2";

pub const OID_ECDSA_SHA384: &'static str = "1.2.840.10045.4.3.3";

pub const OID_ECDSA_SHA512: &'static str = "1.2.840.10045.4.3.4";

pub const OID_CURVE_P256: &'static str = "1.2.840.10045.3.1.7";

pub const OID_CURVE_P384: &'static str = "1.3.132.0.34";

/// A signature algorithm with a verifier.
#[derive(Debug, Clone, Copy, PartialEq, Eq, Structural)]
pub enum SignatureScheme {
    RsaSha1,
    RsaSha256,
    RsaSha384,
    RsaSha512,
    EcdsaP256Sha256,
    EcdsaP384Sha384,
}

/// Why a certificate is not signed by another.
#[derive(Debug)]
pub enum LinkError {
    /// The issuer of the one is not the subject of the other.
    NameMismatch { issuer: String, subject: String },
    /// The signature is wrong.
    Rejected { algorithm: String },
    /// ECDSA with SHA-256 on another curve than P-256.
    EcdsaSha256Curve { curve: Option<String> },
    /// ECDSA with SHA-384 on another curve than P-384.
    EcdsaSha384Curve { curve: Option<String> },
    /// ECDSA with SHA-1 has no verifier.
    EcdsaSha1,
    /// ECDSA with SHA-512 has no verifier.
    EcdsaSha512,
    /// The signature algorithm is not known.
    UnsupportedAlgorithm { algorithm: String },
}

/// The first link of a chain that does not hold.
#[derive(Debug)]
pub struct ChainError {
    /// The place of the signed certificate, counted from 0.
    pub hop: usize,
    /// Why the link does not hold.
    pub cause: LinkError,
}

/// The values of a [`LinkError`].
#[verifier::ext_equal]
pub enum LinkErrorView {
    NameMismatch { issuer: Seq<char>, subject: Seq<char> },
    Rejected { algorithm: Seq<char> },
    EcdsaSha256Curve { curve: Option<Seq<char>> },
    EcdsaSha384Curve { curve: Option<Seq<char>> },
    EcdsaSha1,
    EcdsaSha512,
    UnsupportedAlgorithm { algorithm: Seq<char> },
}

/// The values of a [`ChainError`].
#[verifier::ext_equal]
pub struct ChainErrorView {
    pub hop: nat,
    pub cause: LinkErrorView,
}

impl View for LinkError {
    type V = LinkErrorView;

    open spec fn view(&self) -> LinkErrorView {
        match self {
            LinkError::NameMismatch { issuer, subject } => LinkErrorView::NameMismatch {
                issuer: issuer@,
                subject: subject@,
            },
            LinkError::Rejected { algorithm } => LinkErrorView::Rejected { algorithm: algorithm@ },
            LinkError::EcdsaSha256Curve { curve } => LinkErrorView::EcdsaSha256Curve {
                curve: optional_text(*curve),
            },
            LinkError::EcdsaSha384Curve { curve } => LinkErrorView::EcdsaSha384Curve {
                curve: optional_text(*curve),
            },
            LinkError::EcdsaSha1 => LinkErrorView::EcdsaSha1,
            LinkError::EcdsaSha512 => LinkErrorView::EcdsaSha512,
            LinkError::UnsupportedAlgorithm { algorithm } => LinkErrorView::UnsupportedAlgorithm {
                algorithm: algorithm@,
            },
        }
    }
}

impl View for ChainError {
    type V = ChainErrorView;

    open spec fn view(&self) -> ChainErrorView {
        ChainErrorView { hop: self.hop as nat, cause: self.cause@ }
    }
}

impl LinkErrorView {
    /// What the error says.
    pub open spec fn message(self) -> Seq<char> {
        match self {
            LinkErrorView::NameMismatch { issuer, subject } =>
                "issuer/subject DER mismatch: son issuer="@ + issuer + ", father subject="@
                + subject,
            LinkErrorView::Rejected { algorithm } => "signature verification failed under "@
                + algorithm,
            LinkErrorView::EcdsaSha256Curve { curve: Some(oid) } =>
                "ECDSA-SHA256 with unsupported curve OID "@ + oid,
            LinkErrorView::EcdsaSha256Curve { curve: None } => "ECDSA-SHA256 missing curve OID"@,
            LinkErrorView::EcdsaSha384Curve { curve: Some(oid) } =>
                "ECDSA-SHA384 with unsupported curve OID "@ + oid,
            LinkErrorView::EcdsaSha384Curve { curve: None } => "ECDSA-SHA384 missing curve OID"@,
            LinkErrorView::EcdsaSha1 => "ECDSA-SHA1 not supported (ring lacks the verifier)"@,
            LinkErrorView::EcdsaSha512 => "ECDSA-SHA512 not supported (ring lacks the verifier)"@,
            LinkErrorView::UnsupportedAlgorithm { algorithm } =>
                "unsupported signature algorithm OID "@ + algorithm,
        }
    }
}

impl LinkError {
    /// The message of the error.
    pub fn message(&self) -> (r: String)
        ensures
            r@ == self@.message(),
    {
        match self {
            LinkError::NameMismatch { issuer, subject } =>
                "issuer/subject DER mismatch: son issuer=".to_string().concat(
                issuer.as_str(),
            ).concat(", father subject=").concat(subject.as_str()),
            LinkError::Rejected { algorithm } =>
                "signature verification failed under ".to_string().concat(algorithm.as_str()),
            LinkError::EcdsaSha256Curve { curve } => match curve {
                Some(oid) => "ECDSA-SHA256 with unsupported curve OID ".to_string().concat(
                    oid.as_str(),
                ),
                None => "ECDSA-SHA256 missing curve OID".to_string(),
            },
            LinkError::EcdsaSha384Curve { curve } => match curve {
                Some(oid) => "ECDSA-SHA384 with unsupported curve OID ".to_string().concat(
                    oid.as_str(),
                ),
                None => "ECDSA-SHA384 missing curve OID".to_string(),
            },
            LinkError::EcdsaSha1 =>
                "ECDSA-SHA1 not supported (ring lacks the verifier)".to_string(),
            LinkError::EcdsaSha512 =>
                "ECDSA-SHA512 not supported (ring lacks the verifier)".to_string(),
            LinkError::UnsupportedAlgorithm { algorithm } =>
                "unsupported signature algorithm OID ".to_string().concat(algorithm.as_str()),
        }
    }
}

impl ChainErrorView {
    /// What the error says: the two ends of the link.
    pub open spec fn message(self) -> Seq<char> {
        "hop "@ + decimal_of(self.hop) + " -> "@ + decimal_of(self.hop + 1)
    }
}

impl ChainError {
    /// The message of the error: the two ends of the link.
    pub fn message(&self) -> (r: String)
        requires
            self.hop < u64::MAX,
        ensures
            r@ == self@.message(),
    {
        "hop ".to_string().concat(decimal(self.hop as u64).as_str()).concat(" -> ").concat(
            decimal(self.hop as u64 + 1).as_str(),
        )
    }
}

/// The verifier for a signature algorithm, on the curve of the signer's key
/// where the algorithm needs one.
pub open spec fn scheme_for(algorithm: Seq<char>, curve: Option<Seq<char>>) -> Result<
    SignatureScheme,
    LinkErrorView,
> {
    if algorithm == OID_RSA_SHA1@ {
        Ok(SignatureScheme::RsaSha1)
    } else if algorithm == OID_RSA_SHA256@ {
        Ok(SignatureScheme::RsaSha256)
    } else if algorithm == OID_RSA_SHA384@ {
        Ok(SignatureScheme::RsaSha384)
    } else if algorithm == OID_RSA_SHA512@ {
        Ok(SignatureScheme::RsaSha512)
    } else if algorithm == OID_ECDSA_SHA256@ {
        if curve == Some(OID_CURVE_P256@) {
            Ok(SignatureScheme::EcdsaP256Sha256)
        } else {
            Err(LinkErrorView::EcdsaSha256Curve { curve })
        }
    } else if algorithm == OID_ECDSA_SHA384@ {
        if curve == Some(OID_CURVE_P384@) {
            Ok(SignatureScheme::EcdsaP384Sha384)
        } else {
            Err(LinkErrorView::EcdsaSha384Curve { curve })
        }
    } else if algorithm == OID_ECDSA_SHA1@ {
        Err(LinkErrorView::EcdsaSha1)
    } else if algorithm == OID_ECDSA_SHA512@ {
        Err(LinkErrorView::EcdsaSha512)
    } else {
        Err(LinkErrorView::UnsupportedAlgorithm { algorithm })
    }
}

/// Whether `ring` accepts `signature` as one of `message` by the key `key`.
pub uninterp spec fn ring_accepts(
    scheme: SignatureScheme,
    key: Seq<u8>,
    message: Seq<u8>,
    signature: Seq<u8>,
) -> bool;

/// Calls `UnparsedPublicKey::verify` of `ring` with the verification algorithm
/// of the same name as `scheme`. The outcome is what `ring_accepts` names.
#[verifier::external_body]
fn ring_verify(scheme: SignatureScheme, key: &[u8], message: &[u8], sig: &[u8]) -> (r: bool)
    ensures
        r == ring_accepts(scheme, key@, message@, sig@),
{
    let algorithm: &'static dyn VerificationAlgorithm = match scheme {
        SignatureScheme::RsaSha1 => &signature::RSA_PKCS1_2048_8192_SHA1_FOR_LEGACY_USE_ONLY,
        SignatureScheme::RsaSha256 => &signature::RSA_PKCS1_2048_8192_SHA256,
        SignatureScheme::RsaSha384 => &signature::RSA_PKCS1_2048_8192_SHA384,
        SignatureScheme::RsaSha512 => &signature::RSA_PKCS1_2048_8192_SHA512,
        SignatureScheme::EcdsaP256Sha256 => &signature::ECDSA_P256_SHA256_ASN1,
        SignatureScheme::EcdsaP384Sha384 => &signature::ECDSA_P384_SHA384_ASN1,
    };
    UnparsedPublicKey::new(algorithm, key).verify(message, sig).is_ok()
}

/// What checking a signature says.
pub open spec fn signature_verdict(
    algorithm: Seq<char>,
    curve: Option<Seq<char>>,
    key: Seq<u8>,
    tbs: Seq<u8>,
    sig: Seq<u8>,
) -> Result<(), LinkErrorView> {
    match scheme_for(algorithm, curve) {
        Err(e) => Err(e),
        Ok(scheme) => if ring_accepts(scheme, key, tbs, sig) {
            Ok(())
        } else {
            Err(LinkErrorView::Rejected { algorithm })
        },
    }
}

/// What checking that `father` signed `son` says.
pub open spec fn link_verdict(son: CertView, father: CertView) -> Result<(), LinkErrorView> {
    if son.issuer.raw != father.subject.raw {
        Err(LinkErrorView::NameMismatch { issuer: son.issuer.text, subject: father.subject.text })
    } else {
        signature_verdict(
            son.signature.algorithm,
            father.key.parameter_oid,
            father.key.bits,
            son.signature.tbs,
            son.signature.value,
        )
    }
}

/// What checking each certificate of a chain against the next one says: the
/// first link that does not hold, if there is one.
pub open spec fn chain_verdict(certs: Seq<CertView>) -> Result<(), ChainErrorView>
    decreases certs.len(),
{
    if certs.len() < 2 {
        Ok(())
    } else {
        match chain_verdict(certs.drop_last()) {
            Err(e) => Err(e),
            Ok(_) => match link_verdict(certs[certs.len() - 2], certs.last()) {
                Ok(_) => Ok(()),
                Err(cause) => Err(ChainErrorView { hop: (certs.len() - 2) as nat, cause }),
            },
        }
    }
}

/// The object identifier of the curve of a key.
pub fn curve_oid(algorithm: &KeyAlgorithm) -> (r: Option<String>)
    ensures
        optional_text(r) == algorithm@,
{
    match &algorithm.parameter_oid {
        Some(oid) => Some(oid.clone()),
        None => None,
    }
}

/// Picks the verifier for a signature algorithm.
pub fn choose_scheme(sig_alg_oid: &str, pubkey_alg: &KeyAlgorithm) -> (r: Result<
    SignatureScheme,
    LinkError,
>)
    ensures
        match r {
            Ok(scheme) => scheme_for(sig_alg_oid@, pubkey_alg@) == Ok::<
                SignatureScheme,
                LinkErrorView,
            >(scheme),
            Err(e) => scheme_for(sig_alg_oid@, pubkey_alg@) == Err::<
                SignatureScheme,
                LinkErrorView,
            >(e@),
        },
{
    if same_text(sig_alg_oid, OID_RSA_SHA1) {
        Ok(SignatureScheme::RsaSha1)
    } else if same_text(sig_alg_oid, OID_RSA_SHA256) {
        Ok(SignatureScheme::RsaSha256)
    } else if same_text(sig_alg_oid, OID_RSA_SHA384) {
        Ok(SignatureScheme::RsaSha384)
    } else if same_text(sig_alg_oid, OID_RSA_SHA512) {
        Ok(SignatureScheme::RsaSha512)
    } else if same_text(sig_alg_oid, OID_ECDSA_SHA256) {
        let curve = curve_oid(pubkey_alg);
        if let Some(oid) = &curve {
            if same_text(oid.as_str(), OID_CURVE_P256) {
                return Ok(SignatureScheme::EcdsaP256Sha256);
            }
        }
        Err(LinkError::EcdsaSha256Curve { curve })
    } else if same_text(sig_alg_oid, OID_ECDSA_SHA384) {
        let curve = curve_oid(pubkey_alg);
        if let Some(oid) = &curve {
            if same_text(oid.as_str(), OID_CURVE_P384) {
                return Ok(SignatureScheme::EcdsaP384Sha384);
            }
        }
        Err(LinkError::EcdsaSha384Curve { curve })
    } else if same_text(sig_alg_oid, OID_ECDSA_SHA1) {
        Err(LinkError::EcdsaSha1)
    } else if same_text(sig_alg_oid, OID_ECDSA_SHA512) {
        Err(LinkError::EcdsaSha512)
    } else {
        Err(LinkError::UnsupportedAlgorithm { algorithm: sig_alg_oid.to_string() })
    }
}

/// Checks a signature of `tbs` by the key with the bytes `pubkey_inner`.
pub fn verify_signature(
    sig_alg_oid: &str,
    pubkey_alg: &KeyAlgorithm,
    pubkey_inner: &[u8],
    tbs: &[u8],
    sig: &[u8],
) -> (r: Result<(), LinkError>)
    ensures
        ({
            let verdict = signature_verdict(
                sig_alg_oid@,
                pubkey_alg@,
                pubkey_inner@,
                tbs@,
                sig@,
            );
            match r {
                Ok(_) => verdict == Ok::<(), LinkErrorView>(()),
                Err(e) => verdict == Err::<(), LinkErrorView>(e@),
            }
        }),
{
    let scheme = match choose_scheme(sig_alg_oid, pubkey_alg) {
        Ok(scheme) => scheme,
        Err(e) => return Err(e),
    };
    if ring_verify(scheme, pubkey_inner, tbs, sig) {
        Ok(())
    } else {
        Err(LinkError::Rejected { algorithm: sig_alg_oid.to_string() })
    }
}

/// Checks that `father` signed `son`.
pub fn verify_link(son: &ParsedCert, father: &ParsedCert) -> (r: Result<(), LinkError>)
    ensures
        match r {
            Ok(_) => link_verdict(son@, father@) == Ok::<(), LinkErrorView>(()),
            Err(e) => link_verdict(son@, father@) == Err::<(), LinkErrorView>(e@),
        },
{
    if !same_bytes(son.issuer.raw.as_slice(), father.subject.raw.as_slice()) {
        return Err(
            LinkError::NameMismatch {
                issuer: son.issuer.text.clone(),
                subject: father.subject.text.clone(),
            },
        );
    }
    verify_signature(
        son.signature.algorithm.as_str(),
        &father.key.algorithm,
        father.key.bits.as_slice(),
        son.signature.tbs.as_slice(),
        son.signature.value.as_slice(),
    )
}

proof fn lemma_chain_verdict_fails(certs: Seq<CertView>, n: int)
    requires
        0 <= n <= certs.len(),
        chain_verdict(certs.take(n)) is Err,
    ensures
        chain_verdict(certs) == chain_verdict(certs.take(n)),
    decreases certs.len() - n,
{
    if n == certs.len() {
        assert(certs.take(n) == certs);
    } else {
        assert(certs.drop_last().take(n) == certs.take(n));
        lemma_chain_verdict_fails(certs.drop_last(), n);
    }
}

/// Checks each certificate of a chain against the next one.
pub fn verify_chain(certs: &Vec<ParsedCert>) -> (r: Result<(), ChainError>)
    ensures
        match r {
            Ok(_) => chain_verdict(cert_views(certs@)) == Ok::<(), ChainErrorView>(()),
            Err(e) => {
                &&& chain_verdict(cert_views(certs@)) == Err::<(), ChainErrorView>(e@)
                &&& e.hop + 1 < certs@.len()
            },
        },
{
    let ghost all = cert_views(certs@);
    if certs.len() < 2 {
        return Ok(());
    }
    let mut i: usize = 0;
    while i < certs.len() - 1
        invariant
            i + 1 <= certs@.len(),
            all == cert_views(certs@),
            chain_verdict(all.take(i + 1)) == Ok::<(), ChainErrorView>(()),
        decreases certs@.len() - i,
    {
        let ghost next = all.take(i + 2);
        proof {
            assert(next.drop_last() == all.take(i + 1));
            assert(next.last() == certs@[i + 1]@);
            assert(next[next.len() - 2] == certs@[i as int]@);
        }
        match verify_link(&certs[i], &certs[i + 1]) {
            Ok(_) => {},
            Err(cause) => {
                proof {
                    lemma_chain_verdict_fails(all, i + 2);
                }
                return Err(ChainError { hop: i, cause });
            },
        }
        i = i + 1;
    }
    assert(all.take(i + 1) == all);
    Ok(())
}

} // verus!
