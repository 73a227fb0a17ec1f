//! X.509 certificates as plain values.

use crate::pem::byte_views;
use crate::text::{decimal, decimal_of, optional_text};
use vstd::prelude::*;
use x509_parser::certificate::X509Certificate;
use x509_parser::prelude::FromDer;
use x509_parser::time::ASN1Time;
use x509_parser::x509::{SubjectPublicKeyInfo, X509Name};

verus! {

/// A distinguished name.
#[derive(Debug)]
pub struct CertName {
    /// The DER encoding.
    pub raw: Vec<u8>,
    /// The readable form.
    pub text: String,
}

/// A point in time.
#[derive(Debug)]
pub struct CertTime {
    /// The readable form.
    pub text: String,
    /// Nanoseconds since the start of 1970, UTC.
    pub nanos: i128,
}

/// The algorithm of a public key.
#[derive(Debug)]
pub struct KeyAlgorithm {
    /// The object identifier among the algorithm's parameters, in dotted form.
    pub parameter_oid: Option<String>,
}

/// The public key of a certificate.
#[derive(Debug)]
pub struct CertKey {
    /// The DER encoding of the whole subject public key info.
    pub spki: Vec<u8>,
    /// The bytes of the key itself.
    pub bits: Vec<u8>,
    /// The algorithm it is for.
    pub algorithm: KeyAlgorithm,
}

/// The signature of a certificate.
#[derive(Debug)]
pub struct CertSignature {
    /// The object identifier of the signature algorithm, in dotted form.
    pub algorithm: String,
    /// The bytes that are signed.
    pub tbs: Vec<u8>,
    /// The signature itself.
    pub value: Vec<u8>,
}

/// A parsed certificate.
#[derive(Debug)]
pub struct ParsedCert {
    /// The serial number in hexadecimal, in lower case and without leading zeros.
    pub serial: String,
    pub issuer: CertName,
    pub subject: CertName,
    pub not_before: CertTime,
    pub not_after: CertTime,
    pub key: CertKey,
    pub signature: CertSignature,
}

/// The parts of a certificate that say whom it is for, and when.
struct Identity {
    serial: String,
    issuer: CertName,
    subject: CertName,
    not_before: CertTime,
    not_after: CertTime,
}

impl Identity {
    /// Whether the certificate `cert` has these parts.
    spec fn agrees(self, cert: CertView) -> bool {
        &&& self.serial@ == cert.serial
        &&& self.issuer@ == cert.issuer
        &&& self.subject@ == cert.subject
        &&& self.not_before@ == cert.not_before
        &&& self.not_after@ == cert.not_after
    }
}

/// The values of a [`CertName`].
#[verifier::ext_equal]
pub struct NameView {
    pub raw: Seq<u8>,
    pub text: Seq<char>,
}

/// The values of a [`CertTime`].
#[verifier::ext_equal]
pub struct TimeView {
    pub text: Seq<char>,
    pub nanos: int,
}

/// The values of a [`CertKey`].
#[verifier::ext_equal]
pub struct KeyView {
    pub spki: Seq<u8>,
    pub bits: Seq<u8>,
    pub parameter_oid: Option<Seq<char>>,
}

/// The values of a [`CertSignature`].
#[verifier::ext_equal]
pub struct SignatureView {
    pub algorithm: Seq<char>,
    pub tbs: Seq<u8>,
    pub value: Seq<u8>,
}

/// The values of a [`ParsedCert`].
#[verifier::ext_equal]
pub struct CertView {
    pub serial: Seq<char>,
    pub issuer: NameView,
    pub subject: NameView,
    pub not_before: TimeView,
    pub not_after: TimeView,
    pub key: KeyView,
    pub signature: SignatureView,
}

impl View for CertName {
    type V = NameView;

    open spec fn view(&self) -> NameView {
        NameView { raw: self.raw@, text: self.text@ }
    }
}

impl View for CertTime {
    type V = TimeView;

    open spec fn view(&self) -> TimeView {
        TimeView { text: self.text@, nanos: self.nanos as int }
    }
}

impl View for KeyAlgorithm {
    type V = Option<Seq<char>>;

    open spec fn view(&self) -> Option<Seq<char>> {
        optional_text(self.parameter_oid)
    }
}

impl View for CertKey {
    type V = KeyView;

    open spec fn view(&self) -> KeyView {
        KeyView { spki: self.spki@, bits: self.bits@, parameter_oid: self.algorithm@ }
    }
}

impl View for CertSignature {
    type V = SignatureView;

    open spec fn view(&self) -> SignatureView {
        SignatureView { algorithm: self.algorithm@, tbs: self.tbs@, value: self.value@ }
    }
}

impl View for ParsedCert {
    type V = CertView;

    open spec fn view(&self) -> CertView {
        CertView {
            serial: self.serial@,
            issuer: self.issuer@,
            subject: self.subject@,
            not_before: self.not_before@,
            not_after: self.not_after@,
            key: self.key@,
            signature: self.signature@,
        }
    }
}

/// The values of each certificate of a chain.
pub open spec fn cert_views(certs: Seq<ParsedCert>) -> Seq<CertView> {
    certs.map_values(|c: ParsedCert| c@)
}

/// What `X509Certificate::from_der` reads at the start of `der`: the values of
/// the certificate there, or the message of the error.
pub uninterp spec fn x509_read(der: Seq<u8>) -> Result<CertView, Seq<char>>;

/// The key bytes that `SubjectPublicKeyInfo::from_der` reads at the start of
/// `der`, or the message of the error.
pub uninterp spec fn spki_bits(der: Seq<u8>) -> Result<Seq<u8>, Seq<char>>;

/// Calls `X509Certificate::from_der` of `x509-parser` and copies whom the
/// certificate is for, and when: the serial number in hexadecimal, the names
/// (`X509Name::as_raw` and their `Display`), and the first and the last moment
/// (the `Display` of `ASN1Time` and its time stamp in nanoseconds).
#[verifier::external_body]
fn x509_identity(der: &[u8]) -> (r: Result<Identity, String>)
    ensures
        match r {
            Ok(identity) => x509_read(der@) is Ok && identity.agrees(x509_read(der@)->Ok_0),
            Err(e) => x509_read(der@) == Err::<CertView, Seq<char>>(e@),
        },
{
    let cert = X509Certificate::from_der(der).map_err(|e| e.to_string())?.1;
    let name = |n: &X509Name| CertName { raw: n.as_raw().to_vec(), text: n.to_string() };
    let time = |t: ASN1Time| CertTime {
        text: t.to_string(),
        nanos: t.to_datetime().unix_timestamp_nanos(),
    };
    Ok(Identity {
        serial: format!("{:x}", cert.tbs_certificate.serial),
        issuer: name(cert.issuer()),
        subject: name(cert.subject()),
        not_before: time(cert.validity().not_before),
        not_after: time(cert.validity().not_after),
    })
}

/// Calls `X509Certificate::from_der` of `x509-parser` and copies the public
/// key and the signature: the raw subject public key info, the bit string in
/// it, `Any::as_oid` of its algorithm's parameters, the object identifier of
/// the signature algorithm, the raw bytes of the signed part, and the
/// signature's bit string.
#[verifier::external_body]
fn x509_material(der: &[u8]) -> (r: Result<(CertKey, CertSignature), String>)
    ensures
        match r {
            Ok(parts) => {
                &&& x509_read(der@) is Ok
                &&& parts.0@ == x509_read(der@)->Ok_0.key
                &&& parts.1@ == x509_read(der@)->Ok_0.signature
            },
            Err(e) => x509_read(der@) == Err::<CertView, Seq<char>>(e@),
        },
{
    let cert = X509Certificate::from_der(der).map_err(|e| e.to_string())?.1;
    let key = cert.public_key();
    let oid = key.algorithm.parameters.as_ref().and_then(|any| any.as_oid().ok());
    let parameter_oid = oid.map(|oid| oid.to_id_string());
    let bits = key.subject_public_key.data.to_vec();
    let algorithm = cert.signature_algorithm.algorithm.to_id_string();
    let tbs = cert.tbs_certificate.as_ref().to_vec();
    let value = cert.signature_value.data.to_vec();
    Ok((
        CertKey { spki: key.raw.to_vec(), bits, algorithm: KeyAlgorithm { parameter_oid } },
        CertSignature { algorithm, tbs, value },
    ))
}

/// Calls `SubjectPublicKeyInfo::from_der` of `x509-parser` and copies the key
/// bytes out of what it read.
#[verifier::external_body]
pub(crate) fn spki_from_der(der: &[u8]) -> (r: Result<Vec<u8>, String>)
    ensures
        match r {
            Ok(bits) => spki_bits(der@) == Ok::<Seq<u8>, Seq<char>>(bits@),
            Err(e) => spki_bits(der@) == Err::<Seq<u8>, Seq<char>>(e@),
        },
{
    SubjectPublicKeyInfo::from_der(der).map(|parsed| parsed.1.subject_public_key.data.to_vec()).map_err(
        |e| e.to_string(),
    )
}

/// Parses the certificate at the start of `der`.
pub fn parse_certificate(der: &[u8]) -> (r: Result<ParsedCert, String>)
    ensures
        match r {
            Ok(cert) => x509_read(der@) == Ok::<CertView, Seq<char>>(cert@),
            Err(e) => x509_read(der@) == Err::<CertView, Seq<char>>(e@),
        },
{
    let identity = match x509_identity(der) {
        Ok(identity) => identity,
        Err(e) => return Err(e),
    };
    match x509_material(der) {
        Ok((key, signature)) => Ok(
            ParsedCert {
                serial: identity.serial,
                issuer: identity.issuer,
                subject: identity.subject,
                not_before: identity.not_before,
                not_after: identity.not_after,
                key,
                signature,
            },
        ),
        Err(e) => Err(e),
    }
}

/// The first certificate of a chain that could not be parsed.
#[derive(Debug)]
pub struct CertError {
    /// The place of the certificate in the chain, counted from 1.
    pub position: usize,
    /// The message of the parser.
    pub cause: String,
}

/// The values of a [`CertError`].
#[verifier::ext_equal]
pub struct CertErrorView {
    pub position: nat,
    pub cause: Seq<char>,
}

impl View for CertError {
    type V = CertErrorView;

    open spec fn view(&self) -> CertErrorView {
        CertErrorView { position: self.position as nat, cause: self.cause@ }
    }
}

impl CertErrorView {
    /// What the error says.
    pub open spec fn message(self) -> Seq<char> {
        "certificate #"@ + decimal_of(self.position) + " ASN.1 parse failed: "@ + self.cause
    }
}

impl CertError {
    /// The message of the error.
    pub fn message(&self) -> (r: String)
        ensures
            r@ == self@.message(),
    {
        "certificate #".to_string().concat(decimal(self.position as u64).as_str()).concat(
            " ASN.1 parse failed: ",
        ).concat(self.cause.as_str())
    }
}

/// The certificates of a chain, or the first that cannot be parsed.
pub open spec fn certs_read(ders: Seq<Seq<u8>>) -> Result<Seq<CertView>, CertErrorView>
    decreases ders.len(),
{
    if ders.len() == 0 {
        Ok(seq![])
    } else {
        match certs_read(ders.drop_last()) {
            Err(e) => Err(e),
            Ok(before) => match x509_read(ders.last()) {
                Ok(cert) => Ok(before.push(cert)),
                Err(cause) => Err(CertErrorView { position: ders.len(), cause }),
            },
        }
    }
}

proof fn lemma_certs_read_fails(ders: Seq<Seq<u8>>, n: int)
    requires
        0 <= n <= ders.len(),
        certs_read(ders.take(n)) is Err,
    ensures
        certs_read(ders) == certs_read(ders.take(n)),
    decreases ders.len() - n,
{
    if n == ders.len() {
        assert(ders.take(n) == ders);
    } else {
        assert(ders.drop_last().take(n) == ders.take(n));
        lemma_certs_read_fails(ders.drop_last(), n);
    }
}

/// A chain that parses has as many certificates as encodings.
pub proof fn lemma_certs_read_len(ders: Seq<Seq<u8>>)
    requires
        certs_read(ders) is Ok,
    ensures
        certs_read(ders)->Ok_0.len() == ders.len(),
    decreases ders.len(),
{
    if ders.len() > 0 {
        lemma_certs_read_len(ders.drop_last());
    }
}

/// Parses every certificate of a chain, up to the first that cannot be parsed.
pub fn parse_certificates(ders: &Vec<Vec<u8>>) -> (r: Result<Vec<ParsedCert>, CertError>)
    ensures
        match r {
            Ok(certs) => certs_read(byte_views(ders@)) == Ok::<Seq<CertView>, CertErrorView>(
                cert_views(certs@),
            ),
            Err(e) => certs_read(byte_views(ders@)) == Err::<Seq<CertView>, CertErrorView>(e@),
        },
{
    let ghost all = byte_views(ders@);
    let mut out: Vec<ParsedCert> = Vec::new();
    let mut i: usize = 0;
    assert(cert_views(out@) == Seq::<CertView>::empty());
    while i < ders.len()
        invariant
            i <= ders@.len(),
            all == byte_views(ders@),
            certs_read(all.take(i as int)) == Ok::<Seq<CertView>, CertErrorView>(
                cert_views(out@),
            ),
        decreases ders@.len() - i,
    {
        let ghost next = all.take(i + 1);
        proof {
            assert(next.drop_last() == all.take(i as int));
            assert(next.last() == ders@[i as int]@);
        }
        match parse_certificate(ders[i].as_slice()) {
            Ok(cert) => {
                let ghost before = out@;
                out.push(cert);
                assert(cert_views(out@) == cert_views(before).push(cert@));
            },
            Err(cause) => {
                proof {
                    lemma_certs_read_fails(all, i + 1);
                }
                return Err(CertError { position: i + 1, cause });
            },
        }
        i = i + 1;
    }
    assert(all.take(i as int) == all);
    Ok(out)
}

} // verus!
