//! Generation of a keybox file.

use crate::text::{join, joined, lines, lines_of, views};
use rand::rngs::OsRng;
use rcgen::Certificate as SignedCertificate;
use rcgen::{
    CertificateParams, DistinguishedName, DnType, KeyPair, PKCS_ECDSA_P256_SHA256,
    PKCS_ECDSA_P384_SHA384,
};
use rsa::pkcs8::{EncodePrivateKey, LineEnding};
use rsa::RsaPrivateKey;
use vstd::prelude::*;

verus! {

/// The name in the certificate of a generated keybox.
pub const COMMON_NAME: &'static str = "Android Keybox";

/// The curve of an EC key. The key signs with ECDSA and the hash of that size.
#[derive(Debug, Clone, Copy, PartialEq, Eq, Structural)]
pub enum EcCurve {
    /// P-256, with SHA-256.
    P256,
    /// P-384, with SHA-384.
    P384,
}

/// The curve of the EC key of a generated keybox.
pub const EC_CURVE: EcCurve = EcCurve::P256;

/// The size of the RSA key of a generated keybox.
pub const RSA_BITS: usize = 2048;

/// A keybox file up to its EC key.
pub const XML_BEFORE_EC_KEY: &'static str = "<?xml version=\"1.0\"?>
    <AndroidAttestation>
        <NumberOfKeyboxes>1</NumberOfKeyboxes>
        <Keybox DeviceID=\"sw\">
            <Key algorithm=\"ecdsa\">
                <PrivateKey format=\"pem\">";

/// What stands between the EC key and its certificate.
pub const XML_BEFORE_CERTIFICATE: &'static str = "</PrivateKey>
                <CertificateChain>
                    <NumberOfCertificates>1</NumberOfCertificates>
                        <Certificate format=\"pem\">";

/// What stands between the certificate and the RSA key.
pub const XML_BEFORE_RSA_KEY: &'static str = "</Certificate>
                </CertificateChain>
            </Key>
            <Key algorithm=\"rsa\">
                <PrivateKey format=\"pem\">";

/// A keybox file after its RSA key.
pub const XML_AFTER_RSA_KEY: &'static str = "</PrivateKey>
            </Key>
        </Keybox>
</AndroidAttestation>";

/// A key pair of the `rcgen` crate.
#[verifier::external_type_specification]
#[verifier::external_body]
pub struct ExKeyPair(KeyPair);

/// A certificate of the `rcgen` crate.
#[verifier::external_type_specification]
#[verifier::external_body]
pub struct ExSignedCertificate(SignedCertificate);

/// A private key of the `rsa` crate.
#[verifier::external_type_specification]
#[verifier::external_body]
pub struct ExRsaPrivateKey(RsaPrivateKey);

/// Why a keybox could not be generated.
#[derive(Debug, Clone, Copy, PartialEq, Eq, Structural)]
pub enum GenerateError {
    /// There is no EC key.
    EcKey,
    /// There is no certificate for the EC key.
    EcCertificate,
    /// There is no RSA key.
    RsaKey,
    /// The RSA key has no PEM text.
    RsaPem,
}

impl GenerateError {
    /// What the error says.
    pub open spec fn message_spec(self) -> Seq<char> {
        match self {
            GenerateError::EcKey => "EC key generation failed"@,
            GenerateError::EcCertificate => "EC cert generation failed"@,
            GenerateError::RsaKey => "RSA 2048 keygen failed"@,
            GenerateError::RsaPem => "RSA PEM encoding failed"@,
        }
    }

    /// The message of the error.
    pub fn message(&self) -> (r: String)
        ensures
            r@ == self.message_spec(),
    {
        match self {
            GenerateError::EcKey => "EC key generation failed".to_string(),
            GenerateError::EcCertificate => "EC cert generation failed".to_string(),
            GenerateError::RsaKey => "RSA 2048 keygen failed".to_string(),
            GenerateError::RsaPem => "RSA PEM encoding failed".to_string(),
        }
    }
}

/// `n` space characters.
pub open spec fn blanks(n: nat) -> Seq<char> {
    Seq::new(n, |i: int| ' ')
}

/// The lines of a text, each after `n` spaces, joined by line feeds.
pub open spec fn indented(text: Seq<char>, n: nat) -> Seq<char> {
    joined(lines_of(text).map_values(|l: Seq<char>| blanks(n) + l), seq!['\n'])
}

/// The content of an element: the lines of a text on lines of their own, each
/// after `n` spaces, and `m` spaces before the tag that closes the element.
pub open spec fn element_text(text: Seq<char>, n: nat, m: nat) -> Seq<char> {
    seq!['\n'] + indented(text, n) + seq!['\n'] + blanks(m)
}

/// `count` space characters.
fn spaces_of(count: usize) -> (r: String)
    ensures
        r@ == blanks(count as nat),
{
    let mut pad = String::new();
    let mut i: usize = 0;
    while i < count
        invariant
            i <= count,
            pad@ == blanks(i as nat),
        decreases count - i,
    {
        pad.push(' ');
        i = i + 1;
        assert(pad@ == blanks(i as nat));
    }
    pad
}

/// Puts `spaces` spaces before every line of a PEM text.
pub fn indent(pem: &str, spaces: usize) -> (r: String)
    ensures
        r@ == indented(pem@, spaces as nat),
{
    let pad = spaces_of(spaces);
    let all = lines(pem);
    let ghost wanted = lines_of(pem@).map_values(
        |l: Seq<char>| blanks(spaces as nat) + l,
    );
    let mut out: Vec<String> = Vec::new();
    let mut i: usize = 0;
    while i < all.len()
        invariant
            i <= all@.len(),
            views(all@) == lines_of(pem@),
            pad@ == blanks(spaces as nat),
            wanted == lines_of(pem@).map_values(
                |l: Seq<char>| blanks(spaces as nat) + l,
            ),
            views(out@) == wanted.take(i as int),
        decreases all@.len() - i,
    {
        let ghost before = out@;
        let line = pad.clone().concat(all[i].as_str());
        out.push(line);
        proof {
            assert(views(all@)[i as int] == all@[i as int]@);
            assert(views(out@) == views(before).push(line@));
            assert(wanted.take(i + 1) == wanted.take(i as int).push(wanted[i as int]));
        }
        i = i + 1;
    }
    assert(wanted.take(i as int) == wanted);
    proof {
        reveal_strlit("\n");
        assert("\n"@ == seq!['\n']);
    }
    join(&out, "\n")
}

/// Writes the content of an element.
fn write_element(pem: &str, spaces: usize, last: usize) -> (r: String)
    ensures
        r@ == element_text(pem@, spaces as nat, last as nat),
{
    proof {
        reveal_strlit("\n");
        assert("\n"@ == seq!['\n']);
    }
    "\n".to_string().concat(indent(pem, spaces).as_str()).concat("\n").concat(
        spaces_of(last).as_str(),
    )
}

/// The text of a keybox file with an EC key, its certificate, and an RSA key.
pub open spec fn keybox_xml(ec_key: Seq<char>, cert: Seq<char>, rsa_key: Seq<char>) -> Seq<char> {
    XML_BEFORE_EC_KEY@ + element_text(ec_key, 20, 16) + XML_BEFORE_CERTIFICATE@ + element_text(
        cert,
        24,
        24,
    ) + XML_BEFORE_RSA_KEY@ + element_text(rsa_key, 20, 16) + XML_AFTER_RSA_KEY@
}

/// Writes a keybox file with an EC key, its certificate, and an RSA key, each
/// of them a PEM text.
pub fn build_xml(ec_key: &str, cert: &str, rsa_key: &str) -> (r: String)
    ensures
        r@ == keybox_xml(ec_key@, cert@, rsa_key@),
{
    XML_BEFORE_EC_KEY.to_string().concat(write_element(ec_key, 20, 16).as_str()).concat(
        XML_BEFORE_CERTIFICATE,
    ).concat(write_element(cert, 24, 24).as_str()).concat(XML_BEFORE_RSA_KEY).concat(
        write_element(rsa_key, 20, 16).as_str(),
    ).concat(XML_AFTER_RSA_KEY)
}

/// Whether a key pair holds its private key, and not a way to have another
/// party sign.
pub uninterp spec fn holds_private_key(key: KeyPair) -> bool;

/// The curve that a key pair is on.
pub uninterp spec fn key_pair_curve(key: KeyPair) -> EcCurve;

/// The subject public key info of a key pair.
pub uninterp spec fn key_pair_public(key: KeyPair) -> Seq<u8>;

/// The PKCS#8 PEM text of a key pair, with the line ends of the platform that
/// the program is built for.
pub uninterp spec fn key_pair_pem(key: KeyPair) -> Seq<char>;

/// The subject public key info that a certificate is for.
pub uninterp spec fn certificate_public(cert: SignedCertificate) -> Seq<u8>;

/// The subject public key info of the key that signed a certificate.
pub uninterp spec fn certificate_signer(cert: SignedCertificate) -> Seq<u8>;

/// One part of a distinguished name.
#[verifier::ext_equal]
pub enum NamePart {
    CommonName(Seq<char>),
    Other,
}

/// The distinguished name that is a common name and nothing else.
pub open spec fn common_name_alone(name: Seq<char>) -> Seq<NamePart> {
    seq![NamePart::CommonName(name)]
}

/// The distinguished name of whom a certificate is for, part by part.
pub uninterp spec fn certificate_subject(cert: SignedCertificate) -> Seq<NamePart>;

/// The distinguished name of who issued a certificate, part by part.
pub uninterp spec fn certificate_issuer(cert: SignedCertificate) -> Seq<NamePart>;

/// The PEM text of a certificate, with the line ends of the platform that the
/// program is built for.
pub uninterp spec fn certificate_pem(cert: SignedCertificate) -> Seq<char>;

/// The number of bits of the modulus of an RSA key.
pub uninterp spec fn rsa_bits(key: RsaPrivateKey) -> nat;

/// The PKCS#8 PEM text of an RSA key, with line feeds at the line ends, if it
/// has one.
pub uninterp spec fn rsa_pem(key: RsaPrivateKey) -> Option<Seq<char>>;

/// Calls `KeyPair::generate_for` of `rcgen` for ECDSA on the curve `curve`.
/// Which key it is, chance decides; it is on that curve and holds its private
/// key.
#[verifier::external_body]
fn new_ec_key(curve: EcCurve) -> (r: Option<KeyPair>)
    ensures
        r matches Some(key) ==> holds_private_key(key) && key_pair_curve(key) == curve,
{
    let algorithm = match curve {
        EcCurve::P256 => &PKCS_ECDSA_P256_SHA256,
        EcCurve::P384 => &PKCS_ECDSA_P384_SHA384,
    };
    KeyPair::generate_for(algorithm).ok()
}

/// Calls `KeyPair::serialize_pem` of `rcgen`, which does not return for a key
/// pair without its private key.
#[verifier::external_body]
fn ec_key_text(key: &KeyPair) -> (r: String)
    requires
        holds_private_key(*key),
    ensures
        r@ == key_pair_pem(*key),
{
    key.serialize_pem()
}

/// Calls `CertificateParams::self_signed` of `rcgen` for a name that is a
/// common name and nothing else. The certificate is for the key of `key`, is
/// signed with it, and has that name as its subject and as its issuer; which
/// signature it is, chance decides.
#[verifier::external_body]
fn new_certificate(common_name: &str, key: &KeyPair) -> (r: Option<SignedCertificate>)
    ensures
        r matches Some(cert) ==> certificate_public(cert) == key_pair_public(*key)
            && certificate_signer(cert) == key_pair_public(*key) && certificate_subject(cert)
            == common_name_alone(common_name@) && certificate_issuer(cert) == common_name_alone(
            common_name@,
        ),
{
    let mut params = CertificateParams::default();
    params.distinguished_name = DistinguishedName::new();
    params.distinguished_name.push(DnType::CommonName, common_name);
    params.self_signed(key).ok()
}

/// Calls `Certificate::pem` of `rcgen`.
#[verifier::external_body]
fn certificate_text(cert: &SignedCertificate) -> (r: String)
    ensures
        r@ == certificate_pem(*cert),
{
    cert.pem()
}

/// Calls `RsaPrivateKey::new` of `rsa` with the random numbers of the
/// operating system. Which key it is, chance decides; its modulus has as many
/// bits as were asked for.
#[verifier::external_body]
fn new_rsa_key(bits: usize) -> (r: Option<RsaPrivateKey>)
    requires
        64 <= bits,
    ensures
        r matches Some(key) ==> rsa_bits(key) == bits,
{
    RsaPrivateKey::new(&mut OsRng, bits).ok()
}

/// Calls `to_pkcs8_pem` of `rsa` on a private key, with line feeds at the line ends.
#[verifier::external_body]
fn rsa_key_text(key: &RsaPrivateKey) -> (r: Option<String>)
    ensures
        match r {
            Some(text) => rsa_pem(*key) == Some(text@),
            None => rsa_pem(*key) is None,
        },
{
    key.to_pkcs8_pem(LineEnding::LF).ok().map(|pem| pem.to_string())
}

/// Whether an EC key is on the curve that is asked for.
pub open spec fn is_ec_key(ec_key: KeyPair) -> bool {
    holds_private_key(ec_key) && key_pair_curve(ec_key) == EC_CURVE
}

/// Whether a certificate is for an EC key on the curve that is asked for,
/// signed with it, and issued to and by the name that is asked for and no other.
pub open spec fn is_certified(ec_key: KeyPair, cert: SignedCertificate) -> bool {
    &&& is_ec_key(ec_key)
    &&& certificate_public(cert) == key_pair_public(ec_key)
    &&& certificate_signer(cert) == key_pair_public(ec_key)
    &&& certificate_subject(cert) == common_name_alone(COMMON_NAME@)
    &&& certificate_issuer(cert) == common_name_alone(COMMON_NAME@)
}

/// Whether `xml` is a keybox file for these keys: the certificate is one for
/// the EC key, and the RSA key has the size that is asked for.
pub open spec fn is_generated_from(
    xml: Seq<char>,
    ec_key: KeyPair,
    cert: SignedCertificate,
    rsa_key: RsaPrivateKey,
) -> bool {
    &&& is_certified(ec_key, cert)
    &&& rsa_bits(rsa_key) == RSA_BITS
    &&& rsa_pem(rsa_key) is Some
    &&& xml == keybox_xml(
        key_pair_pem(ec_key),
        certificate_pem(cert),
        rsa_pem(rsa_key)->Some_0,
    )
}

/// Whether `xml` is a keybox file for some keys.
pub open spec fn is_generated(xml: Seq<char>) -> bool {
    exists|ec_key: KeyPair, cert: SignedCertificate, rsa_key: RsaPrivateKey| #[trigger]
        is_generated_from(xml, ec_key, cert, rsa_key)
}

/// Whether there is an EC key with its certificate.
pub open spec fn some_certified() -> bool {
    exists|ec_key: KeyPair, cert: SignedCertificate| #[trigger] is_certified(ec_key, cert)
}

/// What there was already when generation ended in an error.
pub open spec fn ended_after(error: GenerateError) -> bool {
    match error {
        GenerateError::EcKey => true,
        GenerateError::EcCertificate => exists|ec_key: KeyPair| #[trigger] is_ec_key(ec_key),
        GenerateError::RsaKey => some_certified(),
        GenerateError::RsaPem => some_certified() && exists|rsa_key: RsaPrivateKey|
            rsa_bits(rsa_key) == RSA_BITS && #[trigger] rsa_pem(rsa_key) is None,
    }
}

/// The EC key, or the error where there is none.
pub fn require_ec_key(key: Option<KeyPair>) -> (r: Result<KeyPair, GenerateError>)
    ensures
        match key {
            Some(k) => r == Ok::<KeyPair, GenerateError>(k),
            None => r == Err::<KeyPair, GenerateError>(GenerateError::EcKey),
        },
{
    match key {
        Some(k) => Ok(k),
        None => Err(GenerateError::EcKey),
    }
}

/// The certificate, or the error where there is none.
pub fn require_certificate(cert: Option<SignedCertificate>) -> (r: Result<
    SignedCertificate,
    GenerateError,
>)
    ensures
        match cert {
            Some(c) => r == Ok::<SignedCertificate, GenerateError>(c),
            None => r == Err::<SignedCertificate, GenerateError>(GenerateError::EcCertificate),
        },
{
    match cert {
        Some(c) => Ok(c),
        None => Err(GenerateError::EcCertificate),
    }
}

/// The RSA key, or the error where there is none.
pub fn require_rsa_key(key: Option<RsaPrivateKey>) -> (r: Result<RsaPrivateKey, GenerateError>)
    ensures
        match key {
            Some(k) => r == Ok::<RsaPrivateKey, GenerateError>(k),
            None => r == Err::<RsaPrivateKey, GenerateError>(GenerateError::RsaKey),
        },
{
    match key {
        Some(k) => Ok(k),
        None => Err(GenerateError::RsaKey),
    }
}

/// The PEM text of the RSA key, or the error where there is none.
pub fn require_rsa_text(text: Option<String>) -> (r: Result<String, GenerateError>)
    ensures
        match text {
            Some(t) => r == Ok::<String, GenerateError>(t),
            None => r == Err::<String, GenerateError>(GenerateError::RsaPem),
        },
{
    match text {
        Some(t) => Ok(t),
        None => Err(GenerateError::RsaPem),
    }
}

/// Generates a keybox file with a new EC key, a certificate that the key
/// signed for itself, and a new RSA key.
pub fn generate() -> (r: Result<String, GenerateError>)
    ensures
        r matches Ok(xml) ==> is_generated(xml@),
        r matches Err(e) ==> ended_after(e),
{
    let ec_key = match require_ec_key(new_ec_key(EC_CURVE)) {
        Ok(key) => key,
        Err(e) => return Err(e),
    };
    assert(is_ec_key(ec_key));
    let cert = match require_certificate(new_certificate(COMMON_NAME, &ec_key)) {
        Ok(cert) => cert,
        Err(e) => return Err(e),
    };
    assert(is_certified(ec_key, cert));
    let ec_pem = ec_key_text(&ec_key);
    let cert_pem = certificate_text(&cert);
    let rsa_key = match require_rsa_key(new_rsa_key(RSA_BITS)) {
        Ok(key) => key,
        Err(e) => return Err(e),
    };
    let rsa_text = match require_rsa_text(rsa_key_text(&rsa_key)) {
        Ok(text) => text,
        Err(e) => return Err(e),
    };
    let xml = build_xml(ec_pem.as_str(), cert_pem.as_str(), rsa_text.as_str());
    assert(is_generated_from(xml@, ec_key, cert, rsa_key));
    Ok(xml)
}

} // verus!
