use keybox::anchors::{
    detect_root_type, parse_anchor, trust_anchors, AnchorError, KeyboxRootType, RootKeys,
};
use keybox::chain::{
    curve_oid, verify_chain, verify_link, verify_signature, LinkError, OID_CURVE_P256,
    OID_CURVE_P384, OID_ECDSA_SHA1, OID_ECDSA_SHA256, OID_ECDSA_SHA384, OID_ECDSA_SHA512,
    OID_RSA_SHA256,
};
use keybox::x509::{parse_certificate, parse_certificates, KeyAlgorithm, ParsedCert};
use rcgen::{
    CertificateParams, DistinguishedName, DnType, KeyPair, PKCS_ECDSA_P256_SHA256,
    PKCS_ECDSA_P384_SHA384,
};
use rsa::pkcs1::EncodeRsaPublicKey;

fn named(name: &str) -> CertificateParams {
    let mut params = CertificateParams::default();
    params.distinguished_name = DistinguishedName::new();
    params.distinguished_name.push(DnType::CommonName, name);
    params
}

fn parsed(cert: &rcgen::Certificate) -> ParsedCert {
    parse_certificate(cert.der().as_ref()).expect("x509 parse")
}

/// A leaf, an intermediate, and a root.
fn chain_of_three() -> Vec<ParsedCert> {
    let root_key = KeyPair::generate_for(&PKCS_ECDSA_P384_SHA384).unwrap();
    let root = named("root").self_signed(&root_key).unwrap();
    let middle_key = KeyPair::generate_for(&PKCS_ECDSA_P256_SHA256).unwrap();
    let middle = named("middle").signed_by(&middle_key, &root, &root_key).unwrap();
    let leaf_key = KeyPair::generate_for(&PKCS_ECDSA_P256_SHA256).unwrap();
    let leaf = named("leaf").signed_by(&leaf_key, &middle, &middle_key).unwrap();
    vec![parsed(&leaf), parsed(&middle), parsed(&root)]
}

fn no_curve() -> KeyAlgorithm {
    KeyAlgorithm { parameter_oid: None }
}

#[test]
fn ecdsa_p256_self_signed_link_verifies() {
    let mut params = CertificateParams::default();
    params.distinguished_name = DistinguishedName::new();
    params.distinguished_name.push(DnType::CommonName, "test-leaf");
    let key = KeyPair::generate_for(&PKCS_ECDSA_P256_SHA256).expect("rcgen key");
    let cert = params.self_signed(&key).expect("rcgen build");
    let der = cert.der();

    let parsed = parse_certificate(der.as_ref()).expect("x509 parse");
    verify_link(&parsed, &parsed).expect("self-signed P-256 link verifies");
}

#[test]
fn unsupported_signature_oid_emits_specific_error() {
    let dummy_alg = no_curve();
    let err = verify_signature("1.3.101.112", &dummy_alg, &[0u8; 32], b"tbs", b"sig")
        .unwrap_err()
        .message();
    assert!(
        err.contains("unsupported signature algorithm OID 1.3.101.112"),
        "expected unsupported-OID error, got: {err}"
    );
}

#[test]
fn ecdsa_sha1_emits_ring_limit_error() {
    let dummy_alg = no_curve();
    let err = verify_signature(OID_ECDSA_SHA1, &dummy_alg, &[0u8; 32], b"tbs", b"sig")
        .unwrap_err()
        .message();
    assert!(err.contains("ECDSA-SHA1 not supported"), "got: {err}");
}

#[test]
fn the_curve_must_fit_the_hash() {
    let p384 = KeyAlgorithm { parameter_oid: Some(OID_CURVE_P384.to_string()) };
    let p256 = KeyAlgorithm { parameter_oid: Some(OID_CURVE_P256.to_string()) };
    let says = |oid: &str, alg: &KeyAlgorithm| {
        verify_signature(oid, alg, &[0u8; 32], b"tbs", b"sig").unwrap_err().message()
    };
    assert_eq!(
        says(OID_ECDSA_SHA256, &p384),
        "ECDSA-SHA256 with unsupported curve OID 1.3.132.0.34"
    );
    assert_eq!(
        says(OID_ECDSA_SHA384, &p256),
        "ECDSA-SHA384 with unsupported curve OID 1.2.840.10045.3.1.7"
    );
    assert_eq!(says(OID_ECDSA_SHA256, &no_curve()), "ECDSA-SHA256 missing curve OID");
    assert_eq!(says(OID_ECDSA_SHA384, &no_curve()), "ECDSA-SHA384 missing curve OID");
    assert_eq!(
        says(OID_ECDSA_SHA512, &p256),
        "ECDSA-SHA512 not supported (ring lacks the verifier)"
    );
    assert_eq!(
        says(OID_ECDSA_SHA256, &p256),
        "signature verification failed under 1.2.840.10045.4.3.2"
    );
}

#[test]
fn the_curve_is_read_from_the_certificate() {
    let chain = chain_of_three();
    assert_eq!(curve_oid(&chain[0].key.algorithm).as_deref(), Some(OID_CURVE_P256));
    assert_eq!(curve_oid(&chain[2].key.algorithm).as_deref(), Some(OID_CURVE_P384));
    assert_eq!(curve_oid(&no_curve()), None);
    assert_eq!(chain[0].signature.algorithm, OID_ECDSA_SHA256);
    assert_eq!(chain[1].signature.algorithm, OID_ECDSA_SHA384);
}

#[test]
fn an_rsa_signature_verifies() {
    let key = rsa::RsaPrivateKey::new(&mut rand::rngs::OsRng, 2048).unwrap();
    let digest = ring::digest::digest(&ring::digest::SHA256, b"tbs");
    let prefix: Vec<u8> = vec![
        0x30, 0x31, 0x30, 0x0d, 0x06, 0x09, 0x60, 0x86, 0x48, 0x01, 0x65, 0x03, 0x04, 0x02, 0x01,
        0x05, 0x00, 0x04, 0x20,
    ];
    let padding = rsa::Pkcs1v15Sign { hash_len: Some(32), prefix: prefix.into() };
    let sig = key.sign(padding, digest.as_ref()).unwrap();
    let public = key.to_public_key().to_pkcs1_der().unwrap();
    assert!(verify_signature(OID_RSA_SHA256, &no_curve(), public.as_bytes(), b"tbs", &sig).is_ok());
    let other = verify_signature(OID_RSA_SHA256, &no_curve(), public.as_bytes(), b"tbx", &sig);
    assert_eq!(
        other.unwrap_err().message(),
        "signature verification failed under 1.2.840.113549.1.1.11"
    );
}

#[test]
fn a_chain_verifies_link_by_link() {
    let chain = chain_of_three();
    assert!(verify_chain(&chain).is_ok());
    assert!(verify_chain(&Vec::new()).is_ok());
    let mut turned = chain_of_three();
    turned.swap(0, 2);
    let error = verify_chain(&turned).unwrap_err();
    assert_eq!(error.hop, 0);
    assert_eq!(error.message(), "hop 0 -> 1");
    assert_eq!(
        error.cause.message(),
        "issuer/subject DER mismatch: son issuer=CN=root, father subject=CN=middle"
    );
}

#[test]
fn the_first_bad_link_is_named() {
    let mut chain = chain_of_three();
    // The names still fit, the signature does not.
    chain[1].signature.value[10] ^= 1;
    let error = verify_chain(&chain).unwrap_err();
    assert_eq!(error.message(), "hop 1 -> 2");
    match &error.cause {
        LinkError::Rejected { algorithm } => assert_eq!(algorithm, OID_ECDSA_SHA384),
        other => panic!("{other:?}"),
    }
    chain[0].issuer.raw.push(0);
    assert_eq!(verify_chain(&chain).unwrap_err().message(), "hop 0 -> 1");
}

#[test]
fn the_first_unreadable_certificate_is_named() {
    let key = KeyPair::generate_for(&PKCS_ECDSA_P256_SHA256).unwrap();
    let good = named("x").self_signed(&key).unwrap().der().to_vec();
    let ders = vec![good.clone(), vec![0x30, 0x00], vec![]];
    let error = parse_certificates(&ders).unwrap_err();
    assert_eq!(error.position, 2);
    assert!(error.message().starts_with("certificate #2 ASN.1 parse failed: "), "{error:?}");
    assert!(error.message().len() > "certificate #2 ASN.1 parse failed: ".len());
    assert_eq!(parse_certificates(&vec![good.clone(), good]).unwrap().len(), 2);
}

#[test]
fn a_certificate_is_read() {
    let mut params = named("Some Name");
    params.serial_number = Some(rcgen::SerialNumber::from(0x0abcu64));
    params.not_before = rcgen::date_time_ymd(2024, 1, 1);
    params.not_after = rcgen::date_time_ymd(2024, 1, 2);
    let key = KeyPair::generate_for(&PKCS_ECDSA_P256_SHA256).unwrap();
    let cert = params.self_signed(&key).unwrap();
    let read = parsed(&cert);
    assert_eq!(read.serial, "abc");
    assert_eq!(read.subject.text, "CN=Some Name");
    assert_eq!(read.not_before.nanos, 1_704_067_200_000_000_000);
    assert_eq!(read.not_after.nanos, 1_704_153_600_000_000_000);
    assert_eq!(read.not_before.text, "Jan  1 00:00:00 2024 +00:00");
    assert_eq!(read.key.spki, key.public_key_der());
    assert_eq!(read.key.bits, key.public_key_raw());
}

fn four_keys() -> Vec<KeyPair> {
    (0..4).map(|_| KeyPair::generate_for(&PKCS_ECDSA_P256_SHA256).unwrap()).collect()
}

fn roots_of(keys: &[KeyPair]) -> RootKeys {
    let pem = |i: usize| keys[i].public_key_pem().into_bytes();
    RootKeys { google: pem(0), aosp_ec: pem(1), aosp_rsa: pem(2), knox: pem(3) }
}

#[test]
fn trust_anchors_load() {
    let keys = four_keys();
    let anchors = trust_anchors(&roots_of(&keys));
    assert_eq!(anchors.len(), 4, "all 4 trust anchors must parse");
    for anchor in &anchors {
        assert!(!anchor.key.is_empty(), "anchor {:?} has empty pubkey inner", anchor.kind);
    }
    let kinds: Vec<KeyboxRootType> = anchors.iter().map(|a| a.kind).collect();
    assert_eq!(
        kinds,
        vec![
            KeyboxRootType::Google,
            KeyboxRootType::AospEc,
            KeyboxRootType::AospRsa,
            KeyboxRootType::Knox,
        ]
    );
    for (anchor, key) in anchors.iter().zip(&keys) {
        assert_eq!(anchor.key, key.public_key_raw());
    }
}

#[test]
fn an_unreadable_anchor_is_left_out() {
    let keys = four_keys();
    let mut roots = roots_of(&keys);
    roots.aosp_ec = vec![0xff];
    roots.knox = b"no key".to_vec();
    let anchors = trust_anchors(&roots);
    let kinds: Vec<KeyboxRootType> = anchors.iter().map(|a| a.kind).collect();
    assert_eq!(kinds, vec![KeyboxRootType::Google, KeyboxRootType::AospRsa]);
}

#[test]
fn anchor_errors_have_their_texts() {
    let error = parse_anchor(&[0xff, 0xfe]).unwrap_err();
    assert!(matches!(error, AnchorError::NotUtf8));
    assert_eq!(error.message(), "anchor PEM is not valid UTF-8");
    let error = parse_anchor(b"no key").unwrap_err();
    assert_eq!(error.message(), "anchor PEM body decode failed");
    let error =
        parse_anchor(b"-----BEGIN PUBLIC KEY-----\nAAEC\n-----END PUBLIC KEY-----").unwrap_err();
    assert!(error.message().starts_with("anchor SPKI parse: "), "{error:?}");
}

#[test]
fn a_root_is_recognized_by_its_key() {
    let keys = four_keys();
    let anchors = trust_anchors(&roots_of(&keys));
    let knox = named("any name").self_signed(&keys[3]).unwrap();
    assert_eq!(detect_root_type(&parsed(&knox), &anchors), KeyboxRootType::Knox);
    let google = named("other").self_signed(&keys[0]).unwrap();
    assert_eq!(detect_root_type(&parsed(&google), &anchors), KeyboxRootType::Google);
    let stranger = KeyPair::generate_for(&PKCS_ECDSA_P256_SHA256).unwrap();
    let unknown = named("x").self_signed(&stranger).unwrap();
    assert_eq!(detect_root_type(&parsed(&unknown), &anchors), KeyboxRootType::Unknown);
    assert_eq!(detect_root_type(&parsed(&knox), &Vec::new()), KeyboxRootType::Unknown);
}

#[test]
fn root_type_snake_case_consistent() {
    assert_eq!(KeyboxRootType::Google.as_snake_case(), "google");
    assert_eq!(KeyboxRootType::AospEc.as_snake_case(), "aosp_ec");
    assert_eq!(KeyboxRootType::AospRsa.as_snake_case(), "aosp_rsa");
    assert_eq!(KeyboxRootType::Knox.as_snake_case(), "knox");
    assert_eq!(KeyboxRootType::Unknown.as_snake_case(), "unknown");
}
