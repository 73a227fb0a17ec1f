use keybox::private_key::{
    judge_public_key, match_private_key, settle, try_match_p256, try_match_p384, try_match_rsa,
    verdict, KeyMatch, UNPARSEABLE_KEY,
};
use keybox::x509::{parse_certificate, ParsedCert};
use rcgen::{CertificateParams, KeyPair, PKCS_ECDSA_P256_SHA256, PKCS_ECDSA_P384_SHA384};
use rsa::pkcs1::EncodeRsaPrivateKey;
use rsa::pkcs8::{EncodePrivateKey, EncodePublicKey, LineEnding};

fn leaf_for(key: &KeyPair) -> ParsedCert {
    let cert = CertificateParams::default().self_signed(key).unwrap();
    parse_certificate(cert.der().as_ref()).unwrap()
}

#[test]
fn a_p256_key_matches_its_certificate_alone() {
    let key = KeyPair::generate_for(&PKCS_ECDSA_P256_SHA256).unwrap();
    let other = KeyPair::generate_for(&PKCS_ECDSA_P256_SHA256).unwrap();
    let leaf = leaf_for(&key);
    let mut errors = Vec::new();
    assert_eq!(match_private_key(&key.serialize_pem(), &leaf, &mut errors), KeyMatch::Matched);
    assert_eq!(match_private_key(&other.serialize_pem(), &leaf, &mut errors), KeyMatch::Mismatched);
    assert!(errors.is_empty());
    assert_eq!(try_match_rsa(&key.serialize_pem(), &leaf.key.spki, &mut errors), None);
    assert_eq!(try_match_p384(&key.serialize_pem(), &leaf.key.spki, &mut errors), None);
}

#[test]
fn a_p384_key_matches_its_certificate() {
    let key = KeyPair::generate_for(&PKCS_ECDSA_P384_SHA384).unwrap();
    let leaf = leaf_for(&key);
    let mut errors = Vec::new();
    assert_eq!(match_private_key(&key.serialize_pem(), &leaf, &mut errors), KeyMatch::Matched);
    let pem = key.serialize_pem();
    assert_eq!(try_match_p256(&pem, &leaf.key.spki, &mut errors), None);
    assert_eq!(try_match_p384(&pem, &leaf.key.spki, &mut errors), Some(KeyMatch::Matched));
    assert_eq!(try_match_p384(&pem, &[], &mut errors), Some(KeyMatch::Mismatched));
    assert!(errors.is_empty());
}

#[test]
fn an_rsa_key_is_read_in_both_forms() {
    let key = rsa::RsaPrivateKey::new(&mut rand::rngs::OsRng, 1024).unwrap();
    let spki = key.to_public_key().to_public_key_der().unwrap().as_bytes().to_vec();
    let pkcs8 = key.to_pkcs8_pem(LineEnding::LF).unwrap().to_string();
    let pkcs1 = key.to_pkcs1_pem(LineEnding::LF).unwrap().to_string();
    let mut errors = Vec::new();
    for pem in [&pkcs8, &pkcs1] {
        assert_eq!(try_match_rsa(pem, &spki, &mut errors), Some(KeyMatch::Matched));
        assert_eq!(try_match_rsa(pem, b"other", &mut errors), Some(KeyMatch::Mismatched));
        assert_eq!(try_match_p256(pem, &spki, &mut errors), None);
    }
    assert!(errors.is_empty());
    let mut leaf = leaf_for(&KeyPair::generate_for(&PKCS_ECDSA_P256_SHA256).unwrap());
    leaf.key.spki = spki;
    let indented = keybox::generate::indent(&pkcs1, 8);
    assert_eq!(match_private_key(&indented, &leaf, &mut errors), KeyMatch::Matched);
}

#[test]
fn an_unreadable_key_is_a_mismatch() {
    let leaf = leaf_for(&KeyPair::generate_for(&PKCS_ECDSA_P256_SHA256).unwrap());
    let mut errors = vec!["before".to_string()];
    assert_eq!(match_private_key("no key", &leaf, &mut errors), KeyMatch::Mismatched);
    assert_eq!(
        errors,
        vec![
            "before",
            "private key present but unparseable (encrypted PKCS#8, unsupported curve, or corrupt)",
        ]
    );
    assert_eq!(errors[1], UNPARSEABLE_KEY);
}

#[test]
fn a_public_half_is_judged() {
    let mut errors = Vec::new();
    assert_eq!(judge_public_key("RSA", None, b"k", &mut errors), None);
    let same = Some(Ok(b"k".to_vec()));
    assert_eq!(judge_public_key("RSA", same, b"k", &mut errors), Some(KeyMatch::Matched));
    let other = Some(Ok(b"j".to_vec()));
    assert_eq!(judge_public_key("RSA", other, b"k", &mut errors), Some(KeyMatch::Mismatched));
    assert!(errors.is_empty());
    let failed = Some(Err("bad".to_string()));
    assert_eq!(judge_public_key("P-256", failed, b"k", &mut errors), Some(KeyMatch::Mismatched));
    assert_eq!(errors, vec!["P-256 public-side DER encode failed: bad"]);
    assert_eq!(verdict(b"k", b"k"), KeyMatch::Matched);
    assert_eq!(verdict(b"k", b"kk"), KeyMatch::Mismatched);
    assert_eq!(settle(Some(KeyMatch::Matched), &mut errors), KeyMatch::Matched);
    assert_eq!(errors.len(), 1);
    assert_eq!(settle(None, &mut errors), KeyMatch::Mismatched);
    assert_eq!(errors.len(), 2);
}
