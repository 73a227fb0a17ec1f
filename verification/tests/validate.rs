use keybox::anchors::{trust_anchors, KeyboxRootType, RootKeys, TrustAnchor};
use keybox::clock::{
    check_validity, check_validity_at, read_clock, secs_since_epoch, Clock, PRE_NTP_EPOCH_SECS,
};
use keybox::pem::decode_pem_body;
use keybox::private_key::KeyMatch;
use keybox::report::{check_key, check_key_at, pem_certificates, KeyReport};
use keybox::revocation::{choose_revocation, FetchError, Revocation, RevocationSource};
use keybox::validate::{
    conclude, keybox_text, summarize, validate, validate_full, KeyboxError, MAX_KEYBOX_BYTES,
};
use keybox::x509::{parse_certificate, ParsedCert};
use keybox::xml_model::{
    AndroidAttestation, Certificate, CertificateChain, Key, Keybox, TextNode,
};
use quick_xml::events::{BytesStart, Event};
use quick_xml::Reader;
use rcgen::{
    CertificateParams, DistinguishedName, DnType, KeyPair, SerialNumber, PKCS_ECDSA_P256_SHA256,
};
use serde_json::Value;
use std::time::{Duration, UNIX_EPOCH};

/// The value of an attribute, or nothing.
fn attribute(tag: &BytesStart, name: &str) -> String {
    match tag.try_get_attribute(name).unwrap() {
        Some(a) => a.unescape_value().unwrap().into_owned(),
        None => String::new(),
    }
}

/// Reads the elements of a keybox file that the library looks at.
fn parse(xml: &str) -> Option<AndroidAttestation> {
    let mut reader = Reader::from_str(xml);
    let mut keyboxes: Vec<Keybox> = Vec::new();
    let mut open: Vec<String> = Vec::new();
    let mut roots = 0;
    loop {
        match reader.read_event().ok()? {
            Event::Start(tag) => {
                let name = String::from_utf8(tag.name().as_ref().to_vec()).unwrap();
                match name.as_str() {
                    "Keybox" => keyboxes.push(Keybox {
                        device_id: attribute(&tag, "DeviceID"),
                        keys: Vec::new(),
                    }),
                    "Key" => keyboxes.last_mut()?.keys.push(Key {
                        algorithm: attribute(&tag, "algorithm"),
                        private_key: None,
                        chain: None,
                    }),
                    "CertificateChain" => {
                        keyboxes.last_mut()?.keys.last_mut()?.chain =
                            Some(CertificateChain { declared: None, certificates: Vec::new() })
                    }
                    "Certificate" => {
                        let chain = keyboxes.last_mut()?.keys.last_mut()?.chain.as_mut()?;
                        chain.certificates.push(Certificate {
                            format: attribute(&tag, "format"),
                            text: String::new(),
                        });
                    }
                    _ => {}
                }
                if open.is_empty() {
                    roots += 1;
                }
                open.push(name);
            }
            Event::Text(text) => {
                let text = text.unescape().ok()?.into_owned();
                match open.last().map(String::as_str) {
                    Some("PrivateKey") => {
                        keyboxes.last_mut()?.keys.last_mut()?.private_key = Some(TextNode { text })
                    }
                    Some("NumberOfCertificates") => {
                        let chain = keyboxes.last_mut()?.keys.last_mut()?.chain.as_mut()?;
                        chain.declared = Some(TextNode { text });
                    }
                    Some("Certificate") => {
                        let chain = keyboxes.last_mut()?.keys.last_mut()?.chain.as_mut()?;
                        chain.certificates.last_mut()?.text = text;
                    }
                    _ => {}
                }
            }
            Event::End(_) => {
                open.pop();
            }
            Event::Eof => break,
            _ => {}
        }
    }
    if roots == 1 {
        Some(AndroidAttestation { keyboxes })
    } else {
        None
    }
}

fn offline() -> Revocation {
    choose_revocation(Err(FetchError::Get), br#"{"entries": {"beef": {"reason": "STOLEN"}}}"#)
}

fn never() -> Revocation {
    panic!("the list of revoked certificates is not needed")
}

fn named(name: &str) -> CertificateParams {
    let mut params = CertificateParams::default();
    params.distinguished_name = DistinguishedName::new();
    params.distinguished_name.push(DnType::CommonName, name);
    params
}

/// A leaf key, the PEM texts of its chain of two, and the anchors with its root.
struct Fixture {
    key_pem: String,
    leaf_pem: String,
    root_pem: String,
    leaf: ParsedCert,
    anchors: Vec<TrustAnchor>,
}

fn fixture() -> Fixture {
    let root_key = KeyPair::generate_for(&PKCS_ECDSA_P256_SHA256).unwrap();
    let root = named("root").self_signed(&root_key).unwrap();
    let key = KeyPair::generate_for(&PKCS_ECDSA_P256_SHA256).unwrap();
    let mut params = named("leaf");
    params.serial_number = Some(SerialNumber::from(0xbeefu64));
    params.not_before = rcgen::date_time_ymd(2021, 1, 1);
    params.not_after = rcgen::date_time_ymd(2051, 1, 1);
    let leaf = params.signed_by(&key, &root, &root_key).unwrap();
    let anchors = trust_anchors(&RootKeys {
        google: Vec::new(),
        aosp_ec: Vec::new(),
        aosp_rsa: Vec::new(),
        knox: root_key.public_key_pem().into_bytes(),
    });
    Fixture {
        key_pem: key.serialize_pem(),
        leaf_pem: leaf.pem(),
        root_pem: root.pem(),
        leaf: parse_certificate(leaf.der().as_ref()).unwrap(),
        anchors,
    }
}

fn pem_node(text: &str) -> Certificate {
    Certificate { format: "PEM".to_string(), text: format!("\n{text}\n   ") }
}

fn text_node(text: &str) -> Option<TextNode> {
    Some(TextNode { text: text.to_string() })
}

impl Fixture {
    fn key(&self) -> Key {
        Key {
            algorithm: "ecdsa".to_string(),
            private_key: text_node(&keybox::generate::indent(&self.key_pem, 12)),
            chain: Some(CertificateChain {
                declared: text_node(" 2 "),
                certificates: vec![pem_node(&self.leaf_pem), pem_node(&self.root_pem)],
            }),
        }
    }

    fn check(&self, key: &Key, clock: &Clock) -> KeyReport {
        let keybox = Keybox { device_id: "dev".to_string(), keys: Vec::new() };
        let entries = serde_json::Map::new();
        check_key_at(3, 4, &keybox, key, &entries, &self.anchors, clock)
    }
}

/// The start of 2024.
const NOW: Clock = Clock { secs: 1_704_067_200, nanos: 1_704_067_200_000_000_000 };

#[test]
fn empty_data_rejected() {
    assert!(validate(&[], &Vec::new(), parse, never).is_err());
    let error = validate(&[], &Vec::new(), parse, never).unwrap_err();
    assert_eq!(error.message(), "keybox data is empty");
}

#[test]
fn oversized_data_rejected() {
    let huge = vec![0u8; MAX_KEYBOX_BYTES + 1];
    let err = validate(&huge, &Vec::new(), parse, never).unwrap_err().message();
    assert!(err.contains("byte cap"), "expected size cap error, got: {err}");
    assert_eq!(err, "keybox data exceeds 1048576 byte cap (1048577 bytes)");
}

#[test]
fn non_utf8_rejected() {
    assert!(validate(&[0xff, 0xfe, 0xfd], &Vec::new(), parse, never).is_err());
    let error = keybox_text(&[0xff, 0xfe, 0xfd]).unwrap_err();
    assert_eq!(error.message(), "keybox data is not valid UTF-8");
}

#[test]
fn missing_keybox_rejected() {
    let xml = b"<?xml version=\"1.0\"?><AndroidAttestation></AndroidAttestation>";
    assert!(validate(xml, &Vec::new(), parse, never).is_err());
    let error = validate(xml, &Vec::new(), parse, never).unwrap_err();
    assert_eq!(error.message(), "no <Keybox> elements found");
}

#[test]
fn data_of_the_largest_size_is_text() {
    let full = vec![b'x'; MAX_KEYBOX_BYTES];
    assert_eq!(keybox_text(&full).unwrap().len(), MAX_KEYBOX_BYTES);
    assert_eq!(keybox_text("\u{e9}".as_bytes()).unwrap(), "\u{e9}");
}

#[test]
fn unreadable_xml_is_rejected() {
    let error = validate_full(b"no xml", &Vec::new(), parse, never).unwrap_err();
    assert_eq!(error.message(), "keybox XML parse failed");
}

#[test]
fn a_file_without_keys_is_rejected() {
    let xml = b"<AndroidAttestation><Keybox></Keybox></AndroidAttestation>";
    let error = validate_full(xml, &Vec::new(), parse, offline).unwrap_err();
    assert_eq!(error.message(), "no <Key> elements found in any <Keybox>");
    assert!(matches!(error, KeyboxError::NoKey));
}

#[test]
fn a_good_key_passes_every_check() {
    let f = fixture();
    let report = f.check(&f.key(), &NOW);
    assert_eq!(report.errors, Vec::<String>::new());
    assert!(report.ok && report.chain_valid && report.validity_ok);
    assert_eq!((report.keybox_index, report.key_index, report.chain_len), (3, 4, 2));
    assert_eq!(report.root_type, KeyboxRootType::Knox);
    assert_eq!(report.key_match, KeyMatch::Matched);
    assert_eq!((report.algorithm.as_str(), report.device_id.as_str()), ("ecdsa", "dev"));
    assert_eq!(report.leaf_serial, "beef");
    assert_eq!(report.leaf_subject, "CN=leaf");
    assert_eq!(report.not_before, f.leaf.not_before.text);
    assert_eq!(report.not_after, f.leaf.not_after.text);
    assert_eq!((report.revocation_serial, report.revocation_reason), (None, None));
}

#[test]
fn a_revoked_key_is_reported_and_still_passes() {
    let f = fixture();
    let keybox = Keybox { device_id: String::new(), keys: Vec::new() };
    let mut entries = serde_json::Map::new();
    let entry: Value = serde_json::from_str(r#"{"reason": "STOLEN"}"#).unwrap();
    entries.insert("beef".to_string(), entry);
    let report = check_key_at(1, 1, &keybox, &f.key(), &entries, &f.anchors, &NOW);
    assert_eq!(report.revocation_serial.as_deref(), Some("beef"));
    assert_eq!(report.revocation_reason.as_deref(), Some("STOLEN"));
    assert!(report.ok);
    assert_eq!(report.device_id, "Unknown");
}

#[test]
fn a_key_without_certificates_is_rejected() {
    let f = fixture();
    let mut key = f.key();
    key.chain = None;
    key.algorithm = String::new();
    let report = f.check(&key, &NOW);
    assert_eq!(report.errors, vec!["missing CertificateChain"]);
    assert_eq!(report.algorithm, "Unknown");
    assert!(!report.ok);
    let mut key = f.key();
    key.chain = Some(CertificateChain {
        declared: None,
        certificates: vec![
            Certificate { format: "der".to_string(), text: "x".to_string() },
            Certificate { format: "pem".to_string(), text: " \n ".to_string() },
        ],
    });
    let report = f.check(&key, &NOW);
    assert_eq!(report.errors, vec!["no Certificate[@format=\"pem\"] entries in chain"]);
    assert_eq!(report.key_match, KeyMatch::Skipped);
}

#[test]
fn certificates_are_picked_by_their_format() {
    let node = |format: &str, text: &str| Certificate {
        format: format.to_string(),
        text: text.to_string(),
    };
    let picked = pem_certificates(&vec![
        node("pem", " a "),
        node("der", "b"),
        node("PeM", "c\n"),
        node("pem", "  "),
        node("", "d"),
    ]);
    assert_eq!(picked, vec!["a", "c"]);
}

#[test]
fn an_undecodable_certificate_is_rejected() {
    let f = fixture();
    let mut key = f.key();
    key.chain.as_mut().unwrap().certificates[1].text = "junk".to_string();
    let report = f.check(&key, &NOW);
    assert_eq!(report.errors, vec!["PEM decode failed: certificate #2 PEM decode"]);
    assert_eq!(report.chain_len, 0);

    let mut key = f.key();
    key.chain.as_mut().unwrap().certificates[0].text =
        "-----BEGIN CERTIFICATE-----\nAAEC\n-----END CERTIFICATE-----".to_string();
    key.chain.as_mut().unwrap().declared = text_node("5");
    let report = f.check(&key, &NOW);
    assert_eq!(report.chain_len, 2);
    assert_eq!(report.errors[0], "NumberOfCertificates declared=5 differs from actual=2");
    assert!(report.errors[1].starts_with("certificate #1 ASN.1 parse failed: "));
    assert_eq!(report.errors.len(), 2);
}

#[test]
fn the_declared_number_decides_nothing() {
    let f = fixture();
    for (declared, errors) in [("3", 1), ("+2", 0), ("two", 0), ("", 0), ("-1", 0)] {
        let mut key = f.key();
        key.chain.as_mut().unwrap().declared = text_node(declared);
        let report = f.check(&key, &NOW);
        assert!(report.ok, "{declared}");
        assert_eq!(report.errors.len(), errors, "{declared}");
    }
}

#[test]
fn a_short_chain_is_rejected() {
    let f = fixture();
    let mut key = f.key();
    key.chain.as_mut().unwrap().certificates.remove(0);
    key.private_key = None;
    let report = f.check(&key, &NOW);
    assert_eq!(
        report.errors,
        vec![
            "NumberOfCertificates declared=2 differs from actual=1",
            "certificate chain has fewer than 2 entries (needs leaf + root)",
        ]
    );
    assert_eq!(report.root_type, KeyboxRootType::Knox);
    assert_eq!(report.key_match, KeyMatch::Skipped);
    assert!(!report.ok && !report.chain_valid);
}

#[test]
fn an_unknown_root_is_rejected() {
    let f = fixture();
    let keybox = Keybox { device_id: String::new(), keys: Vec::new() };
    let entries = serde_json::Map::new();
    let report = check_key_at(1, 1, &keybox, &f.key(), &entries, &Vec::new(), &NOW);
    assert_eq!(
        report.errors,
        vec!["root certificate not recognized (Google/AOSP-EC/AOSP-RSA/Knox)"]
    );
    assert!(report.chain_valid && !report.ok);
}

#[test]
fn a_root_that_did_not_sign_itself_is_rejected() {
    let f = fixture();
    let mut key = f.key();
    // The leaf takes the place of the root, and its key that of an anchor.
    let anchors = vec![TrustAnchor { kind: KeyboxRootType::Google, key: f.leaf.key.bits.clone() }];
    key.chain.as_mut().unwrap().certificates.swap(0, 1);
    key.private_key = text_node("   ");
    let keybox = Keybox { device_id: String::new(), keys: Vec::new() };
    let entries = serde_json::Map::new();
    let report = check_key_at(1, 1, &keybox, &key, &entries, &anchors, &NOW);
    assert_eq!(
        report.errors,
        vec![
            "chain verification failed: hop 0 -> 1",
            "root self-signature failed: issuer/subject DER mismatch: son issuer=CN=root, father subject=CN=leaf",
        ]
    );
    assert_eq!(report.key_match, KeyMatch::Skipped);
    assert!(!report.ok);
}

#[test]
fn a_wrong_private_key_is_rejected() {
    let f = fixture();
    let mut key = f.key();
    let other = KeyPair::generate_for(&PKCS_ECDSA_P256_SHA256).unwrap();
    key.private_key = text_node(&other.serialize_pem());
    let report = f.check(&key, &NOW);
    assert_eq!(report.key_match, KeyMatch::Mismatched);
    assert!(report.errors.is_empty() && !report.ok);
    key.private_key = None;
    let report = f.check(&key, &NOW);
    assert_eq!(report.key_match, KeyMatch::Skipped);
    assert!(report.ok);
}

#[test]
fn validity_includes_both_ends() {
    let leaf = fixture().leaf;
    let first = leaf.not_before.nanos;
    let last = leaf.not_after.nanos;
    let at = |nanos: i128| Clock { secs: PRE_NTP_EPOCH_SECS, nanos };
    let mut errors = Vec::new();
    assert!(check_validity_at(&leaf, &at(first), &mut errors));
    assert!(!check_validity_at(&leaf, &at(first - 1), &mut errors));
    assert!(check_validity_at(&leaf, &at(last), &mut errors));
    assert!(!check_validity_at(&leaf, &at(last + 1), &mut errors));
    assert!(errors.is_empty());
    assert!(check_validity(&leaf, &mut errors));
    assert!(errors.is_empty());
    let now = read_clock();
    assert_eq!(now.nanos / 1_000_000_000_000, i128::from(now.secs) / 1_000);
}

#[test]
fn seconds_are_whole_and_start_in_1970() {
    let after = |nanos: u64| UNIX_EPOCH + Duration::from_nanos(nanos);
    assert_eq!(secs_since_epoch(UNIX_EPOCH), Some(0));
    assert_eq!(secs_since_epoch(after(1_999_999_999)), Some(1));
    assert_eq!(secs_since_epoch(after(1_577_836_800_000_000_000)), Some(PRE_NTP_EPOCH_SECS));
    assert_eq!(secs_since_epoch(UNIX_EPOCH - Duration::from_secs(1)), None);
}

#[test]
fn an_unset_clock_skips_the_validity() {
    let f = fixture();
    let clock = Clock { secs: PRE_NTP_EPOCH_SECS - 1, nanos: 0 };
    let report = f.check(&f.key(), &clock);
    assert_eq!(report.errors, vec!["system clock pre-2020, skipping cert validity check"]);
    assert!(report.ok && report.validity_ok);
    let expired = Clock { secs: 2_600_000_000, nanos: 2_600_000_000_000_000_000 };
    let report = f.check(&f.key(), &expired);
    assert!(report.errors.is_empty() && !report.ok && !report.validity_ok);
}

#[test]
fn the_real_clock_is_read() {
    let f = fixture();
    let keybox = Keybox { device_id: "d".to_string(), keys: Vec::new() };
    let report = check_key(1, 2, &keybox, &f.key(), &serde_json::Map::new(), &f.anchors);
    assert!(report.ok, "{report:?}");
}

fn file_with(keys: &str) -> String {
    format!(
        "<?xml version=\"1.0\"?><AndroidAttestation><Keybox DeviceID=\"d1\">{keys}</Keybox></AndroidAttestation>"
    )
}

impl Fixture {
    fn key_xml(&self) -> String {
        format!(
            "<Key algorithm=\"ecdsa\"><PrivateKey format=\"pem\">\n{}</PrivateKey><CertificateChain><NumberOfCertificates>2</NumberOfCertificates><Certificate format=\"pem\">\n{}</Certificate><Certificate format=\"pem\">\n{}</Certificate></CertificateChain></Key>",
            self.key_pem, self.leaf_pem, self.root_pem
        )
    }
}

#[test]
fn one_good_key_is_enough() {
    let f = fixture();
    let xml = file_with(&format!("<Key algorithm=\"rsa\"></Key>{}", f.key_xml()));
    assert!(validate(xml.as_bytes(), &f.anchors, parse, offline).is_ok());
    let report = validate_full(xml.as_bytes(), &f.anchors, parse, offline).unwrap();
    assert!(report.ok && report.errors.is_empty());
    assert_eq!(report.revocation_source, RevocationSource::Embedded);
    assert_eq!(report.revocation_online_error.as_deref(), Some("revocation HTTP GET failed"));
    assert_eq!(report.keys.len(), 2);
    assert_eq!(report.keys[0].errors, vec!["missing CertificateChain"]);
    assert!(report.keys[1].ok);
    assert_eq!(report.keys[1].revocation_reason.as_deref(), Some("STOLEN"));
    assert_eq!(report.keys[1].device_id, "d1");
}

#[test]
fn a_failed_file_names_every_key() {
    let f = fixture();
    let xml = format!(
        "<AndroidAttestation><Keybox><Key algorithm=\"rsa\"></Key></Keybox><Keybox><Key></Key>{}</Keybox></AndroidAttestation>",
        f.key_xml().replace("<NumberOfCertificates>2<", "<NumberOfCertificates>9<")
    );
    let error = validate(xml.as_bytes(), &Vec::new(), parse, offline).unwrap_err();
    assert_eq!(
        error.message(),
        "keybox validation failed: Keybox#1/Key#1 (rsa): missing CertificateChain | Keybox#2/Key#1 (Unknown): missing CertificateChain | Keybox#2/Key#2 (ecdsa): NumberOfCertificates declared=9 differs from actual=2; root certificate not recognized (Google/AOSP-EC/AOSP-RSA/Knox)"
    );
}

#[test]
fn a_generated_keybox_is_read_but_not_trusted() {
    let xml = keybox::generate::generate().unwrap();
    let report = validate_full(xml.as_bytes(), &Vec::new(), parse, offline).unwrap();
    assert_eq!(report.keys.len(), 2);
    assert_eq!(report.keys[0].algorithm, "ecdsa");
    assert_eq!(report.keys[0].device_id, "sw");
    assert_eq!(report.keys[0].chain_len, 1);
    assert_eq!(report.keys[0].leaf_subject, "CN=Android Keybox");
    assert_eq!(report.keys[0].key_match, KeyMatch::Matched);
    assert_eq!(
        report.keys[0].errors,
        vec![
            "certificate chain has fewer than 2 entries (needs leaf + root)",
            "root certificate not recognized (Google/AOSP-EC/AOSP-RSA/Knox)",
        ]
    );
    assert_eq!(report.keys[1].errors, vec!["missing CertificateChain"]);
    assert!(!report.ok && conclude(&report).is_err());

    // Not even where its own key is that of a known root.
    let attestation = parse(&xml).unwrap();
    let chain = attestation.keyboxes[0].keys[0].chain.as_ref().unwrap();
    let der = decode_pem_body(&chain.certificates[0].text).unwrap();
    let key = parse_certificate(&der).unwrap().key.bits;
    let anchors = vec![TrustAnchor { kind: KeyboxRootType::Google, key }];
    assert!(validate(xml.as_bytes(), &anchors, parse, offline).is_err());
    let report = validate_full(xml.as_bytes(), &anchors, parse, offline).unwrap();
    assert_eq!(report.keys[0].root_type, KeyboxRootType::Google);
    assert!(!report.ok);
}

#[test]
fn reports_are_summed_up() {
    let f = fixture();
    let good = f.check(&f.key(), &NOW);
    let mut key = f.key();
    key.chain = None;
    let bad = f.check(&key, &NOW);
    let report = summarize(vec![bad], offline()).unwrap();
    assert!(!report.ok);
    assert_eq!(
        conclude(&report).unwrap_err().message(),
        "keybox validation failed: Keybox#3/Key#4 (ecdsa): missing CertificateChain"
    );
    let report = summarize(vec![good], offline()).unwrap();
    assert!(report.ok && conclude(&report).is_ok());
    assert!(summarize(Vec::new(), offline()).is_err());
}
