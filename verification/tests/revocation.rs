use keybox::revocation::{
    choose_revocation, load_revocation, lookup_revocation, read_status, revocation_entries,
    status_request, status_request_now, FetchError, LoadAction, LoadEvent, Revocation,
    RevocationCache, RevocationSource, StatusReply, REVOCATION_CACHE_TTL_NANOS,
};
use keybox::x509::{parse_certificate, ParsedCert};
use rcgen::{
    CertificateParams, DistinguishedName, DnType, KeyPair, SerialNumber, PKCS_ECDSA_P256_SHA256,
};
use serde_json::Value;

const EMBEDDED: &[u8] = br#"{"entries": {"1f": {"status": "REVOKED", "reason": "SOFTWARE_FLAW"}}}"#;

fn json(text: &str) -> Value {
    serde_json::from_str(text).unwrap()
}

fn members(text: &str) -> serde_json::Map<String, Value> {
    json(text).as_object().unwrap().clone()
}

fn cert_with_serial(name: &str, serial: u64) -> ParsedCert {
    let mut params = CertificateParams::default();
    params.serial_number = Some(SerialNumber::from(serial));
    params.distinguished_name = DistinguishedName::new();
    params.distinguished_name.push(DnType::CommonName, name);
    let key = KeyPair::generate_for(&PKCS_ECDSA_P256_SHA256).expect("rcgen key");
    let cert = params.self_signed(&key).expect("rcgen build");
    parse_certificate(cert.der().as_ref()).expect("x509 parse")
}

#[test]
fn lookup_revocation_finds_serial() {
    let parsed = cert_with_serial("rev-test", 0xdead_beefu64);

    let mut entries = serde_json::Map::new();
    entries.insert("deadbeef".to_string(), json(r#"{"reason": "KEY_COMPROMISE"}"#));

    let result = lookup_revocation(&vec![parsed], &entries);
    assert_eq!(result, Some(("deadbeef".to_string(), "KEY_COMPROMISE".to_string())));
}

#[test]
fn lookup_revocation_returns_none_when_clean() {
    let parsed = cert_with_serial("clean", 0x1234u64);

    let mut entries = serde_json::Map::new();
    entries.insert("deadbeef".to_string(), json(r#"{"reason": "KEY_COMPROMISE"}"#));

    assert_eq!(lookup_revocation(&vec![parsed], &entries), None);
}

#[test]
fn embedded_revocation_parses() {
    let used = choose_revocation(Err(FetchError::Get), EMBEDDED);
    assert!(used.data.get("entries").is_some(), "embedded status.json has entries field");
    assert_eq!(used.data, json(std::str::from_utf8(EMBEDDED).unwrap()));
}

#[test]
fn an_entry_without_a_reason_has_an_unknown_one() {
    let certs = vec![cert_with_serial("a", 0x1f), cert_with_serial("b", 0x2f)];
    for entry in ["{}", "[]", "null", r#"{"reason": 7}"#, r#""text""#] {
        let entries = members(&format!(r#"{{"1f": {entry}}}"#));
        assert_eq!(
            lookup_revocation(&certs, &entries),
            Some(("1f".to_string(), "UNKNOWN".to_string())),
            "{entry}"
        );
    }
    // Only the leaf is looked up.
    assert_eq!(lookup_revocation(&certs, &members(r#"{"2f": {"reason": "X"}}"#)), None);
    assert_eq!(lookup_revocation(&certs, &serde_json::Map::new()), None);
    assert_eq!(lookup_revocation(&Vec::new(), &members(r#"{"1f": {}}"#)), None);
}

#[test]
fn entries_are_those_of_the_list() {
    assert_eq!(revocation_entries(&json(r#"{"entries": {"a": 1}}"#)), members(r#"{"a": 1}"#));
    for list in ["{}", "[]", "7", r#"{"entries": []}"#, r#"{"other": {"a": 1}}"#] {
        assert!(revocation_entries(&json(list)).is_empty(), "{list}");
    }
}

#[test]
fn the_request_is_fixed_but_for_the_time() {
    let request = status_request(Some(1_700_000_000)).unwrap();
    assert_eq!(request.url, "https://android.googleapis.com/attestation/status?ts=1700000000");
    assert_eq!(request.timeout_secs, 12);
    let headers: Vec<(&str, &str)> = request.headers.iter().map(|h| (h.name, h.value)).collect();
    assert_eq!(
        headers,
        vec![
            ("Cache-Control", "max-age=0, no-cache, no-store, must-revalidate"),
            ("Pragma", "no-cache"),
            ("Expires", "0"),
        ]
    );
    assert_eq!(status_request(None).unwrap_err(), FetchError::ClockBeforeEpoch);
    let now = status_request_now().unwrap();
    let ts: u64 = now.url.rsplit('=').next().unwrap().parse().unwrap();
    assert!(ts > 1_700_000_000, "{}", now.url);
}

#[test]
fn a_reply_is_read_or_says_why_not() {
    let body = StatusReply::Body { text: r#"{"entries": {}}"#.to_string() };
    assert_eq!(read_status(body).unwrap(), json(r#"{"entries": {}}"#));
    let wrong = StatusReply::Body { text: "<html>".to_string() };
    assert_eq!(read_status(wrong).unwrap_err(), FetchError::Json);
    assert_eq!(read_status(StatusReply::NoAnswer).unwrap_err(), FetchError::Get);
    assert_eq!(read_status(StatusReply::NoBody).unwrap_err(), FetchError::Body);
    assert_eq!(FetchError::ClockBeforeEpoch.message(), "system clock before epoch");
    assert_eq!(FetchError::Get.message(), "revocation HTTP GET failed");
    assert_eq!(FetchError::Body.message(), "revocation body read failed");
    assert_eq!(FetchError::Json.message(), "revocation JSON parse failed");
}

#[test]
fn a_fetched_list_is_handed_on_as_it_is() {
    for text in ["null", "true", "-1.5e3", r#""text""#, r#"[1, {"a": null}]"#, r#"{"b": [2]}"#] {
        let chosen = choose_revocation(Ok(json(text)), EMBEDDED);
        assert_eq!(chosen.data, json(text));
        let mut cache = RevocationCache::new();
        let fetched = LoadEvent::Fetched { result: Ok(json(text)) };
        let first = used(load_revocation(&mut cache, 1, fetched, EMBEDDED)).unwrap();
        let again = used(load_revocation(&mut cache, 2, LoadEvent::Start, EMBEDDED)).unwrap();
        assert_eq!(first.data, json(text));
        assert_eq!(again.data, json(text));
    }
}

#[test]
fn the_fetched_list_comes_first() {
    let online = choose_revocation(Ok(json(r#"{"entries": {"2": {}}}"#)), EMBEDDED);
    assert_eq!(online.source(), RevocationSource::Online);
    assert_eq!(online.online_error(), None);
    assert_eq!(online.data, json(r#"{"entries": {"2": {}}}"#));

    let embedded = choose_revocation(Err(FetchError::Body), EMBEDDED);
    assert_eq!(embedded.source(), RevocationSource::Embedded);
    assert_eq!(embedded.online_error().as_deref(), Some("revocation body read failed"));

    let nothing = choose_revocation(Err(FetchError::Json), b"not json");
    assert_eq!(nothing.source(), RevocationSource::Embedded);
    assert_eq!(nothing.data, json(r#"{"entries": {}}"#));
}

fn used(action: LoadAction) -> Option<Revocation> {
    match action {
        LoadAction::Use { revocation } => Some(revocation),
        LoadAction::Fetch => None,
    }
}

#[test]
fn a_list_is_used_while_it_is_fresh() {
    let mut cache = RevocationCache::new();
    assert!(used(load_revocation(&mut cache, 5, LoadEvent::Start, EMBEDDED)).is_none());
    let fetched = LoadEvent::Fetched { result: Ok(json(r#"{"entries": {"3": {}}}"#)) };
    let first = used(load_revocation(&mut cache, 100, fetched, EMBEDDED)).unwrap();
    assert_eq!(first.source(), RevocationSource::Online);

    let last_fresh = 100 + REVOCATION_CACHE_TTL_NANOS - 1;
    for now in [0, 100, last_fresh] {
        let again = used(load_revocation(&mut cache, now, LoadEvent::Start, EMBEDDED)).unwrap();
        assert_eq!(again.data, first.data);
        assert_eq!(again.source(), RevocationSource::Online);
    }
    assert!(used(load_revocation(&mut cache, last_fresh + 1, LoadEvent::Start, EMBEDDED)).is_none());

    // A failure is kept as well.
    let failed = LoadEvent::Fetched { result: Err(FetchError::Get) };
    let second = used(load_revocation(&mut cache, last_fresh + 2, failed, EMBEDDED)).unwrap();
    assert_eq!(second.source(), RevocationSource::Embedded);
    let again = used(load_revocation(&mut cache, last_fresh + 3, LoadEvent::Start, EMBEDDED)).unwrap();
    assert_eq!(again.online_error().as_deref(), Some("revocation HTTP GET failed"));
    assert_eq!(REVOCATION_CACHE_TTL_NANOS, 60_000_000_000);
}
