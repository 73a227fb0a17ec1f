//! What is found out about one key of a keybox.

use crate::anchors::{
    anchor_views, detect_root_type, root_type_of, AnchorView, KeyboxRootType, TrustAnchor,
};
use crate::chain::{chain_verdict, link_verdict, verify_chain, verify_link};
use crate::clock::{check_validity_at, is_reading, read_clock, validity_at, Clock};
use crate::json::{members_of, Json};
use crate::pem::{byte_views, decode_pem_chain, lemma_pem_chain_len, pem_chain_decoded};
use crate::private_key::{match_private_key, private_key_verdict, KeyMatch, MatchView};
use crate::revocation::{lookup_revocation, revoked};
use crate::text::{
    decimal, decimal_of, optional_text, parse_usize, same_but_ascii_case,
    same_text_but_ascii_case, trim, trimmed, usize_of, views,
};
use crate::x509::{
    cert_views, certs_read, lemma_certs_read_len, parse_certificates, CertView, ParsedCert,
};
use crate::xml_model::{Certificate, CertificateChain, Key, Keybox, TextNode};
use serde_json::Value;
use vstd::prelude::*;

verus! {

/// What a name stands for that is not given.
pub const UNKNOWN_NAME: &'static str = "Unknown";

/// The format of the certificates that are read.
pub const PEM_FORMAT: &'static str = "pem";

pub const NO_CHAIN: &'static str = "missing CertificateChain";

pub const NO_PEM_CERTIFICATE: &'static str = "no Certificate[@format=\"pem\"] entries in chain";

pub const CHAIN_TOO_SHORT: &'static str =
    "certificate chain has fewer than 2 entries (needs leaf + root)";

pub const ROOT_NOT_RECOGNIZED: &'static str =
    "root certificate not recognized (Google/AOSP-EC/AOSP-RSA/Knox)";

/// What is found out about one key.
#[derive(Debug)]
pub struct KeyReport {
    pub keybox_index: usize,
    pub key_index: usize,
    pub algorithm: String,
    pub device_id: String,
    pub leaf_serial: String,
    pub leaf_subject: String,
    pub not_before: String,
    pub not_after: String,
    pub validity_ok: bool,
    pub chain_valid: bool,
    pub chain_len: usize,
    pub root_type: KeyboxRootType,
    pub key_match: KeyMatch,
    pub revocation_reason: Option<String>,
    pub revocation_serial: Option<String>,
    pub errors: Vec<String>,
    pub ok: bool,
}

/// The values of a [`KeyReport`].
#[verifier::ext_equal]
pub struct KeyReportView {
    pub keybox_index: nat,
    pub key_index: nat,
    pub algorithm: Seq<char>,
    pub device_id: Seq<char>,
    pub leaf_serial: Seq<char>,
    pub leaf_subject: Seq<char>,
    pub not_before: Seq<char>,
    pub not_after: Seq<char>,
    pub validity_ok: bool,
    pub chain_valid: bool,
    pub chain_len: nat,
    pub root_type: KeyboxRootType,
    pub key_match: KeyMatch,
    pub revocation_reason: Option<Seq<char>>,
    pub revocation_serial: Option<Seq<char>>,
    pub errors: Seq<Seq<char>>,
    pub ok: bool,
}

impl View for KeyReport {
    type V = KeyReportView;

    open spec fn view(&self) -> KeyReportView {
        KeyReportView {
            keybox_index: self.keybox_index as nat,
            key_index: self.key_index as nat,
            algorithm: self.algorithm@,
            device_id: self.device_id@,
            leaf_serial: self.leaf_serial@,
            leaf_subject: self.leaf_subject@,
            not_before: self.not_before@,
            not_after: self.not_after@,
            validity_ok: self.validity_ok,
            chain_valid: self.chain_valid,
            chain_len: self.chain_len as nat,
            root_type: self.root_type,
            key_match: self.key_match,
            revocation_reason: optional_text(self.revocation_reason),
            revocation_serial: optional_text(self.revocation_serial),
            errors: views(self.errors@),
            ok: self.ok,
        }
    }
}

/// A part of the verdict, with the errors that were found on the way.
#[verifier::ext_equal]
pub struct PartView {
    pub ok: bool,
    pub errors: Seq<Seq<char>>,
}

/// A key and where it stands: the keybox and the key counted from 1.
pub struct KeyPlace {
    pub keybox_index: nat,
    pub key_index: nat,
    pub device_id: Seq<char>,
    pub key: Key,
}

/// `name`, or `Unknown` where it is empty.
pub open spec fn name_or_unknown(name: Seq<char>) -> Seq<char> {
    if name.len() == 0 {
        UNKNOWN_NAME@
    } else {
        name
    }
}

/// The report on a key of which nothing is known yet.
pub open spec fn blank_report(place: KeyPlace) -> KeyReportView {
    KeyReportView {
        keybox_index: place.keybox_index,
        key_index: place.key_index,
        algorithm: name_or_unknown(place.key.algorithm@),
        device_id: name_or_unknown(place.device_id),
        leaf_serial: seq![],
        leaf_subject: seq![],
        not_before: seq![],
        not_after: seq![],
        validity_ok: false,
        chain_valid: false,
        chain_len: 0,
        root_type: KeyboxRootType::Unknown,
        key_match: KeyMatch::Skipped,
        revocation_reason: None,
        revocation_serial: None,
        errors: seq![],
        ok: false,
    }
}

/// Whether a certificate is read: its format is PEM and it is not blank.
pub open spec fn is_pem(certificate: Certificate) -> bool {
    same_but_ascii_case(certificate.format@, PEM_FORMAT@) && trimmed(certificate.text@).len() > 0
}

/// The trimmed texts of the certificates that are read.
pub open spec fn pem_texts(certificates: Seq<Certificate>) -> Seq<Seq<char>> {
    certificates.filter(|c: Certificate| is_pem(c)).map_values(
        |c: Certificate| trimmed(c.text@),
    )
}

/// What is wrong with the declared number of certificates. One that is no
/// number declares nothing.
pub open spec fn declared_errors(declared: Option<TextNode>, actual: nat) -> Seq<Seq<char>> {
    match declared {
        None => seq![],
        Some(node) => match usize_of(trimmed(node.text@)) {
            None => seq![],
            Some(count) => if count == actual {
                seq![]
            } else {
                seq![
                    "NumberOfCertificates declared="@ + decimal_of(count as nat)
                        + " differs from actual="@ + decimal_of(actual),
                ]
            },
        },
    }
}

/// Whether each certificate of a chain is signed by the next one.
pub open spec fn links_part(certs: Seq<CertView>) -> PartView {
    if certs.len() < 2 {
        PartView { ok: false, errors: seq![CHAIN_TOO_SHORT@] }
    } else {
        match chain_verdict(certs) {
            Ok(_) => PartView { ok: true, errors: seq![] },
            Err(e) => PartView {
                ok: false,
                errors: seq!["chain verification failed: "@ + e.message()],
            },
        }
    }
}

/// Whether a root of the kind `kind` signed itself, which is asked of a known
/// root only.
pub open spec fn root_part(root: CertView, kind: KeyboxRootType) -> PartView {
    if kind == KeyboxRootType::Unknown {
        PartView { ok: true, errors: seq![ROOT_NOT_RECOGNIZED@] }
    } else {
        match link_verdict(root, root) {
            Ok(_) => PartView { ok: true, errors: seq![] },
            Err(e) => PartView {
                ok: false,
                errors: seq!["root self-signature failed: "@ + e.message()],
            },
        }
    }
}

/// What is said of the private key of a keybox. A blank one is no key.
pub open spec fn private_part(private_key: Option<TextNode>, leaf: CertView) -> MatchView {
    match private_key {
        Some(node) => if trimmed(node.text@).len() > 0 {
            private_key_verdict(trimmed(node.text@), leaf.key.spki)
        } else {
            MatchView { verdict: KeyMatch::Skipped, errors: seq![] }
        },
        None => MatchView { verdict: KeyMatch::Skipped, errors: seq![] },
    }
}

/// The report `base` on a key after its certificates, `certs`, were looked at.
pub open spec fn chain_report(
    base: KeyReportView,
    private_key: Option<TextNode>,
    certs: Seq<CertView>,
    entries: Map<Seq<char>, Json>,
    anchors: Seq<AnchorView>,
    clock: Clock,
) -> KeyReportView {
    let leaf = certs[0];
    let root = certs.last();
    let validity = validity_at(leaf, clock);
    let links = links_part(certs);
    let root_type = root_type_of(root.key.bits, anchors);
    let root_check = root_part(root, root_type);
    let private = private_part(private_key, leaf);
    let revocation = revoked(certs, entries);
    let chain_valid = links.ok && root_check.ok;
    KeyReportView {
        leaf_serial: leaf.serial,
        leaf_subject: leaf.subject.text,
        not_before: leaf.not_before.text,
        not_after: leaf.not_after.text,
        validity_ok: validity.ok,
        chain_valid,
        chain_len: certs.len(),
        root_type,
        key_match: private.verdict,
        revocation_reason: match revocation {
            Some((_, reason)) => Some(reason),
            None => None,
        },
        revocation_serial: match revocation {
            Some((serial, _)) => Some(serial),
            None => None,
        },
        errors: base.errors + validity.errors + links.errors + root_check.errors + private.errors,
        ok: chain_valid && validity.ok && root_type != KeyboxRootType::Unknown && private.verdict
            != KeyMatch::Mismatched,
        ..base
    }
}

/// The report on a key with a certificate chain.
pub open spec fn chained_key_report(
    place: KeyPlace,
    chain: CertificateChain,
    entries: Map<Seq<char>, Json>,
    anchors: Seq<AnchorView>,
    clock: Clock,
) -> KeyReportView {
    let pems = pem_texts(chain.certificates@);
    if pems.len() == 0 {
        KeyReportView { errors: seq![NO_PEM_CERTIFICATE@], ..blank_report(place) }
    } else {
        match pem_chain_decoded(pems) {
            Err(e) => KeyReportView {
                errors: seq!["PEM decode failed: "@ + e.message_spec()],
                ..blank_report(place)
            },
            Ok(ders) => {
                let base = KeyReportView {
                    chain_len: ders.len(),
                    errors: declared_errors(chain.declared, ders.len()),
                    ..blank_report(place)
                };
                match certs_read(ders) {
                    Err(e) => KeyReportView { errors: base.errors.push(e.message()), ..base },
                    Ok(certs) => chain_report(
                        base,
                        place.key.private_key,
                        certs,
                        entries,
                        anchors,
                        clock,
                    ),
                }
            },
        }
    }
}

/// The report on a key: `entries` are the revoked certificates, `anchors` the
/// known roots, and `clock` tells the time.
pub open spec fn key_report(
    place: KeyPlace,
    entries: Map<Seq<char>, Json>,
    anchors: Seq<AnchorView>,
    clock: Clock,
) -> KeyReportView {
    match place.key.chain {
        None => KeyReportView { errors: seq![NO_CHAIN@], ..blank_report(place) },
        Some(chain) => chained_key_report(place, chain, entries, anchors, clock),
    }
}

/// The place of the key `key` of the keybox `keybox`.
pub open spec fn place_of(keybox_index: nat, key_index: nat, keybox: Keybox, key: Key) -> KeyPlace {
    KeyPlace { keybox_index, key_index, device_id: keybox.device_id@, key }
}

/// `name`, or `Unknown` where it is empty.
fn named(name: &String) -> (r: String)
    ensures
        r@ == name_or_unknown(name@),
{
    if name.as_str().is_empty() {
        UNKNOWN_NAME.to_string()
    } else {
        name.clone()
    }
}

/// Adds a message to the errors.
fn add_error(errors: &mut Vec<String>, message: String)
    ensures
        views(final(errors)@) == views(old(errors)@).push(message@),
{
    errors.push(message);
    assert(views(errors@) == views(old(errors)@).push(message@));
}

/// The trimmed texts of the certificates that are read.
pub fn pem_certificates(certificates: &Vec<Certificate>) -> (r: Vec<String>)
    ensures
        views(r@) == pem_texts(certificates@),
{
    let mut out: Vec<String> = Vec::new();
    let mut i: usize = 0;
    proof {
        reveal(Seq::filter);
        assert(views(out@) == pem_texts(certificates@.take(0)));
    }
    while i < certificates.len()
        invariant
            i <= certificates@.len(),
            views(out@) == pem_texts(certificates@.take(i as int)),
        decreases certificates@.len() - i,
    {
        let certificate = &certificates[i];
        let ghost next = certificates@.take(i + 1);
        let ghost before = out@;
        proof {
            reveal(Seq::filter);
            assert(next.drop_last() == certificates@.take(i as int));
            assert(next.last() == *certificate);
        }
        let body = trim(certificate.text.as_str());
        if same_text_but_ascii_case(certificate.format.as_str(), PEM_FORMAT)
            && !body.as_str().is_empty() {
            out.push(body);
            assert(views(out@) == views(before).push(body@));
            assert(pem_texts(next) == pem_texts(next.drop_last()).push(body@));
        } else {
            assert(pem_texts(next) == pem_texts(next.drop_last()));
        }
        i = i + 1;
    }
    assert(certificates@.take(i as int) == certificates@);
    out
}

/// Adds what is wrong with the declared number of certificates.
pub fn check_declared(declared: &Option<TextNode>, actual: usize, errors: &mut Vec<String>)
    ensures
        views(final(errors)@) == views(old(errors)@) + declared_errors(*declared, actual as nat),
{
    assert(views(errors@) == views(errors@) + Seq::<Seq<char>>::empty());
    if let Some(node) = declared {
        if let Some(count) = parse_usize(trim(node.text.as_str()).as_str()) {
            if count != actual {
                let message = "NumberOfCertificates declared=".to_string().concat(
                    decimal(count as u64).as_str(),
                ).concat(" differs from actual=").concat(decimal(actual as u64).as_str());
                add_error(errors, message);
                assert(views(errors@) == views(old(errors)@) + seq![message@]);
            }
        }
    }
}

/// Says whether each certificate of a chain is signed by the next one, and
/// adds the first that is not.
pub fn check_links(certs: &Vec<ParsedCert>, errors: &mut Vec<String>) -> (r: bool)
    ensures
        r == links_part(cert_views(certs@)).ok,
        views(final(errors)@) == views(old(errors)@) + links_part(cert_views(certs@)).errors,
{
    assert(views(errors@) == views(errors@) + Seq::<Seq<char>>::empty());
    if certs.len() < 2 {
        let message = CHAIN_TOO_SHORT.to_string();
        add_error(errors, message);
        assert(views(errors@) == views(old(errors)@) + seq![message@]);
        return false;
    }
    match verify_chain(certs) {
        Ok(_) => true,
        Err(e) => {
            let message = "chain verification failed: ".to_string().concat(e.message().as_str());
            add_error(errors, message);
            assert(views(errors@) == views(old(errors)@) + seq![message@]);
            false
        },
    }
}

/// Says whether a root of the kind `kind` is no known one or signed itself,
/// and adds what is wrong with it.
pub fn check_root(root: &ParsedCert, kind: KeyboxRootType, errors: &mut Vec<String>) -> (r: bool)
    ensures
        r == root_part(root@, kind).ok,
        views(final(errors)@) == views(old(errors)@) + root_part(root@, kind).errors,
{
    assert(views(errors@) == views(errors@) + Seq::<Seq<char>>::empty());
    if kind == KeyboxRootType::Unknown {
        let message = ROOT_NOT_RECOGNIZED.to_string();
        add_error(errors, message);
        assert(views(errors@) == views(old(errors)@) + seq![message@]);
        return true;
    }
    match verify_link(root, root) {
        Ok(_) => true,
        Err(e) => {
            let message = "root self-signature failed: ".to_string().concat(e.message().as_str());
            add_error(errors, message);
            assert(views(errors@) == views(old(errors)@) + seq![message@]);
            false
        },
    }
}

/// Says whether the private key of a keybox belongs to its leaf certificate,
/// and adds what is wrong with it.
pub fn check_private(
    private_key: &Option<TextNode>,
    leaf: &ParsedCert,
    errors: &mut Vec<String>,
) -> (r: KeyMatch)
    ensures
        r == private_part(*private_key, leaf@).verdict,
        views(final(errors)@) == views(old(errors)@) + private_part(*private_key, leaf@).errors,
{
    assert(views(errors@) == views(errors@) + Seq::<Seq<char>>::empty());
    if let Some(node) = private_key {
        let pem = trim(node.text.as_str());
        if !pem.as_str().is_empty() {
            return match_private_key(pem.as_str(), leaf, errors);
        }
    }
    KeyMatch::Skipped
}

/// The report on a key of which nothing is known yet.
fn new_report(keybox_index: usize, key_index: usize, keybox: &Keybox, key: &Key) -> (r: KeyReport)
    ensures
        r@ == blank_report(place_of(keybox_index as nat, key_index as nat, *keybox, *key)),
{
    let report = KeyReport {
        keybox_index,
        key_index,
        algorithm: named(&key.algorithm),
        device_id: named(&keybox.device_id),
        leaf_serial: String::new(),
        leaf_subject: String::new(),
        not_before: String::new(),
        not_after: String::new(),
        validity_ok: false,
        chain_valid: false,
        chain_len: 0,
        root_type: KeyboxRootType::Unknown,
        key_match: KeyMatch::Skipped,
        revocation_reason: None,
        revocation_serial: None,
        errors: Vec::new(),
        ok: false,
    };
    assert(views(report.errors@) == Seq::<Seq<char>>::empty());
    report
}

/// Looks at the certificates of a key, and says in the report what is found.
pub fn inspect_chain(
    base: KeyReport,
    private_key: &Option<TextNode>,
    certs: &Vec<ParsedCert>,
    entries: &serde_json::Map<String, Value>,
    anchors: &Vec<TrustAnchor>,
    clock: &Clock,
) -> (r: KeyReport)
    requires
        certs@.len() > 0,
    ensures
        r@ == chain_report(
            base@,
            *private_key,
            cert_views(certs@),
            members_of(*entries),
            anchor_views(anchors@),
            *clock,
        ),
{
    let mut report = base;
    let mut errors: Vec<String> = report.errors;
    let leaf = &certs[0];
    let root = &certs[certs.len() - 1];
    assert(cert_views(certs@)[0] == leaf@);
    assert(cert_views(certs@).last() == root@);

    report.leaf_serial = leaf.serial.clone();
    report.leaf_subject = leaf.subject.text.clone();
    report.not_before = leaf.not_before.text.clone();
    report.not_after = leaf.not_after.text.clone();
    report.chain_len = certs.len();
    report.validity_ok = check_validity_at(leaf, clock, &mut errors);
    let links_ok = check_links(certs, &mut errors);
    report.root_type = detect_root_type(root, anchors);
    let root_ok = check_root(root, report.root_type, &mut errors);
    report.chain_valid = links_ok && root_ok;
    report.key_match = check_private(private_key, leaf, &mut errors);
    report.errors = errors;
    match lookup_revocation(certs, entries) {
        Some((serial, reason)) => {
            report.revocation_serial = Some(serial);
            report.revocation_reason = Some(reason);
        },
        None => {
            report.revocation_serial = None;
            report.revocation_reason = None;
        },
    }
    report.ok = report.chain_valid && report.validity_ok && report.root_type
        != KeyboxRootType::Unknown && report.key_match != KeyMatch::Mismatched;
    report
}

/// Checks one key of a keybox at the time `clock`: the keybox and the key are
/// counted from 1.
pub fn check_key_at(
    keybox_index: usize,
    key_index: usize,
    keybox: &Keybox,
    key: &Key,
    entries: &serde_json::Map<String, Value>,
    anchors: &Vec<TrustAnchor>,
    clock: &Clock,
) -> (r: KeyReport)
    ensures
        r@ == key_report(
            place_of(keybox_index as nat, key_index as nat, *keybox, *key),
            members_of(*entries),
            anchor_views(anchors@),
            *clock,
        ),
{
    let mut report = new_report(keybox_index, key_index, keybox, key);
    let chain = match &key.chain {
        Some(chain) => chain,
        None => {
            add_error(&mut report.errors, NO_CHAIN.to_string());
            return report;
        },
    };
    let pems = pem_certificates(&chain.certificates);
    if pems.len() == 0 {
        add_error(&mut report.errors, NO_PEM_CERTIFICATE.to_string());
        return report;
    }
    let ders = match decode_pem_chain(&pems) {
        Ok(ders) => ders,
        Err(e) => {
            add_error(
                &mut report.errors,
                "PEM decode failed: ".to_string().concat(e.message().as_str()),
            );
            return report;
        },
    };
    report.chain_len = ders.len();
    check_declared(&chain.declared, ders.len(), &mut report.errors);
    match parse_certificates(&ders) {
        Ok(certs) => {
            proof {
                lemma_pem_chain_len(views(pems@));
                lemma_certs_read_len(byte_views(ders@));
            }
            inspect_chain(report, &key.private_key, &certs, entries, anchors, clock)
        },
        Err(e) => {
            add_error(&mut report.errors, e.message());
            report
        },
    }
}

/// Checks one key of a keybox now, at the time that the clock tells.
pub fn check_key(
    keybox_index: usize,
    key_index: usize,
    keybox: &Keybox,
    key: &Key,
    entries: &serde_json::Map<String, Value>,
    anchors: &Vec<TrustAnchor>,
) -> (r: KeyReport)
    ensures
        exists|clock: Clock|
            {
                &&& is_reading(clock)
                &&& r@ == #[trigger] key_report(
                    place_of(keybox_index as nat, key_index as nat, *keybox, *key),
                    members_of(*entries),
                    anchor_views(anchors@),
                    clock,
                )
            },
{
    let clock = read_clock();
    check_key_at(keybox_index, key_index, keybox, key, entries, anchors, &clock)
}

} // verus!
