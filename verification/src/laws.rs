//! What holds of verdicts: on signatures, chains, keys, and whole files.

use crate::anchors::{anchor_of, anchors_of, root_type_of, AnchorView, KeyboxRootType, RootKeys};
use crate::chain::{
    chain_verdict, link_verdict, ring_accepts, scheme_for, signature_verdict, LinkErrorView,
    SignatureScheme, OID_ECDSA_SHA256, OID_ECDSA_SHA384, OID_RSA_SHA1, OID_RSA_SHA256,
    OID_RSA_SHA384, OID_RSA_SHA512,
};
use crate::clock::{are_readings, validity_at, Clock, PRE_NTP_EPOCH_SECS};
use crate::generate::{element_text, is_generated, keybox_xml};
use crate::json::Json;
use crate::pem::{lemma_pem_chain_len, pem_chain_decoded};
use crate::private_key::KeyMatch;
use crate::report::{is_pem, key_report, pem_texts, place_of, KeyPlace, KeyReportView};
use crate::revocation::{
    entries_of, load_step, revocation_from, ActionView, CacheView, FetchError, LoadEvent,
    Revocation, RevocationSource, RevocationView, REVOCATION_CACHE_TTL_NANOS,
};
use crate::text::trimmed;
use crate::validate::{
    any_ok, attestation_summary, conclusion_of, failure_line, failure_lines, key_places,
    key_reports, parsed_validates_to, places_in, summary_of, text_of_keybox, validates_to,
    verdict_on, KeyboxErrorView, ValidationReportView,
};
use crate::x509::{certs_read, lemma_certs_read_len, CertView};
use crate::xml_model::{AndroidAttestation, Certificate, CertificateChain, Key, Keybox, TextNode};
use vstd::prelude::*;
use vstd::utf8::{encode_utf8, encode_utf8_decode_utf8};

verus! {

/// No two roots have the same name.
pub proof fn law_root_names_differ(a: KeyboxRootType, b: KeyboxRootType)
    requires
        a.snake_case() == b.snake_case(),
    ensures
        a == b,
{
    reveal_strlit("google");
    reveal_strlit("aosp_ec");
    reveal_strlit("aosp_rsa");
    reveal_strlit("knox");
    reveal_strlit("unknown");
    assert("google"@.len() == 6 && "aosp_ec"@.len() == 7 && "aosp_rsa"@.len() == 8);
    assert("knox"@.len() == 4 && "unknown"@.len() == 7);
    assert("aosp_ec"@[0] == 'a' && "unknown"@[0] == 'u');
}

/// A signature is accepted only if one of the six verifiers accepts it under
/// the key, and then its algorithm is one that has a verifier.
pub proof fn law_accepted_signature_was_verified(
    algorithm: Seq<char>,
    curve: Option<Seq<char>>,
    key: Seq<u8>,
    tbs: Seq<u8>,
    sig: Seq<u8>,
)
    requires
        signature_verdict(algorithm, curve, key, tbs, sig) is Ok,
    ensures
        exists|scheme: SignatureScheme|
            scheme_for(algorithm, curve) == Ok::<SignatureScheme, LinkErrorView>(
                scheme,
            ) && #[trigger] ring_accepts(scheme, key, tbs, sig),
        algorithm == OID_RSA_SHA1@ || algorithm == OID_RSA_SHA256@ || algorithm == OID_RSA_SHA384@
            || algorithm == OID_RSA_SHA512@ || algorithm == OID_ECDSA_SHA256@ || algorithm
            == OID_ECDSA_SHA384@,
{
}

/// Whatever the key and the signature, an algorithm without a verifier is rejected.
pub proof fn law_unsupported_algorithm_is_rejected(
    algorithm: Seq<char>,
    curve: Option<Seq<char>>,
    key: Seq<u8>,
    tbs: Seq<u8>,
    sig: Seq<u8>,
)
    requires
        scheme_for(algorithm, curve) is Err,
    ensures
        signature_verdict(algorithm, curve, key, tbs, sig) == Err::<
            (),
            LinkErrorView,
        >(scheme_for(algorithm, curve)->Err_0),
{
}

/// A link holds exactly if the issuer of the one is the subject of the other
/// and the signature of the one is accepted under the key of the other.
pub proof fn law_link_needs_names_and_signature(son: CertView, father: CertView)
    ensures
        link_verdict(son, father) is Ok <==> son.issuer.raw == father.subject.raw
            && signature_verdict(
            son.signature.algorithm,
            father.key.parameter_oid,
            father.key.bits,
            son.signature.tbs,
            son.signature.value,
        ) is Ok,
{
}

/// A chain holds exactly if every link of it does. Where it does not, the
/// error names the first link that does not hold, with the reason.
pub proof fn law_chain_is_its_links(certs: Seq<CertView>)
    ensures
        chain_verdict(certs) is Ok <==> forall|i: int|
            0 <= i < certs.len() - 1 ==> link_verdict(#[trigger] certs[i], certs[i + 1]) is Ok,
        chain_verdict(certs) matches Err(e) ==> {
            &&& e.hop + 1 < certs.len()
            &&& link_verdict(certs[e.hop as int], certs[e.hop as int + 1]) == Err::<
                (),
                LinkErrorView,
            >(e.cause)
            &&& forall|i: int|
                0 <= i < e.hop ==> link_verdict(#[trigger] certs[i], certs[i + 1]) is Ok
        },
    decreases certs.len(),
{
    if certs.len() >= 2 {
        let front = certs.drop_last();
        law_chain_is_its_links(front);
        let n = certs.len() - 2;
        assert(front[n] == certs[n]);
        if chain_verdict(front) is Ok {
            assert forall|i: int| 0 <= i < n implies link_verdict(
                #[trigger] certs[i],
                certs[i + 1],
            ) is Ok by {
                assert(link_verdict(front[i], front[i + 1]) is Ok);
            }
            if link_verdict(certs[n], certs[n + 1]) is Ok {
                assert forall|i: int| 0 <= i < certs.len() - 1 implies link_verdict(
                    #[trigger] certs[i],
                    certs[i + 1],
                ) is Ok by {}
            } else {
                assert(!(link_verdict(certs[n], certs[n + 1]) is Ok));
            }
        } else {
            let e = chain_verdict(front)->Err_0;
            let h = e.hop as int;
            assert(front[h] == certs[h] && front[h + 1] == certs[h + 1]);
            assert(link_verdict(certs[h], certs[h + 1]) is Err);
            assert forall|i: int| 0 <= i < h implies link_verdict(
                #[trigger] certs[i],
                certs[i + 1],
            ) is Ok by {
                assert(link_verdict(front[i], front[i + 1]) is Ok);
            }
        }
    }
}

/// A root is recognized only by the key of an anchor of that kind, and is
/// unknown if no anchor has its key.
pub proof fn law_root_is_known_by_its_key(key: Seq<u8>, anchors: Seq<AnchorView>)
    ensures
        (forall|i: int| 0 <= i < anchors.len() ==> (#[trigger] anchors[i]).key != key)
            ==> root_type_of(key, anchors) == KeyboxRootType::Unknown,
        root_type_of(key, anchors) != KeyboxRootType::Unknown ==> exists|i: int|
            0 <= i < anchors.len() && (#[trigger] anchors[i]).key == key && anchors[i].kind
                == root_type_of(key, anchors),
    decreases anchors.len(),
{
    if anchors.len() > 0 && anchors[0].key != key {
        let rest = anchors.drop_first();
        law_root_is_known_by_its_key(key, rest);
        if root_type_of(key, anchors) != KeyboxRootType::Unknown {
            let i = choose|i: int|
                0 <= i < rest.len() && (#[trigger] rest[i]).key == key && rest[i].kind
                    == root_type_of(key, rest);
            assert(anchors[i + 1] == rest[i]);
        }
        if forall|i: int| 0 <= i < anchors.len() ==> (#[trigger] anchors[i]).key != key {
            assert forall|i: int| 0 <= i < rest.len() implies (#[trigger] rest[i]).key != key by {
                assert(rest[i] == anchors[i + 1]);
            }
        }
    }
}

/// Among the anchors of the known roots, a root with the key of one of them is
/// never unknown.
pub proof fn law_known_key_is_recognized(roots: RootKeys, i: int)
    requires
        0 <= i < anchors_of(roots).len(),
    ensures
        root_type_of(anchors_of(roots)[i].key, anchors_of(roots)) != KeyboxRootType::Unknown,
{
    let anchors = anchors_of(roots);
    assert forall|j: int| 0 <= j < anchors.len() implies (#[trigger] anchors[j]).kind
        != KeyboxRootType::Unknown by {
        let a = anchor_of(KeyboxRootType::Google, roots.google@);
        let b = anchor_of(KeyboxRootType::AospEc, roots.aosp_ec@);
        let c = anchor_of(KeyboxRootType::AospRsa, roots.aosp_rsa@);
        let d = anchor_of(KeyboxRootType::Knox, roots.knox@);
        assert(anchors == a + b + c + d);
    }
    lemma_some_anchor_recognizes(anchors[i].key, anchors, i);
}

proof fn lemma_some_anchor_recognizes(key: Seq<u8>, anchors: Seq<AnchorView>, i: int)
    requires
        0 <= i < anchors.len(),
        anchors[i].key == key,
        forall|j: int|
            0 <= j < anchors.len() ==> (#[trigger] anchors[j]).kind != KeyboxRootType::Unknown,
    ensures
        root_type_of(key, anchors) != KeyboxRootType::Unknown,
    decreases anchors.len(),
{
    if anchors[0].key != key {
        let rest = anchors.drop_first();
        assert(rest[i - 1] == anchors[i]);
        assert forall|j: int| 0 <= j < rest.len() implies (#[trigger] rest[j]).kind
            != KeyboxRootType::Unknown by {
            assert(rest[j] == anchors[j + 1]);
        }
        lemma_some_anchor_recognizes(key, rest, i - 1);
    }
}

/// Where the clock has not been set, every certificate counts as valid.
pub proof fn law_unset_clock_accepts(leaf: CertView, clock: Clock)
    requires
        clock.secs < PRE_NTP_EPOCH_SECS,
    ensures
        validity_at(leaf, clock).ok,
        validity_at(leaf, clock).errors.len() == 1,
{
}

/// A key is valid exactly if its chain is, its certificate is at the time, its
/// root is known, and its private key does not contradict it.
pub proof fn law_key_ok_is_all_checks(
    place: KeyPlace,
    entries: Map<Seq<char>, Json>,
    anchors: Seq<AnchorView>,
    clock: Clock,
)
    ensures
        ({
            let report = key_report(place, entries, anchors, clock);
            report.ok <==> report.chain_valid && report.validity_ok && report.root_type
                != KeyboxRootType::Unknown && report.key_match != KeyMatch::Mismatched
        }),
{
}

/// A valid key has a chain of at least two certificates, each signed by the
/// next one, that ends in a self-signed root with the key of a known anchor.
pub proof fn law_valid_key_has_anchored_chain(
    place: KeyPlace,
    entries: Map<Seq<char>, Json>,
    anchors: Seq<AnchorView>,
    clock: Clock,
)
    requires
        key_report(place, entries, anchors, clock).ok,
    ensures
        ({
            let pems = pem_texts(place.key.chain->Some_0.certificates@);
            let ders = pem_chain_decoded(pems)->Ok_0;
            let certs = certs_read(ders)->Ok_0;
            &&& place.key.chain is Some
            &&& pem_chain_decoded(pems) is Ok
            &&& certs_read(ders) is Ok
            &&& certs.len() >= 2
            &&& forall|i: int|
                0 <= i < certs.len() - 1 ==> link_verdict(#[trigger] certs[i], certs[i + 1]) is Ok
            &&& link_verdict(certs.last(), certs.last()) is Ok
            &&& exists|i: int|
                0 <= i < anchors.len() && (#[trigger] anchors[i]).key == certs.last().key.bits
            &&& validity_at(certs[0], clock).ok
        }),
{
    let pems = pem_texts(place.key.chain->Some_0.certificates@);
    let ders = pem_chain_decoded(pems)->Ok_0;
    let certs = certs_read(ders)->Ok_0;
    law_chain_is_its_links(certs);
    law_root_is_known_by_its_key(certs.last().key.bits, anchors);
}

/// A key with no more than one certificate in PEM form is never valid.
pub proof fn law_single_certificate_is_never_valid(
    place: KeyPlace,
    entries: Map<Seq<char>, Json>,
    anchors: Seq<AnchorView>,
    clock: Clock,
)
    requires
        place.key.chain matches Some(chain) ==> pem_texts(chain.certificates@).len() <= 1,
    ensures
        !key_report(place, entries, anchors, clock).ok,
{
    if key_report(place, entries, anchors, clock).ok {
        law_valid_key_has_anchored_chain(place, entries, anchors, clock);
        let pems = pem_texts(place.key.chain->Some_0.certificates@);
        lemma_pem_chain_len(pems);
        lemma_certs_read_len(pem_chain_decoded(pems)->Ok_0);
    }
}

/// Whether `attestation` is what stands in the text that `build_xml` writes
/// for these keys. White space around the content of an element is left open.
pub open spec fn is_written(
    attestation: AndroidAttestation,
    ec_key: Seq<char>,
    cert: Seq<char>,
    rsa_key: Seq<char>,
) -> bool {
    let keybox = attestation.keyboxes@[0];
    let ec = keybox.keys@[0];
    let rsa = keybox.keys@[1];
    &&& attestation.keyboxes@.len() == 1
    &&& keybox.device_id@ == "sw"@
    &&& keybox.keys@.len() == 2
    &&& ec.algorithm@ == "ecdsa"@
    &&& holds_text(ec.private_key, element_text(ec_key, 20, 16))
    &&& ec.chain matches Some(chain) && {
        &&& holds_text(chain.declared, "1"@)
        &&& chain.certificates@.len() == 1
        &&& chain.certificates@[0].format@ == "pem"@
        &&& trimmed(chain.certificates@[0].text@) == trimmed(element_text(cert, 24, 24))
    }
    &&& rsa.algorithm@ == "rsa"@
    &&& holds_text(rsa.private_key, element_text(rsa_key, 20, 16))
    &&& rsa.chain is None
}

/// Whether an element is there and holds a text, but for the white space around it.
pub open spec fn holds_text(node: Option<TextNode>, text: Seq<char>) -> bool {
    node matches Some(n) && trimmed(n.text@) == trimmed(text)
}

/// The keys that `build_xml` writes never make a file valid, whatever they
/// are: the EC key has a chain of one certificate, and the RSA key has none.
pub proof fn law_written_keys_are_never_valid(
    attestation: AndroidAttestation,
    ec_key: Seq<char>,
    cert: Seq<char>,
    rsa_key: Seq<char>,
    revocation: RevocationView,
    anchors: Seq<AnchorView>,
    clocks: Seq<Clock>,
)
    requires
        is_written(attestation, ec_key, cert, rsa_key),
    ensures
        verdict_on(attestation_summary(attestation, revocation, anchors, clocks)) is Err,
{
    let entries = entries_of(revocation.data);
    let keybox = attestation.keyboxes@[0];
    let places = key_places(attestation.keyboxes@);
    assert(places == places_in(keybox, 1)) by {
        let front = attestation.keyboxes@.drop_last();
        assert(key_places(front) == Seq::<KeyPlace>::empty());
    }
    let keys = key_reports(places, entries, anchors, clocks);
    assert forall|n: int| 0 <= n < keys.len() implies !#[trigger] keys[n].ok by {
        let place = places[n];
        assert(place.key == keybox.keys@[n]);
        if place.key.chain is Some {
            let certificates = place.key.chain->Some_0.certificates@;
            certificates.lemma_filter_len(|c: Certificate| is_pem(c));
        }
        law_single_certificate_is_never_valid(place, entries, anchors, clocks[n]);
    }
}

/// A generated keybox never validates: whatever `generate` returns, validation
/// of its bytes ends in an error, if `parse` finds nothing else in the text
/// than what was written there.
pub proof fn law_generated_keybox_never_validates<
    P: FnOnce(&str) -> Option<AndroidAttestation>,
    L: FnOnce() -> Revocation,
>(
    xml: Seq<char>,
    anchors: Seq<AnchorView>,
    parse: P,
    load: L,
    result: Result<ValidationReportView, KeyboxErrorView>,
)
    requires
        is_generated(xml),
        forall|text: &str, attestation: AndroidAttestation|
            text@ == xml && #[trigger] call_ensures(parse, (text,), Some(attestation))
                ==> reads_what_was_written(xml, attestation),
        validates_to(encode_utf8(xml), anchors, parse, load, result),
    ensures
        verdict_on(result) is Err,
{
    if text_of_keybox(encode_utf8(xml)) is Ok {
        encode_utf8_decode_utf8(xml);
        let (text, parsed) = choose|text: &str, parsed: Option<AndroidAttestation>|
            {
                &&& text@ == xml
                &&& #[trigger] call_ensures(parse, (text,), parsed)
                &&& parsed_validates_to(parsed, anchors, load, result)
            };
        if parsed is Some && parsed->Some_0.keyboxes@.len() > 0 {
            let attestation = parsed->Some_0;
            assert(call_ensures(parse, (text,), Some(attestation)));
            let (revocation, clocks) = choose|revocation: Revocation, clocks: Seq<Clock>|
                {
                    &&& call_ensures(load, (), revocation)
                    &&& are_readings(clocks, key_places(attestation.keyboxes@).len())
                    &&& result == #[trigger] attestation_summary(
                        attestation,
                        revocation@,
                        anchors,
                        clocks,
                    )
                };
            let (ec_key, cert, rsa_key) = choose|
                ec_key: Seq<char>,
                cert: Seq<char>,
                rsa_key: Seq<char>,
            | #[trigger] is_written(attestation, ec_key, cert, rsa_key);
            law_written_keys_are_never_valid(
                attestation,
                ec_key,
                cert,
                rsa_key,
                revocation@,
                anchors,
                clocks,
            );
        }
    }
}

/// Whether `attestation` is what stands in the text `xml` that `build_xml` wrote.
pub open spec fn reads_what_was_written(xml: Seq<char>, attestation: AndroidAttestation) -> bool {
    exists|ec_key: Seq<char>, cert: Seq<char>, rsa_key: Seq<char>|
        {
            &&& xml == keybox_xml(ec_key, cert, rsa_key)
            &&& #[trigger] is_written(attestation, ec_key, cert, rsa_key)
        }
}

/// The list of revoked certificates is reported and decides nothing: all but
/// the serial number and the reason is the same with any other list.
pub proof fn law_revocation_decides_nothing(
    place: KeyPlace,
    entries: Map<Seq<char>, Json>,
    others: Map<Seq<char>, Json>,
    anchors: Seq<AnchorView>,
    clock: Clock,
)
    ensures
        ({
            let report = key_report(place, entries, anchors, clock);
            key_report(place, others, anchors, clock) == (KeyReportView {
                revocation_reason: key_report(place, others, anchors, clock).revocation_reason,
                revocation_serial: key_report(place, others, anchors, clock).revocation_serial,
                ..report
            })
        }),
{
}

/// A key whose serial number is not on the list is reported as not revoked,
/// and one that is reported as revoked is on it.
pub proof fn law_revoked_means_listed(
    place: KeyPlace,
    entries: Map<Seq<char>, Json>,
    anchors: Seq<AnchorView>,
    clock: Clock,
)
    ensures
        ({
            let report = key_report(place, entries, anchors, clock);
            &&& report.revocation_serial is Some <==> report.revocation_reason is Some
            &&& report.revocation_serial matches Some(serial) ==> serial == report.leaf_serial
                && entries.contains_key(serial)
        }),
{
}

/// The declared number of certificates decides nothing: with any other, the
/// report differs in its errors alone.
pub proof fn law_declared_count_decides_nothing(
    place: KeyPlace,
    declared: Option<TextNode>,
    entries: Map<Seq<char>, Json>,
    anchors: Seq<AnchorView>,
    clock: Clock,
)
    requires
        place.key.chain is Some,
    ensures
        ({
            let chain = CertificateChain {
                declared,
                ..place.key.chain->Some_0
            };
            let other = KeyPlace { key: Key { chain: Some(chain), ..place.key }, ..place };
            let report = key_report(place, entries, anchors, clock);
            key_report(other, entries, anchors, clock) == (KeyReportView {
                errors: key_report(other, entries, anchors, clock).errors,
                ..report
            })
        }),
{
}

/// A key that is not valid for want of a chain, a certificate, or a text that
/// can be read says why; so does one that fails on its chain or its root.
pub proof fn law_failure_is_explained(
    place: KeyPlace,
    entries: Map<Seq<char>, Json>,
    anchors: Seq<AnchorView>,
    clock: Clock,
)
    ensures
        ({
            let report = key_report(place, entries, anchors, clock);
            !report.chain_valid || report.root_type == KeyboxRootType::Unknown
                ==> report.errors.len() > 0
        }),
{
}

/// Every certificate that is decoded is counted.
pub proof fn law_chain_length_is_number_of_certificates(
    place: KeyPlace,
    entries: Map<Seq<char>, Json>,
    anchors: Seq<AnchorView>,
    clock: Clock,
)
    ensures
        ({
            let report = key_report(place, entries, anchors, clock);
            report.chain_len == 0 || report.chain_len == pem_texts(
                place.key.chain->Some_0.certificates@,
            ).len()
        }),
{
    if place.key.chain is Some {
        let pems = pem_texts(place.key.chain->Some_0.certificates@);
        if pem_chain_decoded(pems) is Ok {
            lemma_pem_chain_len(pems);
            let ders = pem_chain_decoded(pems)->Ok_0;
            if certs_read(ders) is Ok {
                lemma_certs_read_len(ders);
            }
        }
    }
}

/// Every key of every keybox is reported on, at the place where it stands.
pub proof fn law_every_key_is_reported(keyboxes: Seq<Keybox>, i: int, j: int)
    requires
        0 <= i < keyboxes.len(),
        0 <= j < keyboxes[i].keys@.len(),
    ensures
        key_places(keyboxes).contains(
            place_of((i + 1) as nat, (j + 1) as nat, keyboxes[i], keyboxes[i].keys@[j]),
        ),
    decreases keyboxes.len(),
{
    let front = keyboxes.drop_last();
    let inside = places_in(keyboxes.last(), keyboxes.len());
    let all = key_places(keyboxes);
    let place = place_of((i + 1) as nat, (j + 1) as nat, keyboxes[i], keyboxes[i].keys@[j]);
    if i == keyboxes.len() - 1 {
        assert(inside[j] == place);
        assert(all[key_places(front).len() + j] == place);
    } else {
        assert(front[i] == keyboxes[i]);
        law_every_key_is_reported(front, i, j);
        let n = choose|n: int| 0 <= n < key_places(front).len() && key_places(front)[n] == place;
        assert(all[n] == place);
    }
}

/// A file is valid exactly if one of its keys is.
pub proof fn law_file_ok_iff_some_key_ok(keys: Seq<KeyReportView>, revocation: RevocationView)
    requires
        keys.len() > 0,
    ensures
        summary_of(keys, revocation) is Ok,
        conclusion_of(summary_of(keys, revocation)->Ok_0) is Ok <==> exists|n: int|
            0 <= n < keys.len() && #[trigger] keys[n].ok,
{
}

/// Where a file is not valid, something is said of every one of its keys.
pub proof fn law_failed_file_names_every_key(report: ValidationReportView)
    requires
        !any_ok(report.keys),
    ensures
        failure_lines(report.keys) == report.keys.map_values(|k: KeyReportView| failure_line(k)),
{
    let keys = report.keys;
    let failed = |k: KeyReportView| !k.ok;
    assert forall|n: int| 0 <= n < keys.len() implies failed(#[trigger] keys[n]) by {
        assert(!keys[n].ok);
    }
    lemma_filter_keeps_all(keys, failed);
}

proof fn lemma_filter_keeps_all(keys: Seq<KeyReportView>, pred: spec_fn(KeyReportView) -> bool)
    requires
        forall|n: int| 0 <= n < keys.len() ==> pred(#[trigger] keys[n]),
    ensures
        keys.filter(pred) == keys,
    decreases keys.len(),
{
    reveal(Seq::filter);
    if keys.len() > 0 {
        lemma_filter_keeps_all(keys.drop_last(), pred);
        assert(keys == keys.drop_last().push(keys.last()));
    }
}

/// The list of revoked certificates decides nothing about a file either.
pub proof fn law_revocation_leaves_file_verdict(
    places: Seq<KeyPlace>,
    entries: Map<Seq<char>, Json>,
    others: Map<Seq<char>, Json>,
    anchors: Seq<AnchorView>,
    clocks: Seq<Clock>,
)
    ensures
        any_ok(key_reports(places, entries, anchors, clocks)) == any_ok(
            key_reports(places, others, anchors, clocks),
        ),
{
    let a = key_reports(places, entries, anchors, clocks);
    let b = key_reports(places, others, anchors, clocks);
    assert forall|n: int| 0 <= n < places.len() implies (#[trigger] a[n]).ok == b[n].ok by {
        law_revocation_decides_nothing(places[n], entries, others, anchors, clocks[n]);
    }
    if any_ok(a) {
        let n = choose|n: int| 0 <= n < a.len() && #[trigger] a[n].ok;
        assert(b[n].ok);
    }
    if any_ok(b) {
        let n = choose|n: int| 0 <= n < b.len() && #[trigger] b[n].ok;
        assert(a[n].ok);
    }
}

/// A list says that it came from the network exactly if nothing went wrong on
/// the way.
pub proof fn law_source_tells_of_errors(fetched: Result<Json, FetchError>, embedded: Seq<u8>)
    ensures
        ({
            let list = revocation_from(fetched, embedded);
            list.source == RevocationSource::Online <==> list.online_error is None
        }),
{
}

/// The report on a file holds together: it is on one key at least, it is ok
/// exactly if one of its keys is, it has no errors beside those of its keys, and
/// it says that the list of revoked certificates came from the network exactly
/// if nothing went wrong on the way.
pub proof fn law_report_holds_together<
    P: FnOnce(&str) -> Option<AndroidAttestation>,
    L: FnOnce() -> Revocation,
>(
    data: Seq<u8>,
    anchors: Seq<AnchorView>,
    parse: P,
    load: L,
    report: ValidationReportView,
)
    requires
        validates_to(
            data,
            anchors,
            parse,
            load,
            Ok::<ValidationReportView, KeyboxErrorView>(report),
        ),
    ensures
        report.keys.len() > 0,
        report.ok <==> exists|n: int| 0 <= n < report.keys.len() && #[trigger] report.keys[n].ok,
        report.errors.len() == 0,
        report.revocation_source == RevocationSource::Online
            <==> report.revocation_online_error is None,
{
    let result = Ok::<ValidationReportView, KeyboxErrorView>(report);
    let (text, parsed) = choose|text: &str, parsed: Option<AndroidAttestation>|
        {
            &&& text@ == text_of_keybox(data)->Ok_0
            &&& #[trigger] call_ensures(parse, (text,), parsed)
            &&& parsed_validates_to(parsed, anchors, load, result)
        };
    let attestation = parsed->Some_0;
    let (revocation, clocks) = choose|revocation: Revocation, clocks: Seq<Clock>|
        {
            &&& call_ensures(load, (), revocation)
            &&& are_readings(clocks, key_places(attestation.keyboxes@).len())
            &&& result == #[trigger] attestation_summary(
                attestation,
                revocation@,
                anchors,
                clocks,
            )
        };
    assert(report.revocation_source == revocation@.source);
}

/// A list that was loaded is used again, without fetching, for as long as it
/// is fresh, and not any longer.
pub proof fn law_loaded_list_is_used_while_fresh(
    cache: Option<CacheView>,
    stored: nat,
    fetched: LoadEvent,
    now: nat,
    embedded: Seq<u8>,
)
    requires
        fetched is Fetched,
    ensures
        ({
            let first = load_step(cache, stored, fetched, embedded);
            let second = load_step(first.cache, now, LoadEvent::Start, embedded);
            &&& second.cache == first.cache
            &&& now < stored + REVOCATION_CACHE_TTL_NANOS ==> second.action == first.action
            &&& now >= stored + REVOCATION_CACHE_TTL_NANOS ==> second.action == ActionView::Fetch
        }),
{
}

} // verus!
