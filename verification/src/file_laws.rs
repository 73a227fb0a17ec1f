//! What validation and generation of a whole file mean, and where the list of
//! revoked certificates comes from.

use crate::anchors::AnchorView;
use crate::clock::{are_readings, are_secs_at, is_reading, moment_nanos, Clock};
use crate::generate::{
    blanks, certificate_issuer, certificate_pem, certificate_public, certificate_signer,
    certificate_subject, ended_after, indented, is_certified, is_ec_key, is_generated,
    is_generated_from,
    key_pair_curve, key_pair_pem, key_pair_public, keybox_xml, rsa_bits, rsa_pem, EcCurve,
    GenerateError, NamePart,
};
use crate::json::{json_of, json_of_bytes, json_of_text, Json};
use crate::report::{key_report, KeyPlace, KeyReportView};
use crate::revocation::{
    entries_of, is_status_request, load_step, revocation_from, status_of, ActionView, CacheView,
    FetchError, LoadEvent, Revocation, RevocationSource, RevocationView, StatusReply,
    StatusRequest,
};
use crate::text::{decimal_of, joined, lemma_lines_of_joined, lines_of, without_return};
use crate::validate::{
    attestation_summary, failure_line, failure_lines, key_places,
    key_reports, parsed_validates_to, summary_of, text_of_keybox, validates_to, verdict_on,
    KeyboxErrorView, ValidationReportView,
};
use crate::xml_model::{AndroidAttestation, Keybox};
use rcgen::Certificate as SignedCertificate;
use rcgen::KeyPair;
use rsa::RsaPrivateKey;
use std::time::SystemTime;
use vstd::prelude::*;
use vstd::utf8::{decode_utf8, valid_utf8};

verus! {

/// The request for the list asks the server of the list, with the time in the
/// address and three headers that keep it from being answered from a store, and
/// waits twelve seconds.
pub proof fn law_request_goes_to_the_list(request: StatusRequest, ts: nat)
    requires
        is_status_request(request, ts),
    ensures
        request.url@ == "https://android.googleapis.com/attestation/status"@ + "?ts="@ + decimal_of(
            ts,
        ),
        request.timeout_secs == 12,
        request.headers@.len() == 3,
        request.headers@[0].name@ == "Cache-Control"@,
        request.headers@[0].value@ == "max-age=0, no-cache, no-store, must-revalidate"@,
        request.headers@[1].name@ == "Pragma"@,
        request.headers@[1].value@ == "no-cache"@,
        request.headers@[2].name@ == "Expires"@,
        request.headers@[2].value@ == "0"@,
{
}

/// A reply holds the JSON of its body. Without an answer, a body, or JSON in
/// it, there is an error that says which.
pub proof fn law_reply_holds_its_body(reply: StatusReply)
    ensures
        reply is NoAnswer ==> status_of(reply) is Err && status_of(reply)->Err_0.message_spec()
            == "revocation HTTP GET failed"@,
        reply is NoBody ==> status_of(reply) is Err && status_of(reply)->Err_0.message_spec()
            == "revocation body read failed"@,
        reply matches StatusReply::Body { text } ==> match json_of_text(text@) {
            Some(json) => status_of(reply) == Ok::<Json, FetchError>(json),
            None => status_of(reply) is Err && status_of(reply)->Err_0.message_spec()
                == "revocation JSON parse failed"@,
        },
{
}

/// A fetched list is used as it is. Where there is none, the embedded one is
/// used with the reason, or one without entries if that is no JSON.
pub proof fn law_fetched_list_comes_first(fetched: Result<Json, FetchError>, embedded: Seq<u8>)
    ensures
        ({
            let list = revocation_from(fetched, embedded);
            &&& fetched matches Ok(data) ==> list.source == RevocationSource::Online
                && list.online_error is None && list.data == data
            &&& fetched matches Err(e) ==> list.source == RevocationSource::Embedded
                && list.online_error == Some(e.message_spec())
            &&& fetched is Err && json_of_bytes(embedded) is Some ==> list.data == json_of_bytes(
                embedded,
            )->Some_0
            &&& fetched is Err && json_of_bytes(embedded) is None ==> list.data == Json::Object(
                Map::<Seq<char>, Json>::empty().insert(
                    "entries"@,
                    Json::Object(Map::<Seq<char>, Json>::empty()),
                ),
            )
        }),
{
}

/// A stored list is used for sixty seconds from the moment at which it was
/// stored, and a clock that went back makes it no older. After that, and where
/// there is none, it is fetched. What was fetched is used and stored.
pub proof fn law_stored_list_is_used_for_a_minute(
    cache: Option<CacheView>,
    now: nat,
    event: LoadEvent,
    embedded: Seq<u8>,
)
    ensures
        ({
            let step = load_step(cache, now, event, embedded);
            &&& event is Start ==> step.cache == cache
            &&& event is Start && cache is None ==> step.action == ActionView::Fetch
            &&& event is Start && cache is Some && now < cache->Some_0.stored_at + 60_000_000_000
                ==> step.action == ActionView::Use { revocation: cache->Some_0.stored }
            &&& event is Start && cache is Some && now >= cache->Some_0.stored_at + 60_000_000_000
                ==> step.action == ActionView::Fetch
            &&& event matches LoadEvent::Fetched { result } ==> {
                let list = revocation_from(
                    match result {
                        Ok(v) => Ok(json_of(v)),
                        Err(e) => Err(e),
                    },
                    embedded,
                );
                &&& step.action == ActionView::Use { revocation: list }
                &&& step.cache == Some(CacheView { stored_at: now, stored: list })
            }
        }),
{
}

/// The whole seconds of a moment are those that have passed since the start of
/// 1970; before it there are none.
pub proof fn law_seconds_of_a_moment(secs: u64, nanos: int)
    ensures
        are_secs_at(Some(secs), nanos) <==> secs * 1_000_000_000 <= nanos && nanos < (secs + 1)
            * 1_000_000_000,
        are_secs_at(None, nanos) <==> nanos < 0,
{
}

/// A reading of the clock is one of moments: the seconds are those of one, and
/// from 2020 on so are the nanoseconds.
pub proof fn law_reading_is_of_a_moment(clock: Clock)
    requires
        is_reading(clock),
    ensures
        exists|moment: SystemTime|
            {
                let nanos = #[trigger] moment_nanos(moment);
                ||| clock.secs * 1_000_000_000 <= nanos && nanos < (clock.secs + 1) * 1_000_000_000
                ||| clock.secs == 0 && nanos < 0
            },
        clock.secs >= 1_577_836_800 ==> exists|moment: SystemTime| #[trigger]
            moment_nanos(moment) == clock.nanos,
{
    let moment = choose|moment: SystemTime|
        {
            ||| are_secs_at(Some(clock.secs), #[trigger] moment_nanos(moment))
            ||| clock.secs == 0 && are_secs_at(None, moment_nanos(moment))
        };
    law_seconds_of_a_moment(clock.secs, moment_nanos(moment));
}

/// A file is a text exactly if it has from one to 1048576 bytes and these are
/// UTF-8. What is said of any other names the first of these that fails.
pub proof fn law_file_is_a_text_of_limited_size(data: Seq<u8>)
    ensures
        text_of_keybox(data) is Ok <==> 1 <= data.len() <= 1_048_576 && valid_utf8(data),
        text_of_keybox(data) matches Ok(text) ==> text == decode_utf8(data),
        data.len() == 0 ==> text_of_keybox(data)->Err_0.message() == "keybox data is empty"@,
        data.len() > 1_048_576 ==> text_of_keybox(data)->Err_0.message()
            == "keybox data exceeds "@ + decimal_of(1_048_576) + " byte cap ("@ + decimal_of(
            data.len(),
        ) + " bytes)"@,
        1 <= data.len() <= 1_048_576 && !valid_utf8(data) ==> text_of_keybox(data)->Err_0.message()
            == "keybox data is not valid UTF-8"@,
{
}

/// The keys of a file are those of its keyboxes, one keybox after the other,
/// with the places of both counted from 1.
pub proof fn law_keys_are_counted_in_their_order(keyboxes: Seq<Keybox>, keybox: Keybox)
    ensures
        key_places(Seq::<Keybox>::empty()).len() == 0,
        key_places(keyboxes.push(keybox)).len() == key_places(keyboxes).len()
            + keybox.keys@.len(),
        forall|n: int|
            0 <= n < key_places(keyboxes).len() ==> #[trigger] key_places(
                keyboxes.push(keybox),
            )[n] == key_places(keyboxes)[n],
        forall|j: int|
            0 <= j < keybox.keys@.len() ==> {
                let place = key_places(keyboxes.push(keybox))[key_places(keyboxes).len() + j];
                &&& place.keybox_index == keyboxes.len() + 1
                &&& place.key_index == j + 1
                &&& place.device_id == keybox.device_id@
                &&& place.key == #[trigger] keybox.keys@[j]
            },
{
    let all = keyboxes.push(keybox);
    assert(all.drop_last() == keyboxes);
    assert(all.last() == keybox);
}

/// There is one report for each key, in the order of the keys, at its time.
pub proof fn law_each_key_has_its_report(
    places: Seq<KeyPlace>,
    entries: Map<Seq<char>, Json>,
    anchors: Seq<AnchorView>,
    clocks: Seq<Clock>,
    n: int,
)
    requires
        0 <= n < places.len(),
    ensures
        key_reports(places, entries, anchors, clocks).len() == places.len(),
        key_reports(places, entries, anchors, clocks)[n] == key_report(
            places[n],
            entries,
            anchors,
            clocks[n],
        ),
{
}

/// A file with keys has a report that holds theirs, says whether one of them is
/// valid, and where the list of revoked certificates came from. A file without
/// keys has none.
pub proof fn law_summary_holds_the_reports(keys: Seq<KeyReportView>, revocation: RevocationView)
    ensures
        keys.len() == 0 ==> summary_of(keys, revocation) is Err && summary_of(
            keys,
            revocation,
        )->Err_0.message() == "no <Key> elements found in any <Keybox>"@,
        keys.len() > 0 ==> {
            &&& summary_of(keys, revocation) is Ok
            &&& summary_of(keys, revocation)->Ok_0.keys == keys
            &&& summary_of(keys, revocation)->Ok_0.ok <==> exists|n: int|
                0 <= n < keys.len() && #[trigger] keys[n].ok
            &&& summary_of(keys, revocation)->Ok_0.revocation_source == revocation.source
            &&& summary_of(keys, revocation)->Ok_0.revocation_online_error
                == revocation.online_error
            &&& summary_of(keys, revocation)->Ok_0.errors.len() == 0
        },
{
}

/// Validation succeeds exactly if there is a report and it is ok. An earlier
/// error is passed on, and a report that is not ok gives one that tells of
/// every key that is not valid.
pub proof fn law_validation_succeeds_iff_report_is_ok(
    result: Result<ValidationReportView, KeyboxErrorView>,
)
    ensures
        verdict_on(result) is Ok <==> result is Ok && result->Ok_0.ok,
        result matches Err(e) ==> verdict_on(result) == Err::<(), KeyboxErrorView>(e),
        result matches Ok(report) ==> !report.ok ==> verdict_on(result) is Err && verdict_on(
            result,
        )->Err_0.message() == "keybox validation failed: "@ + joined(
            failure_lines(report.keys),
            " | "@,
        ),
{
}

/// There is one line for each key that is not valid, in the order of the keys,
/// and none for a valid one. It names the place of the key, its algorithm, and
/// its errors.
pub proof fn law_each_failed_key_has_its_line(keys: Seq<KeyReportView>, key: KeyReportView)
    ensures
        failure_lines(Seq::<KeyReportView>::empty()).len() == 0,
        key.ok ==> failure_lines(keys.push(key)) == failure_lines(keys),
        !key.ok ==> failure_lines(keys.push(key)) == failure_lines(keys).push(
            "Keybox#"@ + decimal_of(key.keybox_index) + "/Key#"@ + decimal_of(key.key_index)
                + " ("@ + key.algorithm + "): "@ + joined(key.errors, "; "@),
        ),
{
    reveal(Seq::filter);
    let all = keys.push(key);
    assert(all.drop_last() == keys);
    assert(all.last() == key);
    let failed = |k: KeyReportView| !k.ok;
    let line = |k: KeyReportView| failure_line(k);
    if !key.ok {
        assert(all.filter(failed) == keys.filter(failed).push(key));
        assert(all.filter(failed).map_values(line) == keys.filter(failed).map_values(line).push(
            failure_line(key),
        ));
    }
}

/// What validation of a file comes to. One that is no text of the allowed size
/// is refused; one that `parse` cannot read, too, and one without keyboxes.
/// Any other is validated with what `parse` read, the list that `load` got, and
/// the time at which each key was checked.
pub proof fn law_validation_of_a_file<
    P: FnOnce(&str) -> Option<AndroidAttestation>,
    L: FnOnce() -> Revocation,
>(
    data: Seq<u8>,
    anchors: Seq<AnchorView>,
    parse: P,
    load: L,
    result: Result<ValidationReportView, KeyboxErrorView>,
)
    requires
        validates_to(data, anchors, parse, load, result),
    ensures
        !(1 <= data.len() <= 1_048_576 && valid_utf8(data)) ==> result is Err && result->Err_0
            == text_of_keybox(data)->Err_0,
        1 <= data.len() <= 1_048_576 && valid_utf8(data) ==> exists|
            xml: &str,
            parsed: Option<AndroidAttestation>,
        |
            {
                &&& xml@ == decode_utf8(data)
                &&& #[trigger] call_ensures(parse, (xml,), parsed)
                &&& parsed is None ==> result is Err && result->Err_0.message()
                    == "keybox XML parse failed"@
                &&& parsed is Some && parsed->Some_0.keyboxes@.len() == 0 ==> result is Err
                    && result->Err_0.message() == "no <Keybox> elements found"@
                &&& parsed is Some && parsed->Some_0.keyboxes@.len() > 0 ==> is_result_for(
                    parsed->Some_0,
                    anchors,
                    load,
                    result,
                )
            },
{
    if 1 <= data.len() <= 1_048_576 && valid_utf8(data) {
        let (xml, parsed) = choose|xml: &str, parsed: Option<AndroidAttestation>|
            {
                &&& xml@ == decode_utf8(data)
                &&& #[trigger] call_ensures(parse, (xml,), parsed)
                &&& parsed_validates_to(parsed, anchors, load, result)
            };
        assert(call_ensures(parse, (xml,), parsed));
        if parsed is Some && parsed->Some_0.keyboxes@.len() > 0 {
            let attestation = parsed->Some_0;
            let (revocation, clocks) = choose|revocation: Revocation, clocks: Seq<Clock>|
                {
                    &&& call_ensures(load, (), revocation)
                    &&& are_readings(clocks, key_places(attestation.keyboxes@).len())
                    &&& result == #[trigger] attestation_summary(
                        attestation,
                        revocation@,
                        anchors,
                        clocks,
                    )
                };
            assert(is_report_at(attestation, anchors, revocation@, clocks, result));
            assert(is_result_for(attestation, anchors, load, result));
        }
    }
}

/// Whether `result` is what the keys of a file come to with the list that
/// `load` got and readings of the clock, one for each key.
pub open spec fn is_result_for<L: FnOnce() -> Revocation>(
    attestation: AndroidAttestation,
    anchors: Seq<AnchorView>,
    load: L,
    result: Result<ValidationReportView, KeyboxErrorView>,
) -> bool {
    exists|revocation: Revocation, clocks: Seq<Clock>|
        {
            &&& call_ensures(load, (), revocation)
            &&& clocks.len() == key_places(attestation.keyboxes@).len()
            &&& forall|n: int| 0 <= n < clocks.len() ==> is_reading(#[trigger] clocks[n])
            &&& #[trigger] is_report_at(attestation, anchors, revocation@, clocks, result)
        }
}

/// Whether `result` holds the report on each key at its time, or is an error
/// where there is no key.
pub open spec fn is_report_at(
    attestation: AndroidAttestation,
    anchors: Seq<AnchorView>,
    revocation: RevocationView,
    clocks: Seq<Clock>,
    result: Result<ValidationReportView, KeyboxErrorView>,
) -> bool {
    let places = key_places(attestation.keyboxes@);
    if places.len() == 0 {
        result is Err && result->Err_0.message() == "no <Key> elements found in any <Keybox>"@
    } else {
        &&& result is Ok
        &&& result->Ok_0.keys.len() == places.len()
        &&& forall|n: int|
            0 <= n < places.len() ==> #[trigger] result->Ok_0.keys[n] == key_report(
                places[n],
                entries_of(revocation.data),
                anchors,
                clocks[n],
            )
        &&& result->Ok_0.ok <==> exists|n: int|
            0 <= n < places.len() && #[trigger] result->Ok_0.keys[n].ok
        &&& result->Ok_0.revocation_source == revocation.source
        &&& result->Ok_0.revocation_online_error == revocation.online_error
        &&& result->Ok_0.errors.len() == 0
    }
}

/// `blanks` are spaces, as many as were asked for.
pub proof fn law_blanks_are_spaces(n: nat, i: int)
    requires
        0 <= i < n,
    ensures
        blanks(n).len() == n,
        blanks(n)[i] == ' ',
        blanks(0).len() == 0,
{
}

/// Indenting puts the spaces before each line and changes nothing else. Left
/// out are texts that lose a character when their lines are written and read
/// again.
pub proof fn law_indenting_pads_each_line(parts: Seq<Seq<char>>, n: nat)
    requires
        forall|i: int, j: int|
            0 <= i < parts.len() && 0 <= j < parts[i].len() ==> #[trigger] parts[i][j] != '\n',
        forall|i: int|
            0 <= i < parts.len() - 1 ==> (#[trigger] parts[i]).len() == 0 || parts[i].last()
                != '\r',
        parts.len() == 0 || parts.last().len() > 0,
    ensures
        indented(joined(parts, seq!['\n']), n) == joined(
            parts.map_values(|p: Seq<char>| blanks(n) + p),
            seq!['\n'],
        ),
{
    lemma_lines_of_joined(parts);
    let lines = lines_of(joined(parts, seq!['\n']));
    if parts.len() > 0 {
        let heads = parts.drop_last().map_values(|p: Seq<char>| without_return(p));
        assert(heads == parts.drop_last());
        assert(lines == parts);
    } else {
        assert(lines == parts);
    }
}

/// The exact text of a file: the two keys and the certificate stand on lines of
/// their own between their tags, indented, and the rest is always the same.
pub proof fn law_file_is_its_frame_and_its_keys(
    ec_key: Seq<char>,
    cert: Seq<char>,
    rsa_key: Seq<char>,
)
    ensures
        keybox_xml(ec_key, cert, rsa_key) == "<?xml version=\"1.0\"?>
    <AndroidAttestation>
        <NumberOfKeyboxes>1</NumberOfKeyboxes>
        <Keybox DeviceID=\"sw\">
            <Key algorithm=\"ecdsa\">
                <PrivateKey format=\"pem\">"@ + (seq!['\n'] + indented(ec_key, 20) + seq!['\n']
            + blanks(16)) + "</PrivateKey>
                <CertificateChain>
                    <NumberOfCertificates>1</NumberOfCertificates>
                        <Certificate format=\"pem\">"@ + (seq!['\n'] + indented(cert, 24)
            + seq!['\n'] + blanks(24)) + "</Certificate>
                </CertificateChain>
            </Key>
            <Key algorithm=\"rsa\">
                <PrivateKey format=\"pem\">"@ + (seq!['\n'] + indented(rsa_key, 20) + seq!['\n']
            + blanks(16)) + "</PrivateKey>
            </Key>
        </Keybox>
</AndroidAttestation>"@,
{
}

/// Generation ends in an error of the certificate only after there was an EC
/// key, and in one of the RSA key only after there was a certificate for it.
pub proof fn law_generation_ends_at_the_first_failure(error: GenerateError)
    requires
        ended_after(error),
    ensures
        error == GenerateError::EcCertificate ==> exists|ec_key: KeyPair| #[trigger]
            key_pair_curve(ec_key) == EcCurve::P256,
        error == GenerateError::RsaKey || error == GenerateError::RsaPem ==> exists|
            ec_key: KeyPair,
            cert: SignedCertificate,
        |
            {
                &&& key_pair_curve(ec_key) == EcCurve::P256
                &&& #[trigger] certificate_public(cert) == #[trigger] key_pair_public(ec_key)
            },
        error == GenerateError::RsaPem ==> exists|rsa_key: RsaPrivateKey|
            rsa_bits(rsa_key) == 2048 && #[trigger] rsa_pem(rsa_key) is None,
{
    if error == GenerateError::EcCertificate {
        let ec_key = choose|ec_key: KeyPair| #[trigger] is_ec_key(ec_key);
        assert(key_pair_curve(ec_key) == EcCurve::P256);
    } else if error == GenerateError::RsaKey || error == GenerateError::RsaPem {
        let (ec_key, cert) = choose|ec_key: KeyPair, cert: SignedCertificate| #[trigger]
            is_certified(ec_key, cert);
        assert(is_ec_key(ec_key));
        assert(certificate_public(cert) == key_pair_public(ec_key));
    }
}

/// A generated file holds an EC key on P-256, a certificate that this key
/// signed for itself under the name `Android Keybox`, and an RSA key of 2048
/// bits.
pub proof fn law_generated_file_holds_its_keys(xml: Seq<char>)
    requires
        is_generated(xml),
    ensures
        exists|ec_key: KeyPair, cert: SignedCertificate, rsa_key: RsaPrivateKey|
            {
                &&& key_pair_curve(ec_key) == EcCurve::P256
                &&& certificate_public(cert) == key_pair_public(ec_key)
                &&& certificate_signer(cert) == key_pair_public(ec_key)
                &&& certificate_subject(cert) == seq![NamePart::CommonName("Android Keybox"@)]
                &&& certificate_issuer(cert) == seq![NamePart::CommonName("Android Keybox"@)]
                &&& rsa_bits(rsa_key) == 2048
                &&& rsa_pem(rsa_key) is Some
                &&& xml == #[trigger] keybox_xml(
                    key_pair_pem(ec_key),
                    certificate_pem(cert),
                    rsa_pem(rsa_key)->Some_0,
                )
            },
{
    let (ec_key, cert, rsa_key) = choose|
        ec_key: KeyPair,
        cert: SignedCertificate,
        rsa_key: RsaPrivateKey,
    | #[trigger] is_generated_from(xml, ec_key, cert, rsa_key);
    assert(is_certified(ec_key, cert));
    assert(xml == keybox_xml(
        key_pair_pem(ec_key),
        certificate_pem(cert),
        rsa_pem(rsa_key)->Some_0,
    ));
}

} // verus!
