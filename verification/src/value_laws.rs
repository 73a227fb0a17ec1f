//! What the views of values hold: the fields themselves, and all of them.

use crate::anchors::{anchor_views, AnchorError, AnchorErrorView, TrustAnchor};
use crate::chain::{ChainError, LinkError, LinkErrorView};
use crate::json::json_of;
use crate::pem::byte_views;
use crate::private_key::public_view;
use crate::report::KeyReport;
use crate::revocation::{
    fetched_view, pair_view, FetchError, LoadAction, Origin, Revocation, RevocationCache,
    RevocationSource,
};
use crate::text::{optional_text, views};
use crate::validate::{report_views, result_view, KeyboxError, KeyboxErrorView, ValidationReport};
use crate::x509::{cert_views, CertError, ParsedCert};
use serde_json::Value;
use vstd::prelude::*;

verus! {

/// The view of a list has the view of each element, in the order of the list.
pub proof fn law_lists_are_viewed_one_by_one(
    texts: Seq<String>,
    bytes: Seq<Vec<u8>>,
    certs: Seq<ParsedCert>,
    anchors: Seq<TrustAnchor>,
    reports: Seq<KeyReport>,
    i: int,
)
    ensures
        views(texts).len() == texts.len(),
        byte_views(bytes).len() == bytes.len(),
        cert_views(certs).len() == certs.len(),
        anchor_views(anchors).len() == anchors.len(),
        report_views(reports).len() == reports.len(),
        0 <= i < texts.len() ==> views(texts)[i] == texts[i]@,
        0 <= i < bytes.len() ==> byte_views(bytes)[i] == bytes[i]@,
        0 <= i < certs.len() ==> cert_views(certs)[i] == certs[i]@,
        0 <= i < anchors.len() ==> anchor_views(anchors)[i] == anchors[i]@,
        0 <= i < reports.len() ==> report_views(reports)[i] == reports[i]@,
{
}

/// What may be missing is viewed as missing exactly where it is, and else as
/// what is there.
pub proof fn law_optional_values_are_viewed_as_they_are(
    text: Option<String>,
    pair: Option<(String, String)>,
    public: Option<Result<Vec<u8>, String>>,
    fetched: Result<Value, FetchError>,
    result: Result<ValidationReport, KeyboxError>,
)
    ensures
        text is None <==> optional_text(text) is None,
        text matches Some(t) ==> optional_text(text) == Some(t@),
        pair is None <==> pair_view(pair) is None,
        pair matches Some(p) ==> pair_view(pair) == Some((p.0@, p.1@)),
        public is None <==> public_view(public) is None,
        public matches Some(Ok(der)) ==> public_view(public) == Some(
            Ok::<Seq<u8>, Seq<char>>(der@),
        ),
        public matches Some(Err(e)) ==> public_view(public) == Some(
            Err::<Seq<u8>, Seq<char>>(e@),
        ),
        fetched is Ok <==> fetched_view(fetched) is Ok,
        fetched matches Ok(v) ==> fetched_view(fetched)->Ok_0 == json_of(v),
        fetched matches Err(e) ==> fetched_view(fetched)->Err_0 == e,
        result is Ok <==> result_view(result) is Ok,
        result matches Ok(report) ==> result_view(result)->Ok_0 == report@,
        result matches Err(e) ==> result_view(result)->Err_0 == e@,
{
}

/// The view of a certificate holds its fields.
pub proof fn law_certificate_is_its_fields(cert: ParsedCert)
    ensures
        cert@.serial == cert.serial@,
        cert@.issuer.raw == cert.issuer.raw@,
        cert@.issuer.text == cert.issuer.text@,
        cert@.subject.raw == cert.subject.raw@,
        cert@.subject.text == cert.subject.text@,
        cert@.not_before.text == cert.not_before.text@,
        cert@.not_before.nanos == cert.not_before.nanos,
        cert@.not_after.text == cert.not_after.text@,
        cert@.not_after.nanos == cert.not_after.nanos,
        cert@.key.spki == cert.key.spki@,
        cert@.key.bits == cert.key.bits@,
        cert@.key.parameter_oid == optional_text(cert.key.algorithm.parameter_oid),
        cert@.signature.algorithm == cert.signature.algorithm@,
        cert@.signature.tbs == cert.signature.tbs@,
        cert@.signature.value == cert.signature.value@,
{
}

/// The view of a report on a key holds its fields.
pub proof fn law_key_report_is_its_fields(report: KeyReport)
    ensures
        report@.keybox_index == report.keybox_index,
        report@.key_index == report.key_index,
        report@.algorithm == report.algorithm@,
        report@.device_id == report.device_id@,
        report@.leaf_serial == report.leaf_serial@,
        report@.leaf_subject == report.leaf_subject@,
        report@.not_before == report.not_before@,
        report@.not_after == report.not_after@,
        report@.validity_ok == report.validity_ok,
        report@.chain_valid == report.chain_valid,
        report@.chain_len == report.chain_len,
        report@.root_type == report.root_type,
        report@.key_match == report.key_match,
        report@.revocation_reason == optional_text(report.revocation_reason),
        report@.revocation_serial == optional_text(report.revocation_serial),
        report@.errors == views(report.errors@),
        report@.ok == report.ok,
{
}

/// The view of a report on a file holds its fields.
pub proof fn law_file_report_is_its_fields(report: ValidationReport)
    ensures
        report@.ok == report.ok,
        report@.revocation_source == report.revocation_source,
        report@.revocation_online_error == optional_text(report.revocation_online_error),
        report@.keys == report_views(report.keys@),
        report@.errors == views(report.errors@),
{
}

/// The view of an anchor holds its fields.
pub proof fn law_anchor_is_its_fields(anchor: TrustAnchor)
    ensures
        anchor@.kind == anchor.kind,
        anchor@.key == anchor.key@,
{
}

/// The view of a list of revoked certificates holds its fields, and so does
/// that of a cache with one.
pub proof fn law_list_is_its_fields(
    list: Revocation,
    cache: RevocationCache,
    action: LoadAction,
)
    ensures
        list@.data == json_of(list.data),
        list.origin is Online ==> list@.source == RevocationSource::Online && list@.online_error
            is None,
        list.origin matches Origin::Embedded { online_error } ==> list@.source
            == RevocationSource::Embedded && list@.online_error == Some(online_error@),
        cache.stored is None <==> cache@ is None,
        cache.stored matches Some(stored) ==> cache@->Some_0.stored == stored@
            && cache@->Some_0.stored_at == cache.stored_at,
        action is Fetch <==> action@ is Fetch,
        action matches LoadAction::Use { revocation } ==> action@->revocation == revocation@,
{
}

/// The view of an error tells it from the others and holds what it holds.
pub proof fn law_errors_are_viewed_as_they_are(
    link: LinkError,
    chain: ChainError,
    cert: CertError,
    anchor: AnchorError,
    keybox: KeyboxError,
)
    ensures
        link is NameMismatch <==> link@ is NameMismatch,
        link is Rejected <==> link@ is Rejected,
        link is EcdsaSha256Curve <==> link@ is EcdsaSha256Curve,
        link is EcdsaSha384Curve <==> link@ is EcdsaSha384Curve,
        link is EcdsaSha1 <==> link@ is EcdsaSha1,
        link is EcdsaSha512 <==> link@ is EcdsaSha512,
        link matches LinkError::NameMismatch { issuer, subject } ==> link@
            == (LinkErrorView::NameMismatch { issuer: issuer@, subject: subject@ }),
        link matches LinkError::Rejected { algorithm } ==> link@ == (LinkErrorView::Rejected {
            algorithm: algorithm@,
        }),
        link matches LinkError::EcdsaSha256Curve { curve } ==> link@
            == (LinkErrorView::EcdsaSha256Curve { curve: optional_text(curve) }),
        link matches LinkError::EcdsaSha384Curve { curve } ==> link@
            == (LinkErrorView::EcdsaSha384Curve { curve: optional_text(curve) }),
        link matches LinkError::UnsupportedAlgorithm { algorithm } ==> link@
            == (LinkErrorView::UnsupportedAlgorithm { algorithm: algorithm@ }),
        chain@.hop == chain.hop,
        chain@.cause == chain.cause@,
        cert@.position == cert.position,
        cert@.cause == cert.cause@,
        anchor is NotUtf8 <==> anchor@ is NotUtf8,
        anchor matches AnchorError::Pem { cause } ==> anchor@ == (AnchorErrorView::Pem { cause }),
        anchor matches AnchorError::Spki { message } ==> anchor@ == (AnchorErrorView::Spki {
            message: message@,
        }),
        keybox is Empty <==> keybox@ is Empty,
        keybox is NotUtf8 <==> keybox@ is NotUtf8,
        keybox is Xml <==> keybox@ is Xml,
        keybox is NoKeybox <==> keybox@ is NoKeybox,
        keybox is NoKey <==> keybox@ is NoKey,
        keybox matches KeyboxError::TooLarge { len } ==> keybox@ == (KeyboxErrorView::TooLarge {
            len: len as nat,
        }),
        keybox matches KeyboxError::Failed { details } ==> keybox@ == (KeyboxErrorView::Failed {
            details: details@,
        }),
{
}

} // verus!
