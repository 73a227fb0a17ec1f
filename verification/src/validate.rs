//! Validation of a whole keybox file.

use crate::anchors::{anchor_views, AnchorView, TrustAnchor};
use crate::clock::{are_readings, is_reading, Clock};
use crate::json::{members_of, Json};
use crate::report::{check_key, key_report, place_of, KeyPlace, KeyReport, KeyReportView};
use crate::revocation::{
    entries_of, revocation_entries, Revocation, RevocationSource, RevocationView,
};
use crate::text::{decimal, decimal_of, join, joined, optional_text, views};
use crate::xml_model::{AndroidAttestation, Keybox};
use serde_json::Value;
use vstd::prelude::*;
use vstd::utf8::{decode_utf8, valid_utf8};

verus! {

/// The most bytes that a keybox file may hold.
pub const MAX_KEYBOX_BYTES: usize = 1_048_576;

/// What is found out about all keys of a keybox file.
#[derive(Debug)]
pub struct ValidationReport {
    pub ok: bool,
    pub revocation_source: RevocationSource,
    pub revocation_online_error: Option<String>,
    pub keys: Vec<KeyReport>,
    pub errors: Vec<String>,
}

/// The values of a [`ValidationReport`].
#[verifier::ext_equal]
pub struct ValidationReportView {
    pub ok: bool,
    pub revocation_source: RevocationSource,
    pub revocation_online_error: Option<Seq<char>>,
    pub keys: Seq<KeyReportView>,
    pub errors: Seq<Seq<char>>,
}

/// The values of each report of a list.
pub open spec fn report_views(keys: Seq<KeyReport>) -> Seq<KeyReportView> {
    keys.map_values(|k: KeyReport| k@)
}

impl View for ValidationReport {
    type V = ValidationReportView;

    open spec fn view(&self) -> ValidationReportView {
        ValidationReportView {
            ok: self.ok,
            revocation_source: self.revocation_source,
            revocation_online_error: optional_text(self.revocation_online_error),
            keys: report_views(self.keys@),
            errors: views(self.errors@),
        }
    }
}

/// Why a keybox file is not valid.
#[derive(Debug)]
pub enum KeyboxError {
    /// It is empty.
    Empty,
    /// It holds `len` bytes, which is more than `MAX_KEYBOX_BYTES`.
    TooLarge { len: usize },
    /// It is not a text.
    NotUtf8,
    /// It is not the XML of a keybox file.
    Xml,
    /// It has no keybox.
    NoKeybox,
    /// Its keyboxes have no key.
    NoKey,
    /// None of its keys is valid: what is wrong with each.
    Failed { details: String },
}

/// The values of a [`KeyboxError`].
#[verifier::ext_equal]
pub enum KeyboxErrorView {
    Empty,
    TooLarge { len: nat },
    NotUtf8,
    Xml,
    NoKeybox,
    NoKey,
    Failed { details: Seq<char> },
}

impl View for KeyboxError {
    type V = KeyboxErrorView;

    open spec fn view(&self) -> KeyboxErrorView {
        match self {
            KeyboxError::Empty => KeyboxErrorView::Empty,
            KeyboxError::TooLarge { len } => KeyboxErrorView::TooLarge { len: *len as nat },
            KeyboxError::NotUtf8 => KeyboxErrorView::NotUtf8,
            KeyboxError::Xml => KeyboxErrorView::Xml,
            KeyboxError::NoKeybox => KeyboxErrorView::NoKeybox,
            KeyboxError::NoKey => KeyboxErrorView::NoKey,
            KeyboxError::Failed { details } => KeyboxErrorView::Failed { details: details@ },
        }
    }
}

impl KeyboxErrorView {
    /// What the error says.
    pub open spec fn message(self) -> Seq<char> {
        match self {
            KeyboxErrorView::Empty => "keybox data is empty"@,
            KeyboxErrorView::TooLarge { len } => "keybox data exceeds "@ + decimal_of(
                MAX_KEYBOX_BYTES as nat,
            ) + " byte cap ("@ + decimal_of(len) + " bytes)"@,
            KeyboxErrorView::NotUtf8 => "keybox data is not valid UTF-8"@,
            KeyboxErrorView::Xml => "keybox XML parse failed"@,
            KeyboxErrorView::NoKeybox => "no <Keybox> elements found"@,
            KeyboxErrorView::NoKey => "no <Key> elements found in any <Keybox>"@,
            KeyboxErrorView::Failed { details } => "keybox validation failed: "@ + details,
        }
    }
}

impl KeyboxError {
    /// The message of the error.
    pub fn message(&self) -> (r: String)
        ensures
            r@ == self@.message(),
    {
        match self {
            KeyboxError::Empty => "keybox data is empty".to_string(),
            KeyboxError::TooLarge { len } => "keybox data exceeds ".to_string().concat(
                decimal(MAX_KEYBOX_BYTES as u64).as_str(),
            ).concat(" byte cap (").concat(decimal(*len as u64).as_str()).concat(" bytes)"),
            KeyboxError::NotUtf8 => "keybox data is not valid UTF-8".to_string(),
            KeyboxError::Xml => "keybox XML parse failed".to_string(),
            KeyboxError::NoKeybox => "no <Keybox> elements found".to_string(),
            KeyboxError::NoKey => "no <Key> elements found in any <Keybox>".to_string(),
            KeyboxError::Failed { details } => "keybox validation failed: ".to_string().concat(
                details.as_str(),
            ),
        }
    }
}

/// The text of a keybox file.
pub open spec fn text_of_keybox(data: Seq<u8>) -> Result<Seq<char>, KeyboxErrorView> {
    if data.len() == 0 {
        Err(KeyboxErrorView::Empty)
    } else if data.len() > MAX_KEYBOX_BYTES {
        Err(KeyboxErrorView::TooLarge { len: data.len() })
    } else if !valid_utf8(data) {
        Err(KeyboxErrorView::NotUtf8)
    } else {
        Ok(decode_utf8(data))
    }
}

/// The keys of one keybox, which is counted from 1, with their places.
pub open spec fn places_in(keybox: Keybox, keybox_index: nat) -> Seq<KeyPlace> {
    Seq::new(
        keybox.keys@.len(),
        |j: int| place_of(keybox_index, (j + 1) as nat, keybox, keybox.keys@[j]),
    )
}

/// The keys of all keyboxes with their places, in the order of the file.
pub open spec fn key_places(keyboxes: Seq<Keybox>) -> Seq<KeyPlace>
    decreases keyboxes.len(),
{
    if keyboxes.len() == 0 {
        seq![]
    } else {
        key_places(keyboxes.drop_last()) + places_in(keyboxes.last(), keyboxes.len())
    }
}

/// The report on each key; `clocks` are the times at which they are checked.
pub open spec fn key_reports(
    places: Seq<KeyPlace>,
    entries: Map<Seq<char>, Json>,
    anchors: Seq<AnchorView>,
    clocks: Seq<Clock>,
) -> Seq<KeyReportView> {
    Seq::new(places.len(), |n: int| key_report(places[n], entries, anchors, clocks[n]))
}

/// Whether one of the keys is valid.
pub open spec fn any_ok(keys: Seq<KeyReportView>) -> bool {
    exists|n: int| 0 <= n < keys.len() && #[trigger] keys[n].ok
}

/// What the reports on the keys of a file come to.
pub open spec fn summary_of(keys: Seq<KeyReportView>, revocation: RevocationView) -> Result<
    ValidationReportView,
    KeyboxErrorView,
> {
    if keys.len() == 0 {
        Err(KeyboxErrorView::NoKey)
    } else {
        Ok(
            ValidationReportView {
                ok: any_ok(keys),
                revocation_source: revocation.source,
                revocation_online_error: revocation.online_error,
                keys,
                errors: seq![],
            },
        )
    }
}

/// What validation of a parsed file comes to, with each key checked at the
/// time that `clocks` gives for it.
pub open spec fn attestation_summary(
    attestation: AndroidAttestation,
    revocation: RevocationView,
    anchors: Seq<AnchorView>,
    clocks: Seq<Clock>,
) -> Result<ValidationReportView, KeyboxErrorView> {
    summary_of(
        key_reports(
            key_places(attestation.keyboxes@),
            entries_of(revocation.data),
            anchors,
            clocks,
        ),
        revocation,
    )
}

/// What is wrong with one key.
pub open spec fn failure_line(key: KeyReportView) -> Seq<char> {
    "Keybox#"@ + decimal_of(key.keybox_index) + "/Key#"@ + decimal_of(key.key_index) + " ("@
        + key.algorithm + "): "@ + joined(key.errors, "; "@)
}

/// What is wrong with each key that is not valid.
pub open spec fn failure_lines(keys: Seq<KeyReportView>) -> Seq<Seq<char>> {
    keys.filter(|k: KeyReportView| !k.ok).map_values(|k: KeyReportView| failure_line(k))
}

/// What a report comes to: one valid key is enough.
pub open spec fn conclusion_of(report: ValidationReportView) -> Result<(), KeyboxErrorView> {
    if report.ok {
        Ok(())
    } else {
        Err(KeyboxErrorView::Failed { details: joined(failure_lines(report.keys), " | "@) })
    }
}

/// What the result of a validation comes to.
pub open spec fn verdict_on(result: Result<ValidationReportView, KeyboxErrorView>) -> Result<
    (),
    KeyboxErrorView,
> {
    match result {
        Ok(report) => conclusion_of(report),
        Err(e) => Err(e),
    }
}

/// The values of the result of a validation.
pub open spec fn result_view(result: Result<ValidationReport, KeyboxError>) -> Result<
    ValidationReportView,
    KeyboxErrorView,
> {
    match result {
        Ok(report) => Ok(report@),
        Err(e) => Err(e@),
    }
}

/// The text of a keybox file.
pub fn keybox_text(data: &[u8]) -> (r: Result<&str, KeyboxError>)
    ensures
        match r {
            Ok(text) => text_of_keybox(data@) == Ok::<Seq<char>, KeyboxErrorView>(text@),
            Err(e) => text_of_keybox(data@) == Err::<Seq<char>, KeyboxErrorView>(e@),
        },
{
    if data.len() == 0 {
        return Err(KeyboxError::Empty);
    }
    if data.len() > MAX_KEYBOX_BYTES {
        return Err(KeyboxError::TooLarge { len: data.len() });
    }
    match core::str::from_utf8(data) {
        Ok(text) => Ok(text),
        Err(_) => Err(KeyboxError::NotUtf8),
    }
}

/// Checks every key of a parsed file now, each at the time that the clock tells.
pub fn check_keys(
    attestation: &AndroidAttestation,
    entries: &serde_json::Map<String, Value>,
    anchors: &Vec<TrustAnchor>,
) -> (r: Vec<KeyReport>)
    ensures
        exists|clocks: Seq<Clock>|
            {
                &&& are_readings(clocks, key_places(attestation.keyboxes@).len())
                &&& report_views(r@) == #[trigger] key_reports(
                    key_places(attestation.keyboxes@),
                    members_of(*entries),
                    anchor_views(anchors@),
                    clocks,
                )
            },
{
    let keyboxes = &attestation.keyboxes;
    let ghost members = members_of(*entries);
    let ghost known = anchor_views(anchors@);
    let ghost mut clocks: Seq<Clock> = seq![];
    let mut out: Vec<KeyReport> = Vec::new();
    let mut i: usize = 0;
    assert(report_views(out@) == key_reports(key_places(keyboxes@.take(0)), members, known, clocks));
    while i < keyboxes.len()
        invariant
            i <= keyboxes@.len(),
            members == members_of(*entries),
            known == anchor_views(anchors@),
            are_readings(clocks, key_places(keyboxes@.take(i as int)).len()),
            report_views(out@) == key_reports(
                key_places(keyboxes@.take(i as int)),
                members,
                known,
                clocks,
            ),
        decreases keyboxes@.len() - i,
    {
        let keybox = &keyboxes[i];
        let ghost before = key_places(keyboxes@.take(i as int));
        let ghost inside = places_in(*keybox, (i + 1) as nat);
        let mut j: usize = 0;
        assert(before + inside.take(0) == before);
        while j < keybox.keys.len()
            invariant
                i < keyboxes@.len(),
                i < usize::MAX,
                j <= keybox.keys@.len(),
                members == members_of(*entries),
                known == anchor_views(anchors@),
                inside == places_in(*keybox, (i + 1) as nat),
                are_readings(clocks, before.len() + j as nat),
                report_views(out@) == key_reports(
                    before + inside.take(j as int),
                    members,
                    known,
                    clocks,
                ),
            decreases keybox.keys@.len() - j,
        {
            let report = check_key(i + 1, j + 1, keybox, &keybox.keys[j], entries, anchors);
            let ghost done = before + inside.take(j as int);
            let ghost place = inside[j as int];
            let ghost old_out = out@;
            out.push(report);
            proof {
                let clock = choose|clock: Clock|
                    is_reading(clock) && report@ == #[trigger] key_report(
                        place,
                        members,
                        known,
                        clock,
                    );
                let old_clocks = clocks;
                clocks = clocks.push(clock);
                assert(before + inside.take(j + 1) == done.push(place));
                assert(report_views(out@) == report_views(old_out).push(report@));
                assert(key_reports(done.push(place), members, known, clocks) == key_reports(
                    done,
                    members,
                    known,
                    old_clocks,
                ).push(report@));
            }
            j = j + 1;
        }
        proof {
            assert(inside.take(j as int) == inside);
            assert(keyboxes@.take(i + 1).drop_last() == keyboxes@.take(i as int));
        }
        i = i + 1;
    }
    assert(keyboxes@.take(i as int) == keyboxes@);
    out
}

/// Whether one of the keys is valid.
fn some_key_ok(keys: &Vec<KeyReport>) -> (r: bool)
    ensures
        r == any_ok(report_views(keys@)),
{
    let ghost all = report_views(keys@);
    let mut i: usize = 0;
    while i < keys.len()
        invariant
            i <= keys@.len(),
            all == report_views(keys@),
            forall|n: int| 0 <= n < i ==> !#[trigger] all[n].ok,
        decreases keys@.len() - i,
    {
        assert(all[i as int] == keys@[i as int]@);
        if keys[i].ok {
            assert(all[i as int].ok);
            return true;
        }
        i = i + 1;
    }
    false
}

/// Sums the reports on the keys of a file up.
pub fn summarize(keys: Vec<KeyReport>, revocation: Revocation) -> (r: Result<
    ValidationReport,
    KeyboxError,
>)
    ensures
        result_view(r) == summary_of(report_views(keys@), revocation@),
{
    if keys.len() == 0 {
        return Err(KeyboxError::NoKey);
    }
    let ok = some_key_ok(&keys);
    let report = ValidationReport {
        ok,
        revocation_source: revocation.source(),
        revocation_online_error: revocation.online_error(),
        keys,
        errors: Vec::new(),
    };
    assert(views(report.errors@) == Seq::<Seq<char>>::empty());
    Ok(report)
}

/// What is wrong with one key.
fn describe_failure(key: &KeyReport) -> (r: String)
    ensures
        r@ == failure_line(key@),
{
    "Keybox#".to_string().concat(decimal(key.keybox_index as u64).as_str()).concat("/Key#").concat(
        decimal(key.key_index as u64).as_str(),
    ).concat(" (").concat(key.algorithm.as_str()).concat("): ").concat(
        join(&key.errors, "; ").as_str(),
    )
}

/// What a report comes to: one valid key is enough.
pub fn conclude(report: &ValidationReport) -> (r: Result<(), KeyboxError>)
    ensures
        match r {
            Ok(_) => conclusion_of(report@) == Ok::<(), KeyboxErrorView>(()),
            Err(e) => conclusion_of(report@) == Err::<(), KeyboxErrorView>(e@),
        },
{
    if report.ok {
        return Ok(());
    }
    let keys = &report.keys;
    let ghost all = report_views(keys@);
    let mut lines: Vec<String> = Vec::new();
    let mut i: usize = 0;
    proof {
        reveal(Seq::filter);
        assert(views(lines@) == failure_lines(all.take(0)));
    }
    while i < keys.len()
        invariant
            i <= keys@.len(),
            all == report_views(keys@),
            views(lines@) == failure_lines(all.take(i as int)),
        decreases keys@.len() - i,
    {
        let ghost next = all.take(i + 1);
        let ghost before = lines@;
        proof {
            reveal(Seq::filter);
            assert(next.drop_last() == all.take(i as int));
            assert(next.last() == keys@[i as int]@);
        }
        if !keys[i].ok {
            let line = describe_failure(&keys[i]);
            lines.push(line);
            assert(views(lines@) == views(before).push(line@));
            assert(failure_lines(next) == failure_lines(next.drop_last()).push(line@));
        } else {
            assert(failure_lines(next) == failure_lines(next.drop_last()));
        }
        i = i + 1;
    }
    assert(all.take(i as int) == all);
    Err(KeyboxError::Failed { details: join(&lines, " | ") })
}

/// What validation of the file `data` may come to, where `parse` reads its
/// text and `load` gets the list of revoked certificates.
pub open spec fn validates_to<
    P: FnOnce(&str) -> Option<AndroidAttestation>,
    L: FnOnce() -> Revocation,
>(
    data: Seq<u8>,
    anchors: Seq<AnchorView>,
    parse: P,
    load: L,
    result: Result<ValidationReportView, KeyboxErrorView>,
) -> bool {
    match text_of_keybox(data) {
        Err(e) => result == Err::<ValidationReportView, KeyboxErrorView>(e),
        Ok(text) => exists|xml: &str, parsed: Option<AndroidAttestation>|
            {
                &&& xml@ == text
                &&& #[trigger] call_ensures(parse, (xml,), parsed)
                &&& parsed_validates_to(parsed, anchors, load, result)
            },
    }
}

/// What validation of the parsed file `parsed` may come to.
pub open spec fn parsed_validates_to<L: FnOnce() -> Revocation>(
    parsed: Option<AndroidAttestation>,
    anchors: Seq<AnchorView>,
    load: L,
    result: Result<ValidationReportView, KeyboxErrorView>,
) -> bool {
    match parsed {
        None => result == Err::<ValidationReportView, KeyboxErrorView>(KeyboxErrorView::Xml),
        Some(attestation) => if attestation.keyboxes@.len() == 0 {
            result == Err::<ValidationReportView, KeyboxErrorView>(KeyboxErrorView::NoKeybox)
        } else {
            exists|revocation: Revocation, clocks: Seq<Clock>|
                {
                    &&& call_ensures(load, (), revocation)
                    &&& are_readings(clocks, key_places(attestation.keyboxes@).len())
                    &&& result == #[trigger] attestation_summary(
                        attestation,
                        revocation@,
                        anchors,
                        clocks,
                    )
                }
        },
    }
}

/// Checks every key of a keybox file now. `parse` reads the XML of the file, and
/// `load` gets the list of revoked certificates once there are keyboxes.
pub fn validate_full<
    P: FnOnce(&str) -> Option<AndroidAttestation>,
    L: FnOnce() -> Revocation,
>(data: &[u8], anchors: &Vec<TrustAnchor>, parse: P, load: L) -> (r: Result<
    ValidationReport,
    KeyboxError,
>)
    requires
        forall|xml: &str| call_requires(parse, (xml,)),
        call_requires(load, ()),
    ensures
        validates_to(data@, anchor_views(anchors@), parse, load, result_view(r)),
{
    let text = match keybox_text(data) {
        Ok(text) => text,
        Err(e) => return Err(e),
    };
    let parsed = parse(text);
    assert(call_ensures(parse, (text,), parsed));
    let attestation = match parsed {
        Some(attestation) => attestation,
        None => return Err(KeyboxError::Xml),
    };
    if attestation.keyboxes.len() == 0 {
        return Err(KeyboxError::NoKeybox);
    }
    let revocation = load();
    let entries = revocation_entries(&revocation.data);
    let keys = check_keys(&attestation, &entries, anchors);
    let r = summarize(keys, revocation);
    proof {
        let clocks = choose|clocks: Seq<Clock>|
            are_readings(clocks, key_places(attestation.keyboxes@).len()) && report_views(keys@)
                == #[trigger] key_reports(
                key_places(attestation.keyboxes@),
                members_of(entries),
                anchor_views(anchors@),
                clocks,
            );
        assert(result_view(r) == attestation_summary(
            attestation,
            revocation@,
            anchor_views(anchors@),
            clocks,
        ));
    }
    r
}

/// Says whether a keybox file holds a valid key, and what is wrong with it
/// where it does not.
pub fn validate<
    P: FnOnce(&str) -> Option<AndroidAttestation>,
    L: FnOnce() -> Revocation,
>(data: &[u8], anchors: &Vec<TrustAnchor>, parse: P, load: L) -> (r: Result<(), KeyboxError>)
    requires
        forall|xml: &str| call_requires(parse, (xml,)),
        call_requires(load, ()),
    ensures
        exists|result: Result<ValidationReportView, KeyboxErrorView>|
            {
                &&& #[trigger] validates_to(data@, anchor_views(anchors@), parse, load, result)
                &&& match r {
                    Ok(_) => verdict_on(result) == Ok::<(), KeyboxErrorView>(()),
                    Err(e) => verdict_on(result) == Err::<(), KeyboxErrorView>(e@),
                }
            },
{
    match validate_full(data, anchors, parse, load) {
        Ok(report) => conclude(&report),
        Err(e) => Err(e),
    }
}

} // verus!
