//! The list of revoked certificates: where it comes from and how it is read.

use crate::clock::{epoch_secs, moment_nanos};
use crate::json::{
    json_of, json_of_bytes, json_of_text, members_clone, members_get, members_insert,
    members_is_empty, members_new, members_of, no_members, value_as_object, value_as_str,
    value_clone, value_from_slice, value_from_str, value_get, value_object, Json,
};
use crate::text::{decimal, decimal_of, optional_text};
use crate::x509::{cert_views, CertView, ParsedCert};
use serde_json::Value;
use std::time::SystemTime;
use vstd::prelude::*;

verus! {

/// Where the list is published.
pub const GOOGLE_STATUS_URL: &'static str = "https://android.googleapis.com/attestation/status";

/// How long a request for the list may take, in seconds.
pub const REVOCATION_TIMEOUT_SECS: u64 = 12;

/// How long a list stays fresh, in nanoseconds.
pub const REVOCATION_CACHE_TTL_NANOS: u64 = 60_000_000_000;

/// The reason of an entry that gives none.
pub const UNKNOWN_REASON: &'static str = "UNKNOWN";

/// Where a list came from.
#[derive(Debug, Clone, Copy, PartialEq, Eq, Structural)]
pub enum RevocationSource {
    /// It was fetched.
    Online,
    /// It is the one that the program carries.
    Embedded,
}

/// Where a list came from, and why it could not be fetched where it was not.
#[derive(Debug)]
pub enum Origin {
    /// It was fetched.
    Online,
    /// It is the one that the program carries.
    Embedded { online_error: String },
}

/// A list of revoked certificates.
#[derive(Debug)]
pub struct Revocation {
    pub origin: Origin,
    pub data: Value,
}

/// The values of a [`Revocation`].
#[verifier::ext_equal]
pub struct RevocationView {
    pub source: RevocationSource,
    pub online_error: Option<Seq<char>>,
    pub data: Json,
}

impl View for Revocation {
    type V = RevocationView;

    open spec fn view(&self) -> RevocationView {
        RevocationView {
            source: match self.origin {
                Origin::Online => RevocationSource::Online,
                Origin::Embedded { .. } => RevocationSource::Embedded,
            },
            online_error: match self.origin {
                Origin::Online => None,
                Origin::Embedded { online_error } => Some(online_error@),
            },
            data: json_of(self.data),
        }
    }
}

impl Clone for Revocation {
    fn clone(&self) -> (r: Self)
        ensures
            r@ == self@,
    {
        let origin = match &self.origin {
            Origin::Online => Origin::Online,
            Origin::Embedded { online_error } => Origin::Embedded {
                online_error: online_error.clone(),
            },
        };
        Revocation { origin, data: value_clone(&self.data) }
    }
}

impl Revocation {
    /// Where the list came from.
    pub fn source(&self) -> (r: RevocationSource)
        ensures
            r == self@.source,
    {
        match &self.origin {
            Origin::Online => RevocationSource::Online,
            Origin::Embedded { .. } => RevocationSource::Embedded,
        }
    }

    /// Why the list could not be fetched, where it was not.
    pub fn online_error(&self) -> (r: Option<String>)
        ensures
            optional_text(r) == self@.online_error,
    {
        match &self.origin {
            Origin::Online => None,
            Origin::Embedded { online_error } => Some(online_error.clone()),
        }
    }
}

/// Why the list could not be fetched.
#[derive(Debug, Clone, Copy, PartialEq, Eq, Structural)]
pub enum FetchError {
    /// The system clock stands before 1970.
    ClockBeforeEpoch,
    /// The request was not answered.
    Get,
    /// The answer could not be read.
    Body,
    /// The answer is not JSON.
    Json,
}

impl FetchError {
    /// What the error says.
    pub open spec fn message_spec(self) -> Seq<char> {
        match self {
            FetchError::ClockBeforeEpoch => "system clock before epoch"@,
            FetchError::Get => "revocation HTTP GET failed"@,
            FetchError::Body => "revocation body read failed"@,
            FetchError::Json => "revocation JSON parse failed"@,
        }
    }

    /// The message of the error.
    pub fn message(&self) -> (r: String)
        ensures
            r@ == self.message_spec(),
    {
        match self {
            FetchError::ClockBeforeEpoch => "system clock before epoch".to_string(),
            FetchError::Get => "revocation HTTP GET failed".to_string(),
            FetchError::Body => "revocation body read failed".to_string(),
            FetchError::Json => "revocation JSON parse failed".to_string(),
        }
    }
}

/// A header of a request.
#[derive(Debug)]
pub struct Header {
    pub name: &'static str,
    pub value: &'static str,
}

/// A request for the list.
#[derive(Debug)]
pub struct StatusRequest {
    pub url: String,
    pub headers: Vec<Header>,
    pub timeout_secs: u64,
}

/// What came of a request.
#[derive(Debug)]
pub enum StatusReply {
    /// It was not answered.
    NoAnswer,
    /// The body of the answer could not be read.
    NoBody,
    /// The body of the answer.
    Body { text: String },
}

/// The address that is asked at the time `ts`, in seconds since the start of 1970.
pub open spec fn status_url_at(ts: nat) -> Seq<char> {
    GOOGLE_STATUS_URL@ + "?ts="@ + decimal_of(ts)
}

/// Whether a header is `name: value`.
pub open spec fn is_header(header: Header, name: Seq<char>, value: Seq<char>) -> bool {
    header.name@ == name && header.value@ == value
}

/// Whether `request` is the request for the list at the time `ts`. Nothing on
/// the way may answer it from a store.
pub open spec fn is_status_request(request: StatusRequest, ts: nat) -> bool {
    let headers = request.headers@;
    &&& request.url@ == status_url_at(ts)
    &&& request.timeout_secs == REVOCATION_TIMEOUT_SECS
    &&& headers.len() == 3
    &&& is_header(
        headers[0],
        "Cache-Control"@,
        "max-age=0, no-cache, no-store, must-revalidate"@,
    )
    &&& is_header(headers[1], "Pragma"@, "no-cache"@)
    &&& is_header(headers[2], "Expires"@, "0"@)
}

/// The list that a reply holds.
pub open spec fn status_of(reply: StatusReply) -> Result<Json, FetchError> {
    match reply {
        StatusReply::NoAnswer => Err(FetchError::Get),
        StatusReply::NoBody => Err(FetchError::Body),
        StatusReply::Body { text } => match json_of_text(text@) {
            Some(json) => Ok(json),
            None => Err(FetchError::Json),
        },
    }
}

/// The list without entries.
pub open spec fn no_entries() -> Json {
    Json::Object(no_members().insert("entries"@, Json::Object(no_members())))
}

/// The list that is used: the fetched one, or else the one in `embedded`, or
/// else one without entries.
pub open spec fn revocation_from(
    fetched: Result<Json, FetchError>,
    embedded: Seq<u8>,
) -> RevocationView {
    match fetched {
        Ok(data) => RevocationView {
            source: RevocationSource::Online,
            online_error: None,
            data,
        },
        Err(e) => RevocationView {
            source: RevocationSource::Embedded,
            online_error: Some(e.message_spec()),
            data: match json_of_bytes(embedded) {
                Some(data) => data,
                None => no_entries(),
            },
        },
    }
}

/// The values of what was fetched.
pub open spec fn fetched_view(fetched: Result<Value, FetchError>) -> Result<Json, FetchError> {
    match fetched {
        Ok(v) => Ok(json_of(v)),
        Err(e) => Err(e),
    }
}

/// The entries of a list: one for each revoked serial number.
pub open spec fn entries_of(data: Json) -> Map<Seq<char>, Json> {
    match data.member("entries"@) {
        Some(Json::Object(entries)) => entries,
        _ => no_members(),
    }
}

/// The reason that an entry gives.
pub open spec fn reason_of(entry: Json) -> Seq<char> {
    match entry.member("reason"@) {
        Some(Json::Text(reason)) => reason,
        _ => UNKNOWN_REASON@,
    }
}

/// The serial number of the leaf of a chain and the reason of its entry, if
/// there is one.
pub open spec fn revoked(certs: Seq<CertView>, entries: Map<Seq<char>, Json>) -> Option<
    (Seq<char>, Seq<char>),
> {
    if certs.len() > 0 && entries.contains_key(certs[0].serial) {
        Some((certs[0].serial, reason_of(entries[certs[0].serial])))
    } else {
        None
    }
}

/// The request for the list, where the clock tells a time after the start of 1970.
pub fn status_request(now_secs: Option<u64>) -> (r: Result<StatusRequest, FetchError>)
    ensures
        match now_secs {
            Some(ts) => r is Ok && is_status_request(r->Ok_0, ts as nat),
            None => r == Err::<StatusRequest, FetchError>(FetchError::ClockBeforeEpoch),
        },
{
    let ts: u64 = match now_secs {
        Some(ts) => ts,
        None => return Err(FetchError::ClockBeforeEpoch),
    };
    let url = GOOGLE_STATUS_URL.to_string().concat("?ts=").concat(decimal(ts).as_str());
    let mut headers: Vec<Header> = Vec::new();
    headers.push(
        Header {
            name: "Cache-Control",
            value: "max-age=0, no-cache, no-store, must-revalidate",
        },
    );
    headers.push(Header { name: "Pragma", value: "no-cache" });
    headers.push(Header { name: "Expires", value: "0" });
    Ok(StatusRequest { url, headers, timeout_secs: REVOCATION_TIMEOUT_SECS })
}

/// The request for the list at the time that the clock tells.
pub fn status_request_now() -> (r: Result<StatusRequest, FetchError>)
    ensures
        exists|moment: SystemTime|
            {
                let nanos = #[trigger] moment_nanos(moment);
                match r {
                    Ok(request) => nanos >= 0 && is_status_request(
                        request,
                        (nanos / 1_000_000_000) as nat,
                    ),
                    Err(e) => nanos < 0 && e == FetchError::ClockBeforeEpoch,
                }
            },
{
    status_request(epoch_secs())
}

/// Reads the list in a reply.
pub fn read_status(reply: StatusReply) -> (r: Result<Value, FetchError>)
    ensures
        fetched_view(r) == status_of(reply),
{
    match reply {
        StatusReply::NoAnswer => Err(FetchError::Get),
        StatusReply::NoBody => Err(FetchError::Body),
        StatusReply::Body { text } => match value_from_str(text.as_str()) {
            Some(v) => Ok(v),
            None => Err(FetchError::Json),
        },
    }
}

/// The list without entries.
fn empty_status() -> (r: Value)
    ensures
        json_of(r) == no_entries(),
{
    let mut members = members_new();
    members_insert(&mut members, "entries".to_string(), value_object(members_new()));
    value_object(members)
}

/// Picks the list that is used: the fetched one, as it is, or else the one that
/// the program carries.
pub fn choose_revocation(fetched: Result<Value, FetchError>, embedded: &[u8]) -> (r: Revocation)
    ensures
        r@ == revocation_from(fetched_view(fetched), embedded@),
        fetched matches Ok(data) ==> r.data == data,
{
    match fetched {
        Ok(data) => Revocation { origin: Origin::Online, data },
        Err(e) => {
            let data = match value_from_slice(embedded) {
                Some(data) => data,
                None => empty_status(),
            };
            Revocation { origin: Origin::Embedded { online_error: e.message() }, data }
        },
    }
}

/// The entries of a list.
pub fn revocation_entries(data: &Value) -> (r: serde_json::Map<String, Value>)
    ensures
        members_of(r) == entries_of(json_of(*data)),
{
    if let Some(entries) = value_get(data, "entries") {
        if let Some(members) = value_as_object(entries) {
            return members_clone(members);
        }
    }
    members_new()
}

/// The reason that an entry gives.
fn entry_reason(entry: &Value) -> (r: String)
    ensures
        r@ == reason_of(json_of(*entry)),
{
    if let Some(reason) = value_get(entry, "reason") {
        if let Some(text) = value_as_str(reason) {
            return text.to_string();
        }
    }
    UNKNOWN_REASON.to_string()
}

/// The values of a serial number and a reason.
pub open spec fn pair_view(found: Option<(String, String)>) -> Option<(Seq<char>, Seq<char>)> {
    match found {
        Some((serial, reason)) => Some((serial@, reason@)),
        None => None,
    }
}

/// Looks the leaf of a chain up among the entries of a list.
pub fn lookup_revocation(
    certs: &Vec<ParsedCert>,
    entries: &serde_json::Map<String, Value>,
) -> (r: Option<(String, String)>)
    ensures
        pair_view(r) == revoked(cert_views(certs@), members_of(*entries)),
{
    if members_is_empty(entries) {
        return None;
    }
    if certs.len() == 0 {
        return None;
    }
    assert(cert_views(certs@)[0] == certs@[0]@);
    let serial = certs[0].serial.clone();
    match members_get(entries, serial.as_str()) {
        Some(entry) => {
            let reason = entry_reason(entry);
            Some((serial, reason))
        },
        None => None,
    }
}

/// The last list, with the moment at which it was stored.
#[derive(Debug)]
pub struct RevocationCache {
    pub stored_at: u64,
    pub stored: Option<Revocation>,
}

/// The values of a [`RevocationCache`].
#[verifier::ext_equal]
pub struct CacheView {
    pub stored_at: nat,
    pub stored: RevocationView,
}

impl View for RevocationCache {
    type V = Option<CacheView>;

    open spec fn view(&self) -> Option<CacheView> {
        match self.stored {
            Some(revocation) => Some(
                CacheView { stored_at: self.stored_at as nat, stored: revocation@ },
            ),
            None => None,
        }
    }
}

/// The list in a cache that is fresh at the moment `now`. A clock that went
/// back counts as one that stood still.
pub open spec fn fresh_at(cache: Option<CacheView>, now: nat) -> Option<RevocationView> {
    match cache {
        Some(c) => if now < c.stored_at + REVOCATION_CACHE_TTL_NANOS {
            Some(c.stored)
        } else {
            None
        },
        None => None,
    }
}

/// What happened while a list is loaded.
#[derive(Debug)]
pub enum LoadEvent {
    /// The list is asked for.
    Start,
    /// The list was fetched, or could not be.
    Fetched { result: Result<Value, FetchError> },
}

/// What is to be done next while a list is loaded.
#[derive(Debug)]
pub enum LoadAction {
    /// The list is to be fetched.
    Fetch,
    /// This is the list.
    Use { revocation: Revocation },
}

/// The values of a [`LoadAction`].
#[verifier::ext_equal]
pub enum ActionView {
    Fetch,
    Use { revocation: RevocationView },
}

impl View for LoadAction {
    type V = ActionView;

    open spec fn view(&self) -> ActionView {
        match self {
            LoadAction::Fetch => ActionView::Fetch,
            LoadAction::Use { revocation } => ActionView::Use { revocation: revocation@ },
        }
    }
}

/// What is done next and what the cache holds after it.
#[verifier::ext_equal]
pub struct LoadStep {
    pub action: ActionView,
    pub cache: Option<CacheView>,
}

/// One step of loading the list: a fresh one is used at once; any other is
/// fetched, picked, and stored.
pub open spec fn load_step(
    cache: Option<CacheView>,
    now: nat,
    event: LoadEvent,
    embedded: Seq<u8>,
) -> LoadStep {
    match event {
        LoadEvent::Start => match fresh_at(cache, now) {
            Some(revocation) => LoadStep { action: ActionView::Use { revocation }, cache },
            None => LoadStep { action: ActionView::Fetch, cache },
        },
        LoadEvent::Fetched { result } => {
            let revocation = revocation_from(fetched_view(result), embedded);
            LoadStep {
                action: ActionView::Use { revocation },
                cache: Some(CacheView { stored_at: now, stored: revocation }),
            }
        },
    }
}

impl RevocationCache {
    /// A cache without a list.
    pub fn new() -> (r: RevocationCache)
        ensures
            r@ == None::<CacheView>,
    {
        RevocationCache { stored_at: 0, stored: None }
    }

    /// The list in the cache that is fresh at the moment `now`, in nanoseconds.
    pub fn lookup(&self, now: u64) -> (r: Option<Revocation>)
        ensures
            match r {
                Some(revocation) => fresh_at(self@, now as nat) == Some(revocation@),
                None => fresh_at(self@, now as nat) is None,
            },
    {
        match &self.stored {
            Some(revocation) => {
                let age: u64 = if now < self.stored_at {
                    0
                } else {
                    now - self.stored_at
                };
                if age < REVOCATION_CACHE_TTL_NANOS {
                    Some(revocation.clone())
                } else {
                    None
                }
            },
            None => None,
        }
    }

    /// Puts a list into the cache.
    pub fn store(&mut self, now: u64, revocation: &Revocation)
        ensures
            final(self)@ == Some(CacheView { stored_at: now as nat, stored: revocation@ }),
    {
        self.stored_at = now;
        self.stored = Some(revocation.clone());
    }
}

/// Takes one step of loading the list: `now` is the moment of the event, in
/// nanoseconds of a clock that does not go back, and `embedded` the list that
/// the program carries.
pub fn load_revocation(
    cache: &mut RevocationCache,
    now: u64,
    event: LoadEvent,
    embedded: &[u8],
) -> (r: LoadAction)
    ensures
        ({
            let step = load_step(old(cache)@, now as nat, event, embedded@);
            r@ == step.action && final(cache)@ == step.cache
        }),
        event matches LoadEvent::Fetched { result: Ok(data) } ==> r is Use && r->revocation.data
            == data,
{
    match event {
        LoadEvent::Start => match cache.lookup(now) {
            Some(revocation) => LoadAction::Use { revocation },
            None => LoadAction::Fetch,
        },
        LoadEvent::Fetched { result } => {
            let revocation = choose_revocation(result, embedded);
            cache.store(now, &revocation);
            LoadAction::Use { revocation }
        },
    }
}

} // verus!
