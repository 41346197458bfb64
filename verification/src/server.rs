//! The archive resource server: from a resolved location and the archive
//! file to the response.
//!
//! The server reads no file itself. Its caller looks at the file system and
//! hands over what it found as an [`ArchiveFile`]; every request is answered
//! from that alone.

use vstd::prelude::*;
use crate::archive::{container_entries, entry_lookup, lookup_entry, EntryLookup, Lookup};
use crate::media::{infer_media_type, media_type_of};
use crate::path::{archive_marker, decoded_path, resolve, resolved, Location, ResolvedLocation};
use crate::text::occurs;

verus! {

/// What the caller found at the archive's path.
pub enum ArchiveState {
    Missing,
    Unread,
    Loaded(Seq<u8>),
}

/// What the caller found at the archive's path.
#[derive(Clone, Debug, PartialEq, Eq)]
pub enum ArchiveFile {
    /// There is no file.
    Missing,
    /// There is a file; its bytes were not read, or could not be.
    Unread,
    /// There is a file, and these are its bytes.
    Loaded(Vec<u8>),
}

impl View for ArchiveFile {
    type V = ArchiveState;

    open spec fn view(&self) -> ArchiveState {
        match self {
            ArchiveFile::Missing => ArchiveState::Missing,
            ArchiveFile::Unread => ArchiveState::Unread,
            ArchiveFile::Loaded(bytes) => ArchiveState::Loaded(bytes@),
        }
    }
}

/// Why a request is not served.
#[derive(Clone, Copy, Debug, PartialEq, Eq, Structural)]
pub enum RequestError {
    /// The request path has no archive marker.
    MalformedRequest,
    /// There is no file at the archive's path.
    ArchiveNotFound,
    /// The archive file is there, but it cannot be read as a container.
    ArchiveUnreadable,
    /// The archive lists no entry of the requested name.
    EntryNotFound,
}

/// The status code under which an error is reported.
pub open spec fn status_of(error: RequestError) -> nat {
    match error {
        RequestError::ArchiveUnreadable => 500,
        _ => 404,
    }
}

impl RequestError {
    /// The status code under which the error is reported: 500 for an
    /// archive that cannot be read, 404 for everything that is not there.
    pub fn status(self) -> (code: u16)
        ensures
            code == status_of(self),
    {
        match self {
            RequestError::ArchiveUnreadable => 500,
            RequestError::MalformedRequest => 404,
            RequestError::ArchiveNotFound => 404,
            RequestError::EntryNotFound => 404,
        }
    }
}

/// What a served request carries.
pub enum Payload {
    Probe,
    Entry { content_type: Seq<char>, body: Seq<u8> },
}

/// What a served request carries.
#[derive(Clone, Debug, PartialEq, Eq)]
pub enum Served {
    /// The archive is there; no entry was asked for.
    Probe,
    /// The entry's bytes and the media type inferred from its name.
    Entry { content_type: String, body: Vec<u8> },
}

impl View for Served {
    type V = Payload;

    open spec fn view(&self) -> Payload {
        match self {
            Served::Probe => Payload::Probe,
            Served::Entry { content_type, body } => Payload::Entry {
                content_type: content_type@,
                body: body@,
            },
        }
    }
}

/// The view of an outcome.
pub open spec fn outcome_view(outcome: Result<Served, RequestError>) -> Result<
    Payload,
    RequestError,
> {
    match outcome {
        Ok(served) => Ok(served@),
        Err(error) => Err(error),
    }
}

/// What comes of a lookup in the archive: the entry under the given content
/// type, or the error that the miss stands for.
pub open spec fn lookup_outcome(lookup: Lookup, content_type: Seq<char>) -> Result<
    Payload,
    RequestError,
> {
    match lookup {
        Lookup::Unreadable => Err(RequestError::ArchiveUnreadable),
        Lookup::Absent => Err(RequestError::EntryNotFound),
        Lookup::Found(body) => Ok(Payload::Entry { content_type, body }),
    }
}

/// What comes of a request for `location`, given what is at the archive's
/// path. That the file is there is asked first; a probe is answered next,
/// without a look at the file's bytes; only then is the entry looked up.
pub open spec fn outcome_of(location: Location, archive: ArchiveState) -> Result<
    Payload,
    RequestError,
> {
    match archive {
        ArchiveState::Missing => Err(RequestError::ArchiveNotFound),
        ArchiveState::Unread => if location.entry.len() == 0 {
            Ok(Payload::Probe)
        } else {
            Err(RequestError::ArchiveUnreadable)
        },
        ArchiveState::Loaded(bytes) => if location.entry.len() == 0 {
            Ok(Payload::Probe)
        } else {
            lookup_outcome(entry_lookup(bytes, location.entry), media_type_of(location.entry))
        },
    }
}

/// The value of the header `Access-Control-Allow-Origin` on every response.
pub open spec fn any_origin() -> Seq<char> {
    "*"@
}

/// A response: status code, the two headers, and the body.
pub struct Response {
    pub status: nat,
    pub allow_origin: Seq<char>,
    pub content_type: Option<Seq<char>>,
    pub body: Seq<u8>,
}

impl Response {
    /// Every origin is admitted; the status is 200, 404 or 500; only a 200
    /// has a body or a content type, and a body never comes without its
    /// content type.
    pub open spec fn well_formed(self) -> bool {
        &&& self.allow_origin == any_origin()
        &&& (self.status == 200 || self.status == 404 || self.status == 500)
        &&& self.status != 200 ==> self.body.len() == 0 && self.content_type is None
        &&& self.content_type is None ==> self.body.len() == 0
    }
}

/// The response that reports an outcome.
pub open spec fn response_of(outcome: Result<Payload, RequestError>) -> Response {
    match outcome {
        Ok(Payload::Probe) => Response {
            status: 200,
            allow_origin: any_origin(),
            content_type: None,
            body: Seq::empty(),
        },
        Ok(Payload::Entry { content_type, body }) => Response {
            status: 200,
            allow_origin: any_origin(),
            content_type: Some(content_type),
            body,
        },
        Err(error) => Response {
            status: status_of(error),
            allow_origin: any_origin(),
            content_type: None,
            body: Seq::empty(),
        },
    }
}

/// The response to a decoded request path, given what is at the path of the
/// archive that it names.
pub open spec fn response_to(path: Seq<char>, archive: ArchiveState) -> Response {
    match resolved(path) {
        None => response_of(Err(RequestError::MalformedRequest)),
        Some(location) => response_of(outcome_of(location, archive)),
    }
}

/// A response: status code, the two headers, and the body.
#[derive(Clone, Debug, PartialEq, Eq)]
pub struct ResourceResponse {
    /// The status code.
    pub status: u16,
    /// The value of the header `Access-Control-Allow-Origin`.
    pub allow_origin: String,
    /// The value of the header `Content-Type`, if the response has one.
    pub content_type: Option<String>,
    /// The body.
    pub body: Vec<u8>,
}

impl View for ResourceResponse {
    type V = Response;

    open spec fn view(&self) -> Response {
        Response {
            status: self.status as nat,
            allow_origin: self.allow_origin@,
            content_type: match self.content_type {
                Some(content_type) => Some(content_type@),
                None => None,
            },
            body: self.body@,
        }
    }
}

/// The header lines of a response, name and value: the origin header first,
/// then the content type where there is one.
pub open spec fn header_lines(response: Response) -> Seq<(Seq<char>, Seq<char>)> {
    let origin = seq![("Access-Control-Allow-Origin"@, response.allow_origin)];
    match response.content_type {
        Some(content_type) => origin.push(("Content-Type"@, content_type)),
        None => origin,
    }
}

impl ResourceResponse {
    /// The header lines of the response, name and value.
    pub fn headers(&self) -> (lines: Vec<(String, String)>)
        ensures
            lines@.len() == header_lines(self@).len(),
            forall|i: int|
                0 <= i < lines@.len() ==> (#[trigger] lines@[i]).0@ == header_lines(self@)[i].0
                    && lines@[i].1@ == header_lines(self@)[i].1,
    {
        let mut lines: Vec<(String, String)> = Vec::new();
        lines.push(("Access-Control-Allow-Origin".to_owned(), self.allow_origin.clone()));
        match &self.content_type {
            Some(content_type) => {
                lines.push(("Content-Type".to_owned(), content_type.clone()));
            },
            None => {},
        }
        lines
    }
}

/// Classifies what a lookup in the archive came to.
pub fn classify_lookup(lookup: EntryLookup, content_type: String) -> (outcome: Result<
    Served,
    RequestError,
>)
    ensures
        outcome_view(outcome) == lookup_outcome(lookup@, content_type@),
{
    match lookup {
        EntryLookup::Unreadable => Err(RequestError::ArchiveUnreadable),
        EntryLookup::Absent => Err(RequestError::EntryNotFound),
        EntryLookup::Found(body) => Ok(Served::Entry { content_type, body }),
    }
}

/// Decides a request for `location`, given what is at the archive's path.
pub fn fetch(location: &ResolvedLocation, archive: ArchiveFile) -> (outcome: Result<
    Served,
    RequestError,
>)
    ensures
        outcome_view(outcome) == outcome_of(location@, archive@),
{
    match archive {
        ArchiveFile::Missing => Err(RequestError::ArchiveNotFound),
        ArchiveFile::Unread => if location.is_root_probe() {
            Ok(Served::Probe)
        } else {
            Err(RequestError::ArchiveUnreadable)
        },
        ArchiveFile::Loaded(bytes) => if location.is_root_probe() {
            Ok(Served::Probe)
        } else {
            let lookup = lookup_entry(bytes, location.entry_path());
            let content_type = infer_media_type(location.entry_path());
            classify_lookup(lookup, content_type)
        },
    }
}

/// Writes the response that reports an outcome.
pub fn respond(outcome: Result<Served, RequestError>) -> (response: ResourceResponse)
    ensures
        response@ == response_of(outcome_view(outcome)),
        response@.well_formed(),
{
    let allow_origin = "*".to_owned();
    match outcome {
        Ok(Served::Probe) => ResourceResponse {
            status: 200,
            allow_origin,
            content_type: None,
            body: Vec::new(),
        },
        Ok(Served::Entry { content_type, body }) => ResourceResponse {
            status: 200,
            allow_origin,
            content_type: Some(content_type),
            body,
        },
        Err(error) => ResourceResponse {
            status: error.status(),
            allow_origin,
            content_type: None,
            body: Vec::new(),
        },
    }
}

/// Serves a resolved location, given what is at the archive's path.
pub fn serve(location: &ResolvedLocation, archive: ArchiveFile) -> (response: ResourceResponse)
    ensures
        response@ == response_of(outcome_of(location@, archive@)),
        response@.well_formed(),
{
    respond(fetch(location, archive))
}

/// Answers a raw request path. Where the path names an archive, `inspect` is
/// asked once what is at the archive's path, and the request is served from
/// its answer; a path that names none is answered at once.
pub fn serve_request<F: FnOnce(&ResolvedLocation) -> ArchiveFile>(
    raw_path: &str,
    inspect: F,
) -> (response: ResourceResponse)
    requires
        forall|location: &ResolvedLocation| inspect.requires((location,)),
    ensures
        response@.well_formed(),
        match resolved(decoded_path(raw_path@)) {
            None => response@ == response_of(Err(RequestError::MalformedRequest)),
            Some(named) => exists|location: &ResolvedLocation, archive: ArchiveFile|
                location@ == named && #[trigger] inspect.ensures((location,), archive)
                    && response@ == response_to(decoded_path(raw_path@), archive@),
        },
{
    match resolve(raw_path) {
        Err(_) => respond(Err(RequestError::MalformedRequest)),
        Ok(location) => {
            let archive = inspect(&location);
            let ghost found = archive;
            let response = serve(&location, archive);
            assert(inspect.ensures((&location,), found));
            response
        },
    }
}

/// Every response is well formed, whatever the outcome that it reports.
pub proof fn lemma_response_well_formed(outcome: Result<Payload, RequestError>)
    ensures
        response_of(outcome).well_formed(),
{
}

/// A request path without an archive marker is malformed: it resolves to no
/// location, and the answer is 404 with an empty body, whatever the file
/// system holds.
pub proof fn lemma_unmarked_path_is_not_found(path: Seq<char>, archive: ArchiveState)
    requires
        !occurs(path, archive_marker()),
    ensures
        resolved(path) is None,
        response_to(path, archive) == response_of(Err(RequestError::MalformedRequest)),
        response_to(path, archive).status == 404,
        response_to(path, archive).body.len() == 0,
{
}

/// Where there is no file at the archive's path, the answer is 404 with an
/// empty body, for a probe as for an entry.
pub proof fn lemma_missing_archive_is_not_found(location: Location)
    ensures
        response_of(outcome_of(location, ArchiveState::Missing)).status == 404,
        response_of(outcome_of(location, ArchiveState::Missing)).body.len() == 0,
{
}

/// A probe of an archive whose file is there is answered with 200, an empty
/// body and no content type, whatever the file holds.
pub proof fn lemma_probe_of_present_archive(location: Location, archive: ArchiveState)
    requires
        location.entry.len() == 0,
        !(archive is Missing),
    ensures
        response_of(outcome_of(location, archive)) == (Response {
            status: 200,
            allow_origin: any_origin(),
            content_type: None,
            body: Seq::empty(),
        }),
{
}

/// An entry that the archive lists under exactly the requested name, and
/// that can be decompressed, is served with 200: the body is the entry's
/// decompressed bytes, the content type is the media type of its name.
pub proof fn lemma_listed_entry_is_served(
    location: Location,
    bytes: Seq<u8>,
    entries: Map<Seq<char>, Option<Seq<u8>>>,
    content: Seq<u8>,
)
    requires
        location.entry.len() > 0,
        container_entries(bytes) == Some(entries),
        entries.contains_key(location.entry),
        entries[location.entry] == Some(content),
    ensures
        response_of(outcome_of(location, ArchiveState::Loaded(bytes))) == (Response {
            status: 200,
            allow_origin: any_origin(),
            content_type: Some(media_type_of(location.entry)),
            body: content,
        }),
{
}

/// An entry that the archive does not list is answered with 404 and an
/// empty body.
pub proof fn lemma_unlisted_entry_is_not_found(
    location: Location,
    bytes: Seq<u8>,
    entries: Map<Seq<char>, Option<Seq<u8>>>,
)
    requires
        location.entry.len() > 0,
        container_entries(bytes) == Some(entries),
        !entries.contains_key(location.entry),
    ensures
        response_of(outcome_of(location, ArchiveState::Loaded(bytes))) == (Response {
            status: 404,
            allow_origin: any_origin(),
            content_type: None,
            body: Seq::empty(),
        }),
{
}

/// Serving is idempotent: two answers to the same request path, given the
/// same state of the archive file, are the same in status, headers and body.
pub proof fn lemma_same_request_same_response(
    path: Seq<char>,
    archive: ArchiveState,
    first: ResourceResponse,
    second: ResourceResponse,
)
    requires
        first@ == response_to(path, archive),
        second@ == response_to(path, archive),
    ensures
        first.status == second.status,
        first.allow_origin@ == second.allow_origin@,
        first@.content_type == second@.content_type,
        first.body@ == second.body@,
        header_lines(first@) == header_lines(second@),
{
}

} // verus!
