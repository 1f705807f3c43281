//! The chunking service's side of the pipeline: where the request goes, what it
//! carries, and how the answer's status is read.

use vstd::prelude::*;
use crate::error::{IngestError, IngestErrorModel};
use crate::json_text::{json_quote, quoted};

verus! {

/// The name of the configuration variable that holds the chunking service's
/// base address.
pub const EMBEDDING_API_ENV_VAR: &'static str = "EMBEDDING_API_ENDPOINT";

/// The path of the chunking endpoint below the base address.
pub const LATE_CHUNKING_PATH: &'static str = "/late-chunking";

/// The address of an endpoint: the configured base address followed by the path.
pub open spec fn endpoint_text(base: Seq<char>, path: Seq<char>) -> Seq<char> {
    base + path
}

/// The body of a chunking request: the object `{"markdown":..}` in compact
/// form, with the document as a JSON string literal.
pub open spec fn request_body_text(document: Seq<char>) -> Seq<char> {
    "{\"markdown\":"@ + quoted(document) + "}"@
}

/// Whether an HTTP status code lies in the success class, 200 to 299.
pub open spec fn status_is_success(status: u16) -> bool {
    200 <= status < 300
}

/// The request that asks the chunking service to split a document: `body` is
/// JSON, to be posted to `url`.
#[derive(Debug, PartialEq, Eq)]
pub struct ChunkRequest {
    pub url: String,
    pub body: String,
}

/// What a [`ChunkRequest`] holds, as mathematical values.
pub ghost struct ChunkRequestModel {
    pub url: Seq<char>,
    pub body: Seq<char>,
}

impl View for ChunkRequest {
    type V = ChunkRequestModel;

    open spec fn view(&self) -> ChunkRequestModel {
        ChunkRequestModel { url: self.url@, body: self.body@ }
    }
}

/// The request for `document` under the configuration `base`, or the
/// configuration error where no base address is configured.
pub open spec fn chunk_request_outcome(base: Option<Seq<char>>, document: Seq<char>) -> Result<
    ChunkRequestModel,
    IngestErrorModel,
> {
    match base {
        Some(b) => Ok(
            ChunkRequestModel {
                url: endpoint_text(b, LATE_CHUNKING_PATH@),
                body: request_body_text(document),
            },
        ),
        None => Err(IngestErrorModel::Configuration),
    }
}

/// The characters of an optional string.
pub open spec fn option_text(s: Option<&str>) -> Option<Seq<char>> {
    match s {
        Some(t) => Some(t@),
        None => None,
    }
}

/// Assembles the address of the endpoint at `path`.
///
/// Fails with a configuration error exactly where no base address is
/// configured; nothing is sent in either case.
pub fn embedding_endpoint(base: Option<&str>, path: &str) -> (r: Result<String, IngestError>)
    ensures
        base matches Some(b) ==> r is Ok && r->Ok_0@ == endpoint_text(b@, path@),
        base is None ==> r is Err && r->Err_0@ == IngestErrorModel::Configuration,
{
    match base {
        Some(b) => {
            let mut url = String::from_str(b);
            url.append(path);
            Ok(url)
        },
        None => Err(IngestError::Configuration),
    }
}

/// Writes the body of the chunking request for `document`. An empty document is
/// written like any other.
pub fn chunk_request_body(document: &str) -> (body: String)
    ensures
        body@ == request_body_text(document@),
{
    let mut body = String::from_str("{\"markdown\":");
    let literal = json_quote(document);
    body.append(literal.as_str());
    body.append("}");
    body
}

/// Prepares the one request that chunks `document`.
///
/// Fails with a configuration error exactly where no base address is
/// configured.
pub fn chunk_request(base: Option<&str>, document: &str) -> (r: Result<ChunkRequest, IngestError>)
    ensures
        r is Ok ==> chunk_request_outcome(option_text(base), document@) == Ok::<
            ChunkRequestModel,
            IngestErrorModel,
        >(r->Ok_0@),
        r is Err ==> chunk_request_outcome(option_text(base), document@) == Err::<
            ChunkRequestModel,
            IngestErrorModel,
        >(r->Err_0@),
{
    match embedding_endpoint(base, LATE_CHUNKING_PATH) {
        Ok(url) => Ok(ChunkRequest { url, body: chunk_request_body(document) }),
        Err(e) => Err(e),
    }
}

/// Tests whether an HTTP status code lies in the success class.
pub fn is_success(status: u16) -> (r: bool)
    ensures
        r == status_is_success(status),
{
    200 <= status && status < 300
}

/// The error for an answer whose status is outside the success class. Where the
/// answer's body could not be read, the error carries an empty body: the status
/// is reported either way.
pub fn remote_failure(status: u16, body: Option<String>) -> (e: IngestError)
    ensures
        e@ == (IngestErrorModel::Remote {
            status,
            body: match body {
                Some(text) => text@,
                None => Seq::<char>::empty(),
            },
        }),
{
    match body {
        Some(text) => IngestError::Remote { status, body: text },
        None => IngestError::Remote { status, body: String::new() },
    }
}

} // verus!
