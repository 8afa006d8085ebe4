//! Requests to a remote store and the answers to them, as plain values. The
//! caller sends a request as it stands and hands the answer back.

use crate::error::{SyncError, SyncErrorView};
use crate::run::{TransferOutcome, TransferOutcomeView};
use crate::text::{decimal, decimal_string};
use vstd::prelude::*;

verus! {

/// The methods that the stores are asked with.
#[derive(Clone, Copy, Debug, PartialEq, Eq, Structural)]
pub enum HttpMethod {
    Get,
    Post,
    Put,
}

/// A header, or a parameter of the query string.
#[derive(Clone, Debug, PartialEq, Eq)]
pub struct Field {
    pub name: String,
    pub value: String,
}

impl View for Field {
    type V = (Seq<char>, Seq<char>);

    open spec fn view(&self) -> (Seq<char>, Seq<char>) {
        (self.name@, self.value@)
    }
}

impl DeepView for Field {
    type V = (Seq<char>, Seq<char>);

    open spec fn deep_view(&self) -> (Seq<char>, Seq<char>) {
        self@
    }
}

/// What a request carries.
#[derive(Clone, Debug, PartialEq, Eq)]
pub enum HttpBody {
    Empty,
    Bytes(Vec<u8>),
    Text(String),
}

pub ghost enum HttpBodyView {
    Empty,
    Bytes(Seq<u8>),
    Text(Seq<char>),
}

impl View for HttpBody {
    type V = HttpBodyView;

    open spec fn view(&self) -> HttpBodyView {
        match self {
            HttpBody::Empty => HttpBodyView::Empty,
            HttpBody::Bytes(b) => HttpBodyView::Bytes(b@),
            HttpBody::Text(t) => HttpBodyView::Text(t@),
        }
    }
}

/// A request. The parameters in `query` are not part of `url`; the sender
/// appends them, encoded, as the query string.
#[derive(Clone, Debug, PartialEq, Eq)]
pub struct HttpRequest {
    pub method: HttpMethod,
    pub url: String,
    pub query: Vec<Field>,
    pub headers: Vec<Field>,
    pub body: HttpBody,
}

pub ghost struct HttpRequestView {
    pub method: HttpMethod,
    pub url: Seq<char>,
    pub query: Seq<(Seq<char>, Seq<char>)>,
    pub headers: Seq<(Seq<char>, Seq<char>)>,
    pub body: HttpBodyView,
}

impl View for HttpRequest {
    type V = HttpRequestView;

    open spec fn view(&self) -> HttpRequestView {
        HttpRequestView {
            method: self.method,
            url: self.url@,
            query: self.query.deep_view(),
            headers: self.headers.deep_view(),
            body: self.body@,
        }
    }
}

/// The header that presents the bearer token `token`.
pub open spec fn bearer(token: Seq<char>) -> (Seq<char>, Seq<char>) {
    ("Authorization"@, "Bearer "@ + token)
}

/// The header that announces a body of uninterpreted bytes.
pub open spec fn octet_stream() -> (Seq<char>, Seq<char>) {
    ("Content-Type"@, "application/octet-stream"@)
}

/// The header that announces a JSON body.
pub open spec fn json_content() -> (Seq<char>, Seq<char>) {
    ("Content-Type"@, "application/json"@)
}

/// A header or parameter called `name` with the value `value`.
pub fn field(name: &str, value: String) -> (f: Field)
    ensures
        f@ == (name@, value@),
{
    Field { name: name.to_owned(), value }
}

/// The header that presents the bearer token.
pub fn bearer_header(token: &str) -> (f: Field)
    ensures
        f@ == bearer(token@),
{
    let mut value = "Bearer ".to_owned();
    value.append(token);
    field("Authorization", value)
}

/// The header that announces a body of uninterpreted bytes.
pub fn octet_stream_header() -> (f: Field)
    ensures
        f@ == octet_stream(),
{
    field("Content-Type", "application/octet-stream".to_owned())
}

/// The header that announces a JSON body.
pub fn json_content_header() -> (f: Field)
    ensures
        f@ == json_content(),
{
    field("Content-Type", "application/json".to_owned())
}

/// Whether `status` reports success: the codes from 200 to 299 do.
pub open spec fn success(status: u16) -> bool {
    200 <= status < 300
}

/// Says whether a status reports success.
pub fn is_success(status: u16) -> (r: bool)
    ensures
        r == success(status),
{
    200 <= status && status < 300
}

/// The text of the failure reported for an answer with the status
/// `status`.
pub open spec fn status_failure(status: u16) -> Seq<char> {
    "unexpected HTTP status "@ + decimal(status as nat)
}

/// The text of the failure for an answer with the status `status`.
pub fn status_failure_message(status: u16) -> (text: String)
    ensures
        text@ == status_failure(status),
{
    let mut text = "unexpected HTTP status ".to_owned();
    text.append(decimal_string(status as usize).as_str());
    text
}

/// How a transfer ended that the store answered with `status`.
pub open spec fn outcome_of_status(status: u16) -> TransferOutcomeView {
    if success(status) {
        TransferOutcomeView::Done
    } else {
        TransferOutcomeView::RemoteFailure(status_failure(status))
    }
}

/// Judges a transfer by the status of the store's answer: a transfer that
/// was not answered with success has failed.
pub fn transfer_outcome(status: u16) -> (outcome: TransferOutcome)
    ensures
        outcome@ == outcome_of_status(status),
{
    if is_success(status) {
        TransferOutcome::Done
    } else {
        TransferOutcome::RemoteFailure(status_failure_message(status))
    }
}

/// The failure reported for an answer with the status `status`.
pub fn status_error(status: u16) -> (e: SyncError)
    ensures
        e@ == SyncErrorView::Remote(status_failure(status)),
{
    SyncError::Remote(status_failure_message(status))
}

} // verus!
