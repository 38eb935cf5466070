//! The relay: from what was fetched to what is answered.
//!
//! The fetch itself is done by the caller. It hands over the text that it
//! got, or the reason why it got none, and sends the reply that comes back.

use crate::filter::{busy_views, filter_document, lemma_filter_reads_views};
use crate::parser::{ParseError, ParseErrorView, error_text, parse_document, parse_outcome};
use crate::ical::has_calendar_frame;
use crate::serializer::serialize_document;
use crate::text::{decimal, push_decimal};
use vstd::prelude::*;

verus! {

/// The status of a reply that carries a calendar.
pub const STATUS_OK: u16 = 200;

/// The status of every reply that carries none.
pub const STATUS_FAILED: u16 = 500;

/// Why a request is answered without a calendar.
#[derive(Clone, Debug, PartialEq, Eq)]
pub enum RelayError {
    /// The request names no address to fetch from; the text says why.
    Request(String),
    /// The upstream could not be reached, or answered with a failure.
    Fetch(String),
    /// The body of the upstream's answer could not be read.
    BodyRead(String),
    /// The upstream's answer is no calendar document.
    Parse(ParseError),
}

/// A relay error as plain values.
pub enum RelayErrorView {
    Request(Seq<char>),
    Fetch(Seq<char>),
    BodyRead(Seq<char>),
    Parse(ParseErrorView),
}

impl View for RelayError {
    type V = RelayErrorView;

    open spec fn view(&self) -> RelayErrorView {
        match *self {
            RelayError::Request(detail) => RelayErrorView::Request(detail@),
            RelayError::Fetch(detail) => RelayErrorView::Fetch(detail@),
            RelayError::BodyRead(detail) => RelayErrorView::BodyRead(detail@),
            RelayError::Parse(error) => RelayErrorView::Parse(error@),
        }
    }
}

/// What a relay error is called in a reply.
pub open spec fn failure_text(error: RelayErrorView) -> Seq<char> {
    match error {
        RelayErrorView::Request(detail) => "Failed to read the request: "@ + detail,
        RelayErrorView::Fetch(detail) => "Failed to fetch upstream ICS: "@ + detail,
        RelayErrorView::BodyRead(detail) => "Failed to read upstream body: "@ + detail,
        RelayErrorView::Parse(error) => "Failed to parse ICS: "@ + error_text(error),
    }
}

/// The body of the reply to a request that failed.
pub open spec fn failure_body(error: RelayErrorView) -> Seq<char> {
    "Something went wrong: "@ + failure_text(error)
}

/// A reply: the status, the content type, and the body.
#[derive(Clone, Debug, PartialEq, Eq)]
pub struct Reply {
    pub status: u16,
    pub content_type: String,
    pub body: String,
}

/// The reply carries the calendar text `body`.
pub open spec fn is_success(reply: Reply, body: Seq<char>) -> bool {
    &&& reply.status == STATUS_OK
    &&& reply.content_type@ == "text/calendar"@
    &&& reply.body@ == body
}

/// The reply says that the request failed with `error`.
pub open spec fn is_failure(reply: Reply, error: RelayErrorView) -> bool {
    &&& reply.status == STATUS_FAILED
    &&& reply.content_type@ == "text/plain; charset=utf-8"@
    &&& reply.body@ == failure_body(error)
}

impl RelayError {
    /// What the error is called in a reply.
    pub fn message(&self) -> (text: String)
        ensures
            text@ == failure_text(self@),
    {
        match self {
            RelayError::Request(detail) => {
                let mut text = "Failed to read the request: ".to_owned();
                text.append(detail.as_str());
                text
            },
            RelayError::Fetch(detail) => {
                let mut text = "Failed to fetch upstream ICS: ".to_owned();
                text.append(detail.as_str());
                text
            },
            RelayError::BodyRead(detail) => {
                let mut text = "Failed to read upstream body: ".to_owned();
                text.append(detail.as_str());
                text
            },
            RelayError::Parse(error) => {
                let mut text = "Failed to parse ICS: ".to_owned();
                let detail = error.message();
                text.append(detail.as_str());
                text
            },
        }
    }
}

/// The reply that carries a calendar text.
pub fn success_reply(body: String) -> (reply: Reply)
    ensures
        is_success(reply, body@),
{
    Reply { status: STATUS_OK, content_type: "text/calendar".to_owned(), body }
}

/// The reply to a request that failed: one kind for every failure, with
/// what went wrong in its body.
pub fn failure_reply(error: &RelayError) -> (reply: Reply)
    ensures
        is_failure(reply, error@),
{
    let mut body = "Something went wrong: ".to_owned();
    let detail = error.message();
    body.append(detail.as_str());
    Reply { status: STATUS_FAILED, content_type: "text/plain; charset=utf-8".to_owned(), body }
}

/// Turns a calendar text into the text of its busy-only calendar: decodes
/// it, removes the transparent events, and encodes what is left.
///
/// It fails exactly when the text is no calendar document, with the parse
/// error. Otherwise the result is a calendar text with one block for each
/// component that the filter keeps, in the order of the text.
pub fn busy_calendar(text: &str) -> (r: Result<String, ParseError>)
    ensures
        match parse_outcome(text@) {
            Err(error) => r matches Err(e) && e@ == error,
            Ok(components) => r matches Ok(out) && has_calendar_frame(
                out@,
                busy_views(components),
            ),
        },
{
    match parse_document(text) {
        Err(e) => Err(e),
        Ok(doc) => {
            proof {
                lemma_filter_reads_views(doc@);
            }
            let kept = filter_document(doc);
            Ok(serialize_document(&kept))
        },
    }
}

/// The status that an upstream answers with is a success.
pub open spec fn is_success_status(status: u16) -> bool {
    200 <= status && status <= 299
}

/// Judges the status that the upstream answered with: every status but
/// those from 200 to 299 is a failure of the fetch.
pub fn check_status(status: u16) -> (r: Result<(), RelayError>)
    ensures
        match r {
            Ok(_) => is_success_status(status),
            Err(e) => !is_success_status(status) && e@ == RelayErrorView::Fetch(
                "upstream answered with status "@ + decimal(status as nat),
            ),
        },
{
    if 200 <= status && status <= 299 {
        Ok(())
    } else {
        let mut detail = "upstream answered with status ".to_owned();
        push_decimal(&mut detail, status as usize);
        Err(RelayError::Fetch(detail))
    }
}

/// The reply answers a request for which the fetch brought `text`: with
/// the failure of the parse, or with a calendar of what the filter keeps.
pub open spec fn is_answer(text: Seq<char>, reply: Reply) -> bool {
    match parse_outcome(text) {
        Err(error) => is_failure(reply, RelayErrorView::Parse(error)),
        Ok(components) => {
            &&& reply.status == STATUS_OK
            &&& reply.content_type@ == "text/calendar"@
            &&& has_calendar_frame(reply.body@, busy_views(components))
        },
    }
}

/// Answers a request, given what the fetch brought: the text of the
/// upstream calendar, or the reason why there is none.
///
/// The reply is a failure if and only if the fetch failed or the text is
/// no calendar document; both are answered alike, by the reply of
/// `failure_reply`, and there is no partial calendar. Every other text is
/// answered by its busy-only calendar.
pub fn respond(upstream: Result<String, RelayError>) -> (reply: Reply)
    ensures
        match upstream {
            Err(error) => is_failure(reply, error@),
            Ok(text) => is_answer(text@, reply),
        },
{
    match upstream {
        Err(error) => failure_reply(&error),
        Ok(text) => match busy_calendar(text.as_str()) {
            Err(error) => failure_reply(&RelayError::Parse(error)),
            Ok(body) => success_reply(body),
        },
    }
}

/// The reply carries what was made of a text: the calendar, or the failure.
pub open spec fn is_reply_to(reply: Reply, r: Result<String, RelayError>) -> bool {
    match r {
        Ok(body) => is_success(reply, body@),
        Err(error) => is_failure(reply, error@),
    }
}

/// The reply to what was made of a text.
pub fn reply_to(r: Result<String, RelayError>) -> (reply: Reply)
    ensures
        is_reply_to(reply, r),
{
    match r {
        Ok(body) => success_reply(body),
        Err(error) => failure_reply(&error),
    }
}

/// The port that the service listens on when none is configured.
pub open spec fn default_port() -> Seq<char> {
    "3000"@
}

/// The address to listen on, on all interfaces, for the configured port.
pub open spec fn listen_address_of(port: Option<Seq<char>>) -> Seq<char> {
    "0.0.0.0:"@ + match port {
        Some(p) => p,
        None => default_port(),
    }
}

/// The address that the service listens on: all interfaces, and the
/// configured port, or 3000 if none is configured.
pub fn listen_address(port: Option<&str>) -> (address: String)
    ensures
        address@ == listen_address_of(
            match port {
                Some(p) => Some(p@),
                None => None,
            },
        ),
{
    let mut address = "0.0.0.0:".to_owned();
    match port {
        Some(p) => address.append(p),
        None => address.append("3000"),
    }
    address
}

} // verus!
