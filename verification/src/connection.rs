//! The per-connection protocol: one request in, one response out.
//!
//! A connection is driven from outside. Whoever owns the socket and the
//! file store feeds it events and performs the action it answers with:
//! first what is read from the socket, until the header block of the
//! request is there or the client has stopped sending; then, if a file
//! access was asked for, the outcome of that access. The request is parsed
//! once and routed once. The connection ends with exactly one `Send`,
//! after which it is closed. An event that is out of turn closes the
//! connection without a response.

use crate::request::{header_complete, header_is_complete, parse_request, Request, RequestView};
use crate::response::{Response, ResponseView};
use crate::router::{read_reply, route, write_reply, Dispatch, DispatchView};
use crate::text::{optional, push_bytes};
use vstd::prelude::*;

verus! {

/// The state of a connection.
#[derive(Debug, PartialEq, Eq)]
pub enum Connection {
    /// The request is being read; these are the bytes read so far.
    Reading(Vec<u8>),
    /// The store has been asked to read a file for this request.
    ReadingFile(Request),
    /// The store has been asked to write a file for this request.
    WritingFile(Request),
    /// The response has been handed over, or the connection was dropped.
    Closed,
}

/// What happened outside.
#[derive(Debug, PartialEq, Eq)]
pub enum Event {
    /// The bytes of one read of the socket; none when the client has
    /// stopped sending.
    Received(Vec<u8>),
    /// The store's answer to `ReadFile`: the file's bytes, or `None` when
    /// it could not be read.
    FileRead(Option<Vec<u8>>),
    /// The store's answer to `WriteFile`: whether the file was stored.
    FileWritten(bool),
    /// The store's answer to `ReadFile` or `WriteFile` when it refuses the
    /// access, because on this store the name leads out of the base
    /// directory, by way of a link.
    FileRefused,
}

/// What to do outside.
#[derive(Debug, PartialEq, Eq)]
pub enum Action {
    /// Read from the socket once more and answer with `Received`.
    Read,
    /// Read the named file from the store and answer with `FileRead`.
    ReadFile { name: Vec<u8> },
    /// Write `contents` to the named file, creating or truncating it, and
    /// answer with `FileWritten`.
    WriteFile { name: Vec<u8>, contents: Vec<u8> },
    /// Write these bytes to the socket, then close it.
    Send(Vec<u8>),
    /// Close the socket without writing.
    Close,
}

/// What an event leads to, before anything is compressed or serialised.
pub enum Outcome {
    /// The request is not all there yet: more is to be read. These are
    /// the bytes read so far.
    More { input: Seq<u8> },
    /// This response is to be sent.
    Respond(ResponseView),
    /// The named file is to be read for this request.
    Read { request: RequestView, name: Seq<u8> },
    /// The named file is to be written for this request.
    Write { request: RequestView, name: Seq<u8>, contents: Seq<u8> },
    /// The event was out of turn.
    Drop,
}

/// What is made of the bytes of a request: bytes that hold no request lead
/// to the bad-request response, and bytes that hold one lead to what the
/// router decides.
pub open spec fn dispatch(input: Seq<u8>) -> Outcome {
    match parse_request(input) {
        Err(_) => Outcome::Respond(ResponseView::bad_request()),
        Ok(request) => match route(request) {
            DispatchView::Reply(response) => Outcome::Respond(response),
            DispatchView::ReadFile { name } => Outcome::Read { request, name },
            DispatchView::WriteFile { name, contents } => Outcome::Write {
                request,
                name,
                contents,
            },
        },
    }
}

/// What the event `event` leads to in the state `state`.
///
/// Bytes from the socket are added to those read before. As long as they
/// hold no empty line, and the client goes on sending, more is to be read.
/// Then the request is parsed and routed, once. The answer of the store
/// leads to the response that the router makes of it, and an access that
/// the store refuses leads to the not-found response. Every other pairing
/// of state and event is out of turn.
pub open spec fn outcome(state: Connection, event: Event) -> Outcome {
    match (state, event) {
        (Connection::Reading(buffer), Event::Received(bytes)) => {
            let input = buffer@ + bytes@;
            if bytes@.len() > 0 && !header_complete(input) {
                Outcome::More { input }
            } else {
                dispatch(input)
            }
        },
        (Connection::ReadingFile(request), Event::FileRead(contents)) => Outcome::Respond(
            read_reply(request@, optional(contents)),
        ),
        (Connection::WritingFile(request), Event::FileWritten(stored)) => Outcome::Respond(
            write_reply(request@, stored),
        ),
        (Connection::ReadingFile(_), Event::FileRefused) => Outcome::Respond(
            ResponseView::not_found(),
        ),
        (Connection::WritingFile(_), Event::FileRefused) => Outcome::Respond(
            ResponseView::not_found(),
        ),
        _ => Outcome::Drop,
    }
}

/// Whether the state `next` and the action `action` are a step from
/// `state` on `event`.
///
/// A read keeps what was read so far. A response closes the connection
/// and is sent as [`ResponseView::sent`] says. A file access keeps the
/// request and names the file. An event out of turn closes the connection.
pub open spec fn follows(state: Connection, event: Event, next: Connection, action: Action) -> bool {
    match outcome(state, event) {
        Outcome::More { input } => {
            &&& next matches Connection::Reading(buffer)
            &&& buffer@ == input
            &&& action == Action::Read
        },
        Outcome::Respond(response) => {
            &&& next == Connection::Closed
            &&& action matches Action::Send(bytes)
            &&& bytes@ == response.sent()
        },
        Outcome::Read { request, name } => {
            &&& next matches Connection::ReadingFile(kept)
            &&& kept@ == request
            &&& action matches Action::ReadFile { name: asked }
            &&& asked@ == name
        },
        Outcome::Write { request, name, contents } => {
            &&& next matches Connection::WritingFile(kept)
            &&& kept@ == request
            &&& action matches Action::WriteFile { name: asked, contents: given }
            &&& asked@ == name
            &&& given@ == contents
        },
        Outcome::Drop => {
            &&& next == Connection::Closed
            &&& action == Action::Close
        },
    }
}

/// Sends `response` and closes the connection.
fn send(response: Response) -> (next: (Connection, Action))
    ensures
        next.0 == Connection::Closed,
        next.1 matches Action::Send(bytes) && bytes@ == response@.sent(),
{
    let mut response = response;
    let bytes = response.to_bytes();
    (Connection::Closed, Action::Send(bytes))
}

impl Connection {
    /// A fresh connection, from which nothing has been read.
    pub fn new() -> (c: Connection)
        ensures
            c matches Connection::Reading(buffer) && buffer@.len() == 0,
    {
        Connection::Reading(Vec::new())
    }

    /// Whether the connection is closed.
    pub fn is_closed(&self) -> (r: bool)
        ensures
            r == (*self == Connection::Closed),
    {
        match self {
            Connection::Closed => true,
            _ => false,
        }
    }

    /// Takes one event and answers with the next state and the action to
    /// perform.
    pub fn step(self, event: Event) -> (next: (Connection, Action))
        ensures
            follows(self, event, next.0, next.1),
    {
        match (self, event) {
            (Connection::Reading(buffer), Event::Received(bytes)) => {
                let mut buffer = buffer;
                push_bytes(&mut buffer, bytes.as_slice());
                if bytes.len() > 0 && !header_is_complete(buffer.as_slice()) {
                    return (Connection::Reading(buffer), Action::Read);
                }
                match Request::parse(buffer.as_slice()) {
                    Err(_) => send(Response::bad_request()),
                    Ok(request) => match request.handle() {
                        Dispatch::Reply(response) => send(response),
                        Dispatch::ReadFile { name } => (
                            Connection::ReadingFile(request),
                            Action::ReadFile { name },
                        ),
                        Dispatch::WriteFile { name, contents } => (
                            Connection::WritingFile(request),
                            Action::WriteFile { name, contents },
                        ),
                    },
                }
            },
            (Connection::ReadingFile(request), Event::FileRead(contents)) => send(
                request.file_read(contents),
            ),
            (Connection::WritingFile(request), Event::FileWritten(stored)) => send(
                request.file_written(stored),
            ),
            (Connection::ReadingFile(_), Event::FileRefused) => send(Response::not_found()),
            (Connection::WritingFile(_), Event::FileRefused) => send(Response::not_found()),
            _ => (Connection::Closed, Action::Close),
        }
    }
}

} // verus!
