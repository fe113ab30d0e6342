//! The router: what to do for a request, judged by method and path.
//!
//! Routing never touches the file store itself. For a path under `/files/`
//! it names the file to read or to write; whoever runs the server performs
//! that access and hands the outcome back, and the router turns the
//! outcome into the response.
//!
//! The name of a file is what follows `/files/` in the path. It is
//! resolved against the base directory of the store segment by segment,
//! and a name that climbs out of the base directory is answered `404`
//! without an access. The store is handed the resolved path, which holds
//! no `.`, no `..` and no empty segment.

use crate::request::{MethodType, Request, RequestView};
use crate::response::{ContentType, Response, ResponseView};
use crate::text::{
    after_prefix, ascii, contents, copy_of, equals_ascii, free_of, join, join_with, optional,
    split, split_on, starts_with,
};
use vstd::prelude::*;
use vstd::string::*;

verus! {

/// What the router asks for in answer to a request.
#[derive(Debug, PartialEq, Eq)]
pub enum Dispatch {
    /// The response is known; send it.
    Reply(Response),
    /// Read the file at the path `name` below the base directory of the
    /// store, then call [`Request::file_read`]. The path is resolved: its
    /// segments are names, and the empty path is the base directory.
    ReadFile { name: Vec<u8> },
    /// Write `contents` to the file at the path `name` below the base
    /// directory of the store, creating or truncating it, then call
    /// [`Request::file_written`].
    WriteFile { name: Vec<u8>, contents: Vec<u8> },
}

/// The mathematical value of a [`Dispatch`].
pub enum DispatchView {
    Reply(ResponseView),
    ReadFile { name: Seq<u8> },
    WriteFile { name: Seq<u8>, contents: Seq<u8> },
}

impl View for Dispatch {
    type V = DispatchView;

    open spec fn view(&self) -> DispatchView {
        match self {
            Dispatch::Reply(response) => DispatchView::Reply(response@),
            Dispatch::ReadFile { name } => DispatchView::ReadFile { name: name@ },
            Dispatch::WriteFile { name, contents } => DispatchView::WriteFile {
                name: name@,
                contents: contents@,
            },
        }
    }
}

/// The path prefix of the echo route.
pub open spec fn echo_prefix() -> Seq<u8> {
    ascii("/echo/"@)
}

/// The path prefix of the file routes.
pub open spec fn files_prefix() -> Seq<u8> {
    ascii("/files/"@)
}

/// The slash that separates the segments of a file name.
pub open spec fn slash() -> u8 {
    0x2f
}

/// The segments kept after `segment` has been followed from the place that
/// the segments `kept` lead to, counted from the base directory. An empty
/// segment and `.` stay in place, `..` goes up one level, and every other
/// segment goes down into it. Going up from the base directory itself
/// leaves it: there is no such place, and the result is `None`.
pub open spec fn follow(kept: Seq<Seq<u8>>, segment: Seq<u8>) -> Option<Seq<Seq<u8>>> {
    if segment.len() == 0 || segment == ascii("."@) {
        Some(kept)
    } else if segment == ascii(".."@) {
        if kept.len() == 0 {
            None
        } else {
            Some(kept.drop_last())
        }
    } else {
        Some(kept.push(segment))
    }
}

/// The segments kept after `segments` have been followed one by one from
/// the place that `kept` leads to; `None` when one of them leaves the base
/// directory.
pub open spec fn walk(kept: Seq<Seq<u8>>, segments: Seq<Seq<u8>>) -> Option<Seq<Seq<u8>>>
    decreases segments.len(),
{
    if segments.len() == 0 {
        Some(kept)
    } else {
        match follow(kept, segments[0]) {
            Some(next) => walk(next, segments.skip(1)),
            None => None,
        }
    }
}

/// The place below the base directory that the file name `name` leads to,
/// written as its segments joined by slashes, with every `.` and `..`
/// resolved; the empty path is the base directory itself. `None` when the
/// name climbs out of the base directory on the way.
pub open spec fn resolved(name: Seq<u8>) -> Option<Seq<u8>> {
    match walk(Seq::empty(), split(name, slash())) {
        Some(kept) => Some(join(kept, slash())),
        None => None,
    }
}

/// Whether `segment` is the name of a file or directory: it is not empty,
/// it is neither `.` nor `..`, and it holds no slash.
pub open spec fn plain_segment(segment: Seq<u8>) -> bool {
    &&& segment.len() > 0
    &&& segment != ascii("."@)
    &&& segment != ascii(".."@)
    &&& free_of(segment, slash())
}

/// Following segments that hold no slash from a place that is reached by
/// names alone leads to a place that is reached by names alone.
pub proof fn lemma_walk_keeps_names(kept: Seq<Seq<u8>>, segments: Seq<Seq<u8>>)
    requires
        forall|i: int| 0 <= i < kept.len() ==> plain_segment(#[trigger] kept[i]),
        forall|i: int| 0 <= i < segments.len() ==> free_of(#[trigger] segments[i], slash()),
    ensures
        walk(kept, segments) matches Some(out) ==> forall|i: int|
            0 <= i < out.len() ==> plain_segment(#[trigger] out[i]),
    decreases segments.len(),
{
    if segments.len() > 0 {
        match follow(kept, segments[0]) {
            Some(next) => {
                let rest = segments.skip(1);
                assert forall|i: int| 0 <= i < next.len() implies plain_segment(
                    #[trigger] next[i],
                ) by {
                    if i < kept.len() {
                        assert(next[i] == kept[i]);
                    }
                }
                assert forall|i: int| 0 <= i < rest.len() implies free_of(
                    #[trigger] rest[i],
                    slash(),
                ) by {
                    assert(rest[i] == segments[i + 1]);
                }
                lemma_walk_keeps_names(next, rest);
            },
            None => {},
        }
    }
}

/// What to do for a `GET` request.
pub open spec fn route_get(request: RequestView) -> DispatchView {
    let path = request.path;
    if path == ascii("/"@) || path == ascii("/index.html"@) {
        DispatchView::Reply(
            ResponseView::ok(ContentType::Html, Seq::empty(), request.accept_encoding),
        )
    } else if starts_with(path, echo_prefix()) {
        DispatchView::Reply(
            ResponseView::ok(
                ContentType::Text,
                path.skip(echo_prefix().len() as int),
                request.accept_encoding,
            ),
        )
    } else if path == ascii("/user-agent"@) {
        DispatchView::Reply(
            ResponseView::ok(ContentType::Text, request.user_agent, request.accept_encoding),
        )
    } else if starts_with(path, files_prefix()) {
        match resolved(path.skip(files_prefix().len() as int)) {
            Some(name) => DispatchView::ReadFile { name },
            None => DispatchView::Reply(ResponseView::not_found()),
        }
    } else {
        DispatchView::Reply(ResponseView::not_found())
    }
}

/// What to do for a `POST` request.
pub open spec fn route_post(request: RequestView) -> DispatchView {
    let path = request.path;
    if starts_with(path, files_prefix()) {
        match resolved(path.skip(files_prefix().len() as int)) {
            Some(name) => DispatchView::WriteFile { name, contents: request.body },
            None => DispatchView::Reply(ResponseView::not_found()),
        }
    } else {
        DispatchView::Reply(ResponseView::not_found())
    }
}

/// What to do for a request: dispatch on the method first, then on the path.
pub open spec fn route(request: RequestView) -> DispatchView {
    match request.method {
        MethodType::GET => route_get(request),
        MethodType::POST => route_post(request),
        MethodType::PUT | MethodType::DELETE => DispatchView::Reply(
            ResponseView::method_not_allowed(),
        ),
    }
}

/// The response once the store has answered a read: the file's bytes, or
/// `None` when the file could not be read.
pub open spec fn read_reply(request: RequestView, contents: Option<Seq<u8>>) -> ResponseView {
    match contents {
        Some(bytes) => ResponseView::ok(ContentType::OctetStream, bytes, request.accept_encoding),
        None => ResponseView::not_found(),
    }
}

/// The response once the store has answered a write: whether the file
/// was stored.
pub open spec fn write_reply(request: RequestView, stored: bool) -> ResponseView {
    if stored {
        ResponseView::created(request.accept_encoding)
    } else {
        ResponseView::creation_error()
    }
}

/// Resolves the file name `name` against the base directory: the place
/// that it leads to, as a path without `.`, `..` or empty segments, or
/// `None` when the name climbs out of the base directory.
pub fn resolve_name(name: &[u8]) -> (r: Option<Vec<u8>>)
    ensures
        optional(r) == resolved(name@),
{
    let segments = split_on(name, 0x2f);
    let ghost all = contents(segments@);
    let mut kept: Vec<Vec<u8>> = Vec::new();
    let mut i: usize = 0;
    proof {
        reveal_strlit(".");
        reveal_strlit("..");
        assert(all.skip(0) =~= all);
        assert(contents(kept@) =~= Seq::<Seq<u8>>::empty());
    }
    while i < segments.len()
        invariant
            i <= segments@.len(),
            all == contents(segments@),
            all == split(name@, slash()),
            is_ascii("."),
            is_ascii(".."),
            walk(Seq::empty(), all) == walk(contents(kept@), all.skip(i as int)),
        decreases segments@.len() - i,
    {
        let segment = segments[i].as_slice();
        let ghost before = contents(kept@);
        proof {
            assert(all.skip(i as int)[0] == segment@);
            assert(all.skip(i as int).skip(1) =~= all.skip(i + 1));
        }
        if segment.len() == 0 || equals_ascii(segment, ".") {
        } else if equals_ascii(segment, "..") {
            if kept.len() == 0 {
                return None;
            }
            kept.pop();
            assert(contents(kept@) =~= before.drop_last());
        } else {
            kept.push(copy_of(segment));
            assert(contents(kept@) =~= before.push(segment@));
        }
        i += 1;
    }
    assert(contents(kept@).skip(0) =~= contents(kept@));
    Some(join_with(&kept, 0, 0x2f))
}

impl Request {
    /// Routes the request: `PUT` and `DELETE` are refused whatever the
    /// path, `GET` and `POST` go by the path.
    pub fn handle(&self) -> (d: Dispatch)
        ensures
            d@ == route(self@),
    {
        match self.method {
            MethodType::GET => self.handle_get(),
            MethodType::POST => self.handle_post(),
            _ => Dispatch::Reply(Response::method_not_allowed()),
        }
    }

    /// Routes a `POST` request: a path under `/files/` asks for the body to
    /// be written to the file that its name resolves to, unless the name
    /// climbs out of the base directory; every other path is not found.
    pub fn handle_post(&self) -> (d: Dispatch)
        ensures
            d@ == route_post(self@),
    {
        proof {
            reveal_strlit("/files/");
        }
        match after_prefix(self.path.as_slice(), "/files/") {
            Some(name) => match resolve_name(name) {
                Some(name) => Dispatch::WriteFile {
                    name,
                    contents: copy_of(self.body.as_slice()),
                },
                None => Dispatch::Reply(Response::not_found()),
            },
            None => Dispatch::Reply(Response::not_found()),
        }
    }

    /// Routes a `GET` request, trying in this order: the index page, the
    /// echo route, the user-agent route, the file route. Every other path
    /// is not found, and so is a file whose name climbs out of the base
    /// directory.
    pub fn handle_get(&self) -> (d: Dispatch)
        ensures
            d@ == route_get(self@),
    {
        proof {
            reveal_strlit("/");
            reveal_strlit("/index.html");
            reveal_strlit("/echo/");
            reveal_strlit("/user-agent");
            reveal_strlit("/files/");
        }
        let path = self.path.as_slice();
        if equals_ascii(path, "/") || equals_ascii(path, "/index.html") {
            return Dispatch::Reply(
                Response::ok(ContentType::Html, Vec::new(), self.accept_encoding),
            );
        }
        if let Some(data) = after_prefix(path, "/echo/") {
            return Dispatch::Reply(
                Response::ok(ContentType::Text, copy_of(data), self.accept_encoding),
            );
        }
        if equals_ascii(path, "/user-agent") {
            return Dispatch::Reply(
                Response::ok(
                    ContentType::Text,
                    copy_of(self.user_agent.as_slice()),
                    self.accept_encoding,
                ),
            );
        }
        if let Some(name) = after_prefix(path, "/files/") {
            return match resolve_name(name) {
                Some(name) => Dispatch::ReadFile { name },
                None => Dispatch::Reply(Response::not_found()),
            };
        }
        Dispatch::Reply(Response::not_found())
    }

    /// The response to a `GET` of a file, once the store has been asked
    /// for it: `200` with the file's bytes, or `404` when there were none
    /// to read.
    pub fn file_read(&self, contents: Option<Vec<u8>>) -> (r: Response)
        ensures
            r@ == read_reply(self@, optional(contents)),
    {
        match contents {
            Some(bytes) => Response::ok(ContentType::OctetStream, bytes, self.accept_encoding),
            None => Response::not_found(),
        }
    }

    /// The response to a `POST` of a file, once the store has been asked
    /// to write it: `201` when it was stored, `500` when it was not.
    pub fn file_written(&self, stored: bool) -> (r: Response)
        ensures
            r@ == write_reply(self@, stored),
    {
        if stored {
            Response::created(self.accept_encoding)
        } else {
            Response::creation_error()
        }
    }
}

} // verus!
