//! Requests and the parser that reads them from raw bytes.
//!
//! A request is a start line of three whitespace-separated tokens, header
//! lines up to the first empty line, and a body made of the lines after it.

use crate::encoding::{negotiated, Encoding};
use crate::text::{
    ascii, contents, copy_of, equals_ascii, equals_ascii_ignoring_case, first_match, join_from,
    join_lines, lemma_first_match_is, lines, same_ignoring_case, split_lines, split_words, words,
};
use vstd::slice::slice_subrange;
use vstd::prelude::*;
use vstd::string::*;

verus! {

/// The request methods that the server knows.
#[derive(Copy, Clone, Debug, PartialEq, Eq, Structural)]
pub enum MethodType {
    GET,
    POST,
    PUT,
    DELETE,
}

/// Why a request could not be parsed.
#[derive(Copy, Clone, Debug, PartialEq, Eq, Structural)]
pub enum ParseError {
    /// The start line lacks one of its three tokens: method, path, version.
    MalformedStartLine,
    /// The method token names none of the known methods.
    UnsupportedMethod,
}

impl MethodType {
    /// The name of this method, in upper case.
    pub open spec fn token(self) -> Seq<char> {
        match self {
            MethodType::GET => "GET"@,
            MethodType::POST => "POST"@,
            MethodType::PUT => "PUT"@,
            MethodType::DELETE => "DELETE"@,
        }
    }

    /// The method that `token` names, in any mixture of cases.
    pub open spec fn named(token: Seq<u8>) -> Option<MethodType> {
        if same_ignoring_case(token, ascii(MethodType::GET.token())) {
            Some(MethodType::GET)
        } else if same_ignoring_case(token, ascii(MethodType::POST.token())) {
            Some(MethodType::POST)
        } else if same_ignoring_case(token, ascii(MethodType::PUT.token())) {
            Some(MethodType::PUT)
        } else if same_ignoring_case(token, ascii(MethodType::DELETE.token())) {
            Some(MethodType::DELETE)
        } else {
            None
        }
    }

    /// The method whose upper-case name is exactly `token`, if there is one.
    pub open spec fn named_exactly(token: Seq<u8>) -> Option<MethodType> {
        if token == ascii(MethodType::GET.token()) {
            Some(MethodType::GET)
        } else if token == ascii(MethodType::POST.token()) {
            Some(MethodType::POST)
        } else if token == ascii(MethodType::PUT.token()) {
            Some(MethodType::PUT)
        } else if token == ascii(MethodType::DELETE.token()) {
            Some(MethodType::DELETE)
        } else {
            None
        }
    }

    /// The name of this method, in upper case.
    pub fn as_str(&self) -> (r: &'static str)
        ensures
            r@ == self.token(),
            is_ascii(r),
    {
        proof {
            reveal_strlit("GET");
            reveal_strlit("POST");
            reveal_strlit("PUT");
            reveal_strlit("DELETE");
        }
        match self {
            MethodType::GET => "GET",
            MethodType::POST => "POST",
            MethodType::PUT => "PUT",
            MethodType::DELETE => "DELETE",
        }
    }

    /// The method with the upper-case name `method`. The name must be one
    /// of the four; use [`MethodType::from_str`] for input that may not be.
    pub fn from(method: &[u8]) -> (r: MethodType)
        requires
            MethodType::named_exactly(method@) is Some,
        ensures
            MethodType::named_exactly(method@) == Some(r),
    {
        proof {
            reveal_strlit("GET");
            reveal_strlit("POST");
            reveal_strlit("PUT");
            reveal_strlit("DELETE");
        }
        if equals_ascii(method, "GET") {
            MethodType::GET
        } else if equals_ascii(method, "POST") {
            MethodType::POST
        } else if equals_ascii(method, "PUT") {
            MethodType::PUT
        } else {
            MethodType::DELETE
        }
    }

    /// The method that `s` names, in any mixture of cases; an error when it
    /// names none.
    pub fn from_str(s: &[u8]) -> (r: Result<MethodType, ParseError>)
        ensures
            r == match MethodType::named(s@) {
                Some(m) => Ok::<MethodType, ParseError>(m),
                None => Err(ParseError::UnsupportedMethod),
            },
    {
        proof {
            reveal_strlit("GET");
            reveal_strlit("POST");
            reveal_strlit("PUT");
            reveal_strlit("DELETE");
        }
        if equals_ascii_ignoring_case(s, "GET") {
            Ok(MethodType::GET)
        } else if equals_ascii_ignoring_case(s, "POST") {
            Ok(MethodType::POST)
        } else if equals_ascii_ignoring_case(s, "PUT") {
            Ok(MethodType::PUT)
        } else if equals_ascii_ignoring_case(s, "DELETE") {
            Ok(MethodType::DELETE)
        } else {
            Err(ParseError::UnsupportedMethod)
        }
    }
}

/// A parsed request. The header fields are empty when the request has no
/// such header.
#[derive(Debug, PartialEq, Eq)]
pub struct Request {
    pub method: MethodType,
    /// The second word of the start line, as it stands. Every route begins
    /// with a slash; a path that does not is routed like any unknown path.
    pub path: Vec<u8>,
    /// The third word of the start line, as it stands.
    pub http_version: Vec<u8>,
    pub host: Vec<u8>,
    pub user_agent: Vec<u8>,
    pub accept: Vec<u8>,
    /// The encoding negotiated from the `Accept-Encoding` header.
    pub accept_encoding: Option<Encoding>,
    pub body: Vec<u8>,
}

/// The mathematical value of a [`Request`].
pub struct RequestView {
    pub method: MethodType,
    pub path: Seq<u8>,
    pub http_version: Seq<u8>,
    pub host: Seq<u8>,
    pub user_agent: Seq<u8>,
    pub accept: Seq<u8>,
    pub accept_encoding: Option<Encoding>,
    pub body: Seq<u8>,
}

impl View for Request {
    type V = RequestView;

    open spec fn view(&self) -> RequestView {
        RequestView {
            method: self.method,
            path: self.path@,
            http_version: self.http_version@,
            host: self.host@,
            user_agent: self.user_agent@,
            accept: self.accept@,
            accept_encoding: self.accept_encoding,
            body: self.body@,
        }
    }
}

impl Clone for Request {
    fn clone(&self) -> (r: Request)
        ensures
            r@ == self@,
    {
        Request {
            method: self.method,
            path: copy_of(self.path.as_slice()),
            http_version: copy_of(self.http_version.as_slice()),
            host: copy_of(self.host.as_slice()),
            user_agent: copy_of(self.user_agent.as_slice()),
            accept: copy_of(self.accept.as_slice()),
            accept_encoding: self.accept_encoding,
            body: copy_of(self.body.as_slice()),
        }
    }
}

/// What the recognized headers of a request say.
pub struct Headers {
    pub host: Seq<u8>,
    pub user_agent: Seq<u8>,
    pub accept: Seq<u8>,
    pub accept_encoding: Option<Encoding>,
}

/// For each index of `line`, whether a colon followed by a space starts there.
pub open spec fn separator_starts(line: Seq<u8>) -> Seq<bool> {
    Seq::new(line.len(), |i: int| i + 1 < line.len() && line[i] == 0x3a && line[i + 1] == 0x20)
}

/// The predicate "is true".
pub open spec fn is_true() -> spec_fn(bool) -> bool {
    |m: bool| m
}

/// The predicate "is an empty line".
pub open spec fn is_blank() -> spec_fn(Seq<u8>) -> bool {
    |line: Seq<u8>| line.len() == 0
}

/// Where the first colon-and-space of `line` starts, or `line.len()` when
/// the line has none.
pub open spec fn separator_index(line: Seq<u8>) -> nat {
    first_match(separator_starts(line), is_true())
}

/// The name of a header line: what stands before its first colon-and-space,
/// or the whole line when it has none.
pub open spec fn header_name(line: Seq<u8>) -> Seq<u8> {
    line.take(separator_index(line) as int)
}

/// The value of a header line: what stands after its first colon-and-space,
/// or nothing when it has none.
pub open spec fn header_value(line: Seq<u8>) -> Seq<u8> {
    let i = separator_index(line) as int;
    if i < line.len() {
        line.skip(i + 2)
    } else {
        Seq::empty()
    }
}

/// The two bytes that part the name of a header from its value.
pub open spec fn colon_space() -> Seq<u8> {
    seq![0x3au8, 0x20u8]
}

/// A header line is split where its name ends, when no colon-and-space
/// stands inside the name.
pub proof fn lemma_header_line(name: Seq<u8>, value: Seq<u8>)
    requires
        forall|i: int| 0 <= i && i + 1 < name.len() ==> !(name[i] == 0x3a && #[trigger] name[i + 1]
            == 0x20),
    ensures
        header_name(name + colon_space() + value) == name,
        header_value(name + colon_space() + value) == value,
{
    let line = name + colon_space() + value;
    let marks = separator_starts(line);
    let n = name.len() as int;
    assert forall|j: int| 0 <= j < n implies !is_true()(#[trigger] marks[j]) by {}
    lemma_first_match_is(marks, is_true(), n);
}

impl Headers {
    /// No header seen yet: empty strings and no encoding.
    pub open spec fn none() -> Headers {
        Headers {
            host: Seq::empty(),
            user_agent: Seq::empty(),
            accept: Seq::empty(),
            accept_encoding: None,
        }
    }

    /// These headers after the header line `line`. A recognized name, in
    /// any mixture of cases, replaces what was known under it; any other
    /// line changes nothing.
    pub open spec fn with_line(self, line: Seq<u8>) -> Headers {
        let name = header_name(line);
        let value = header_value(line);
        if same_ignoring_case(name, ascii("host"@)) {
            Headers { host: value, ..self }
        } else if same_ignoring_case(name, ascii("user-agent"@)) {
            Headers { user_agent: value, ..self }
        } else if same_ignoring_case(name, ascii("accept"@)) {
            Headers { accept: value, ..self }
        } else if same_ignoring_case(name, ascii("accept-encoding"@)) {
            Headers { accept_encoding: negotiated(value), ..self }
        } else {
            self
        }
    }

    /// What the header lines `ls` say, read from first to last.
    pub open spec fn of_lines(ls: Seq<Seq<u8>>) -> Headers
        decreases ls.len(),
    {
        if ls.len() == 0 {
            Headers::none()
        } else {
            Headers::of_lines(ls.drop_last()).with_line(ls.last())
        }
    }
}

/// The request with the given start line and the lines `rest` after it.
///
/// The lines up to the first empty one are header lines. The lines after
/// that empty line, joined by line feeds, are the body; without an empty
/// line there is no body.
///
/// The body is rebuilt from lines, so it is read as text: a carriage
/// return that stands before a line feed is not part of it, and neither is
/// one line ending at its very end. A payload that is not text does not
/// survive this unchanged.
pub open spec fn assemble(
    method: MethodType,
    path: Seq<u8>,
    http_version: Seq<u8>,
    rest: Seq<Seq<u8>>,
) -> RequestView {
    let k = first_match(rest, is_blank()) as int;
    let headers = Headers::of_lines(rest.take(k));
    RequestView {
        method,
        path,
        http_version,
        host: headers.host,
        user_agent: headers.user_agent,
        accept: headers.accept,
        accept_encoding: headers.accept_encoding,
        body: if k < rest.len() {
            join_lines(rest.skip(k + 1))
        } else {
            Seq::empty()
        },
    }
}

/// The request that the bytes `input` hold, or the reason why they hold none.
///
/// The first line must have at least three words: method, path and version;
/// words after the third are ignored. The method is judged as soon as it is
/// read, so a start line with an unknown method and no path counts as an
/// unsupported method.
pub open spec fn parse_request(input: Seq<u8>) -> Result<RequestView, ParseError> {
    let ls = lines(input);
    if ls.len() == 0 {
        Err(ParseError::MalformedStartLine)
    } else {
        let start = words(ls[0]);
        if start.len() == 0 {
            Err(ParseError::MalformedStartLine)
        } else {
            match MethodType::named(start[0]) {
                None => Err(ParseError::UnsupportedMethod),
                Some(method) => if start.len() < 3 {
                    Err(ParseError::MalformedStartLine)
                } else {
                    Ok(assemble(method, start[1], start[2], ls.skip(1)))
                },
            }
        }
    }
}

/// The mathematical value of a parser result.
pub open spec fn parsed_view(r: Result<Request, ParseError>) -> Result<RequestView, ParseError> {
    match r {
        Ok(request) => Ok(request@),
        Err(e) => Err(e),
    }
}

/// Whether the bytes `input` hold the whole header block of a request:
/// one of their lines is empty. An empty line is always an ended one, so
/// nothing that is read later can add to the lines before it.
pub open spec fn header_complete(input: Seq<u8>) -> bool {
    first_match(lines(input), is_blank()) < lines(input).len()
}

/// Whether the bytes `input` hold the whole header block of a request.
pub fn header_is_complete(input: &[u8]) -> (r: bool)
    ensures
        r == header_complete(input@),
{
    let ls = split_lines(input);
    let ghost all = contents(ls@);
    let mut i: usize = 0;
    while i < ls.len() && ls[i].len() > 0
        invariant
            i <= ls@.len(),
            all == contents(ls@),
            forall|j: int| 0 <= j < i ==> !is_blank()(#[trigger] all[j]),
        decreases ls@.len() - i,
    {
        i += 1;
    }
    proof {
        if i < ls@.len() {
            assert(all[i as int] == ls@[i as int]@);
        }
        lemma_first_match_is(all, is_blank(), i as int);
    }
    i < ls.len()
}

/// Where the first colon-and-space of `line` starts, or `line.len()`.
pub fn find_separator(line: &[u8]) -> (i: usize)
    ensures
        i == separator_index(line@),
        i <= line@.len(),
        i < line@.len() ==> i + 2 <= line@.len(),
{
    let mut i: usize = 0;
    let ghost marks = separator_starts(line@);
    while i < line.len() && !(i + 1 < line.len() && line[i] == 0x3a && line[i + 1] == 0x20)
        invariant
            i <= line@.len(),
            marks == separator_starts(line@),
            forall|j: int| 0 <= j < i ==> !marks[j],
        decreases line@.len() - i,
    {
        i += 1;
    }
    proof {
        assert forall|j: int| 0 <= j < i implies !is_true()(#[trigger] marks[j]) by {}
        lemma_first_match_is(marks, is_true(), i as int);
    }
    i
}

impl Request {
    /// Parses a request from the bytes of one read of the connection.
    ///
    /// Fails with `MalformedStartLine` when the first line lacks a method,
    /// a path or a version, and with `UnsupportedMethod` when its first word
    /// names no known method. Otherwise the request is the one that
    /// [`parse_request`] describes.
    pub fn parse(request: &[u8]) -> (r: Result<Request, ParseError>)
        ensures
            parsed_view(r) == parse_request(request@),
    {
        let ls = split_lines(request);
        let ghost all = contents(ls@);
        if ls.len() == 0 {
            return Err(ParseError::MalformedStartLine);
        }
        let start = split_words(ls[0].as_slice());
        if start.len() == 0 {
            return Err(ParseError::MalformedStartLine);
        }
        let method = match MethodType::from_str(start[0].as_slice()) {
            Ok(m) => m,
            Err(e) => {
                return Err(e);
            },
        };
        if start.len() < 3 {
            return Err(ParseError::MalformedStartLine);
        }
        let path = copy_of(start[1].as_slice());
        let http_version = copy_of(start[2].as_slice());

        let mut host: Vec<u8> = Vec::new();
        let mut user_agent: Vec<u8> = Vec::new();
        let mut accept: Vec<u8> = Vec::new();
        let mut accept_encoding: Option<Encoding> = None;
        let ghost rest = all.skip(1);
        let ghost mut seen = Headers::none();
        let mut i: usize = 1;
        while i < ls.len() && ls[i].len() > 0
            invariant
                1 <= i <= ls@.len(),
                all == contents(ls@),
                rest == all.skip(1),
                forall|j: int| 0 <= j < i - 1 ==> !is_blank()(#[trigger] rest[j]),
                seen == Headers::of_lines(rest.take(i - 1)),
                host@ == seen.host,
                user_agent@ == seen.user_agent,
                accept@ == seen.accept,
                accept_encoding == seen.accept_encoding,
            decreases ls@.len() - i,
        {
            let line = ls[i].as_slice();
            proof {
                assert(rest.take(i as int).drop_last() =~= rest.take(i - 1));
                reveal_strlit("host");
                reveal_strlit("user-agent");
                reveal_strlit("accept");
                reveal_strlit("accept-encoding");
            }
            let sep = find_separator(line);
            let name = slice_subrange(line, 0, sep);
            let value = if sep < line.len() {
                copy_of(slice_subrange(line, sep + 2, line.len()))
            } else {
                Vec::new()
            };
            if equals_ascii_ignoring_case(name, "host") {
                host = value;
            } else if equals_ascii_ignoring_case(name, "user-agent") {
                user_agent = value;
            } else if equals_ascii_ignoring_case(name, "accept") {
                accept = value;
            } else if equals_ascii_ignoring_case(name, "accept-encoding") {
                accept_encoding = Encoding::parse(value.as_slice());
            }
            proof {
                seen = seen.with_line(line@);
            }
            i += 1;
        }
        proof {
            lemma_first_match_is(rest, is_blank(), i - 1);
        }
        let body = if i < ls.len() {
            assert(all.skip(i + 1) =~= rest.skip(i as int));
            join_from(&ls, i + 1)
        } else {
            Vec::new()
        };
        Ok(
            Request {
                method,
                path,
                http_version,
                host,
                user_agent,
                accept,
                accept_encoding,
                body,
            },
        )
    }
}

} // verus!
