//! Responses and their wire format: status line, headers, blank line, body.
//!
//! A response is built by the router, has its body compressed when an
//! encoding was negotiated, and is then serialised. The `Content-length`
//! header is computed from the body as it stands at serialisation, that is,
//! after compression.

use crate::encoding::Encoding;
use crate::text::{
    ascii, bytes_equal, copy_of, cr, decimal, lf, optional, push_ascii, push_bytes, push_decimal,
};
use vstd::prelude::*;
use vstd::string::*;
use vstd::utf8::*;

verus! {

/// The media type of a response body.
#[derive(Copy, Clone, Debug, PartialEq, Eq, Structural)]
pub enum ContentType {
    Text,
    Html,
    Json,
    OctetStream,
}

/// Whether two strings hold the same characters.
fn same_text(a: &str, b: &str) -> (r: bool)
    ensures
        r == (a@ == b@),
{
    proof {
        encode_utf8_decode_utf8(a@);
        encode_utf8_decode_utf8(b@);
    }
    bytes_equal(a.as_bytes(), b.as_bytes())
}

impl ContentType {
    /// The MIME string of this content type.
    pub open spec fn mime(self) -> Seq<char> {
        match self {
            ContentType::Text => "text/plain"@,
            ContentType::Html => "text/html"@,
            ContentType::Json => "application/json"@,
            ContentType::OctetStream => "application/octet-stream"@,
        }
    }

    /// The content type that goes with a file extension; plain text for an
    /// extension that is not known.
    pub open spec fn of_extension(extension: Seq<char>) -> ContentType {
        if extension == "txt"@ {
            ContentType::Text
        } else if extension == "html"@ {
            ContentType::Html
        } else if extension == "json"@ {
            ContentType::Json
        } else if extension == "bin"@ {
            ContentType::OctetStream
        } else {
            ContentType::Text
        }
    }

    /// The content type that goes with a file extension (without the dot);
    /// plain text for an extension that is not known.
    pub fn from_extension(extension: &str) -> (r: ContentType)
        ensures
            r == ContentType::of_extension(extension@),
    {
        if same_text(extension, "txt") {
            ContentType::Text
        } else if same_text(extension, "html") {
            ContentType::Html
        } else if same_text(extension, "json") {
            ContentType::Json
        } else if same_text(extension, "bin") {
            ContentType::OctetStream
        } else {
            ContentType::Text
        }
    }

    /// The MIME string of this content type.
    pub fn to_str(&self) -> (r: &'static str)
        ensures
            r@ == self.mime(),
            is_ascii(r),
    {
        proof {
            reveal_strlit("text/plain");
            reveal_strlit("text/html");
            reveal_strlit("application/json");
            reveal_strlit("application/octet-stream");
        }
        match self {
            ContentType::Text => "text/plain",
            ContentType::Html => "text/html",
            ContentType::Json => "application/json",
            ContentType::OctetStream => "application/octet-stream",
        }
    }
}

/// A response, as the router builds it and the serialiser consumes it.
#[derive(Debug, PartialEq, Eq)]
pub struct Response {
    pub status_code: u16,
    pub status_message: Vec<u8>,
    pub content_type: ContentType,
    /// The encoding to apply to the body, or that has been applied to it.
    pub accept_encoding: Option<Encoding>,
    pub body: Vec<u8>,
}

/// The mathematical value of a [`Response`].
pub struct ResponseView {
    pub status_code: u16,
    pub status_message: Seq<u8>,
    pub content_type: ContentType,
    pub accept_encoding: Option<Encoding>,
    pub body: Seq<u8>,
}

impl View for Response {
    type V = ResponseView;

    open spec fn view(&self) -> ResponseView {
        ResponseView {
            status_code: self.status_code,
            status_message: self.status_message@,
            content_type: self.content_type,
            accept_encoding: self.accept_encoding,
            body: self.body@,
        }
    }
}

impl Clone for Response {
    fn clone(&self) -> (r: Response)
        ensures
            r@ == self@,
    {
        Response {
            status_code: self.status_code,
            status_message: copy_of(self.status_message.as_slice()),
            content_type: self.content_type,
            accept_encoding: self.accept_encoding,
            body: copy_of(self.body.as_slice()),
        }
    }
}

/// The two bytes that end a line on the wire.
pub open spec fn crlf() -> Seq<u8> {
    seq![cr(), lf()]
}

/// `HTTP/1.1 <code> <message>` and the line ending.
pub open spec fn status_line(code: u16, message: Seq<u8>) -> Seq<u8> {
    ascii("HTTP/1.1 "@) + decimal(code as nat) + ascii(" "@) + message + crlf()
}

/// The `Content-Type` header line.
pub open spec fn content_type_line(content_type: ContentType) -> Seq<u8> {
    ascii("Content-Type: "@) + ascii(content_type.mime()) + crlf()
}

/// The `Content-length` header line for a body of `len` bytes.
pub open spec fn content_length_line(len: nat) -> Seq<u8> {
    ascii("Content-length: "@) + decimal(len) + crlf()
}

/// The `Content-Encoding` header line; nothing at all when no encoding is applied.
pub open spec fn content_encoding_line(encoding: Option<Encoding>) -> Seq<u8> {
    match encoding {
        Some(e) => ascii("Content-Encoding: "@) + ascii(e.token()) + crlf(),
        None => Seq::empty(),
    }
}

impl ResponseView {
    /// A `200 OK` response.
    pub open spec fn ok(
        content_type: ContentType,
        body: Seq<u8>,
        encoding: Option<Encoding>,
    ) -> ResponseView {
        ResponseView {
            status_code: 200,
            status_message: ascii("OK"@),
            content_type,
            accept_encoding: encoding,
            body,
        }
    }

    /// The `201 Created` response, with an empty body.
    pub open spec fn created(encoding: Option<Encoding>) -> ResponseView {
        ResponseView {
            status_code: 201,
            status_message: ascii("Created"@),
            content_type: ContentType::Text,
            accept_encoding: encoding,
            body: Seq::empty(),
        }
    }

    /// The `400 Bad Request` response.
    pub open spec fn bad_request() -> ResponseView {
        ResponseView {
            status_code: 400,
            status_message: ascii("Bad Request"@),
            content_type: ContentType::Text,
            accept_encoding: None,
            body: ascii("Bad Request"@),
        }
    }

    /// The `404 Not Found` response.
    pub open spec fn not_found() -> ResponseView {
        ResponseView {
            status_code: 404,
            status_message: ascii("Not Found"@),
            content_type: ContentType::Text,
            accept_encoding: None,
            body: ascii("Not Found"@),
        }
    }

    /// The `405 Method Not Allowed` response.
    pub open spec fn method_not_allowed() -> ResponseView {
        ResponseView {
            status_code: 405,
            status_message: ascii("Method Not Allowed"@),
            content_type: ContentType::Text,
            accept_encoding: None,
            body: ascii("Method not allowed"@),
        }
    }

    /// The `500` response for a file that could not be written.
    pub open spec fn creation_error() -> ResponseView {
        ResponseView {
            status_code: 500,
            status_message: ascii("Creation Error"@),
            content_type: ContentType::Text,
            accept_encoding: None,
            body: ascii("Error while creating the file"@),
        }
    }

    /// The `500` response for a body that could not be compressed.
    pub open spec fn encoding_error() -> ResponseView {
        ResponseView {
            status_code: 500,
            status_message: ascii("Internal Server Error"@),
            content_type: ContentType::Text,
            accept_encoding: None,
            body: ascii("Error while encoding the body"@),
        }
    }

    /// The status message holds no carriage return and no line feed, so
    /// that it cannot end the status line early.
    pub open spec fn well_formed(self) -> bool {
        forall|i: int|
            0 <= i < self.status_message.len() ==> self.status_message[i] != cr()
                && self.status_message[i] != lf()
    }

    /// This response with `body` in place of its body.
    pub open spec fn with_body(self, body: Seq<u8>) -> ResponseView {
        ResponseView { body, ..self }
    }

    /// The response to serialise once the encoder has been run on the body
    /// and has handed back `compressed` (`None` when it failed). A response
    /// that carries no encoding is left as it is.
    pub open spec fn encode(self, compressed: Option<Seq<u8>>) -> ResponseView {
        match self.accept_encoding {
            None => self,
            Some(_) => match compressed {
                Some(z) => self.with_body(z),
                None => ResponseView::encoding_error(),
            },
        }
    }

    /// The header block: status line, `Content-Type`, `Content-length`
    /// (the length of the body as it stands), `Content-Encoding` when an
    /// encoding is applied, and the blank line that ends the block.
    pub open spec fn header_bytes(self) -> Seq<u8> {
        status_line(self.status_code, self.status_message) + content_type_line(self.content_type)
            + content_length_line(self.body.len()) + content_encoding_line(self.accept_encoding)
            + crlf()
    }

    /// The response on the wire: header block, then body.
    pub open spec fn wire_bytes(self) -> Seq<u8> {
        self.header_bytes() + self.body
    }

    /// This response once the encoding that it carries has been applied:
    /// the body is replaced by what the encoder makes of it, and where the
    /// encoder fails on the body, the response is the encoding-error
    /// response. A response that carries no encoding is left as it is.
    pub open spec fn after_encoding(self) -> ResponseView {
        match self.accept_encoding {
            None => self,
            Some(e) => self.encode(e.encoded(self.body)),
        }
    }

    /// What is sent for this response: its wire form after the encoding
    /// that it carries has been applied.
    pub open spec fn sent(self) -> Seq<u8> {
        self.after_encoding().wire_bytes()
    }
}

/// The bytes of the ASCII keyword `word`.
pub fn ascii_bytes(word: &str) -> (out: Vec<u8>)
    requires
        is_ascii(word),
    ensures
        out@ == ascii(word@),
{
    let mut out: Vec<u8> = Vec::new();
    push_ascii(&mut out, word);
    out
}

/// Appends a line ending to `out`.
fn push_crlf(out: &mut Vec<u8>)
    ensures
        final(out)@ == old(out)@ + crlf(),
{
    out.push(0x0d);
    out.push(0x0a);
}

/// The header block of `response`: status line, `Content-Type`,
/// `Content-length`, then `Content-Encoding` if the response carries an
/// encoding, then a blank line.
pub fn format_header_response(response: &Response) -> (out: Vec<u8>)
    ensures
        out@ == response@.header_bytes(),
{
    let mut out: Vec<u8> = Vec::new();
    proof {
        reveal_strlit("HTTP/1.1 ");
        reveal_strlit(" ");
        reveal_strlit("Content-Type: ");
        reveal_strlit("Content-length: ");
        reveal_strlit("Content-Encoding: ");
    }
    push_ascii(&mut out, "HTTP/1.1 ");
    push_decimal(&mut out, response.status_code as usize);
    push_ascii(&mut out, " ");
    push_bytes(&mut out, response.status_message.as_slice());
    push_crlf(&mut out);

    push_ascii(&mut out, "Content-Type: ");
    push_ascii(&mut out, response.content_type.to_str());
    push_crlf(&mut out);

    push_ascii(&mut out, "Content-length: ");
    push_decimal(&mut out, response.body.len());
    push_crlf(&mut out);

    if let Some(e) = response.accept_encoding {
        push_ascii(&mut out, "Content-Encoding: ");
        push_ascii(&mut out, e.name());
        push_crlf(&mut out);
    }
    push_crlf(&mut out);
    out
}

impl Response {
    /// A `200 OK` response.
    pub fn ok(content_type: ContentType, body: Vec<u8>, encoding: Option<Encoding>) -> (r:
        Response)
        ensures
            r@ == ResponseView::ok(content_type, body@, encoding),
    {
        proof {
            reveal_strlit("OK");
        }
        Response {
            status_code: 200,
            status_message: ascii_bytes("OK"),
            content_type,
            accept_encoding: encoding,
            body,
        }
    }

    /// The `201 Created` response, with an empty body.
    pub fn created(encoding: Option<Encoding>) -> (r: Response)
        ensures
            r@ == ResponseView::created(encoding),
    {
        proof {
            reveal_strlit("Created");
        }
        Response {
            status_code: 201,
            status_message: ascii_bytes("Created"),
            content_type: ContentType::Text,
            accept_encoding: encoding,
            body: Vec::new(),
        }
    }

    /// The `400 Bad Request` response, sent when a request cannot be parsed.
    pub fn bad_request() -> (r: Response)
        ensures
            r@ == ResponseView::bad_request(),
    {
        proof {
            reveal_strlit("Bad Request");
        }
        Response {
            status_code: 400,
            status_message: ascii_bytes("Bad Request"),
            content_type: ContentType::Text,
            accept_encoding: None,
            body: ascii_bytes("Bad Request"),
        }
    }

    /// The `404 Not Found` response.
    pub fn not_found() -> (r: Response)
        ensures
            r@ == ResponseView::not_found(),
    {
        proof {
            reveal_strlit("Not Found");
        }
        Response {
            status_code: 404,
            status_message: ascii_bytes("Not Found"),
            content_type: ContentType::Text,
            accept_encoding: None,
            body: ascii_bytes("Not Found"),
        }
    }

    /// The `405 Method Not Allowed` response.
    pub fn method_not_allowed() -> (r: Response)
        ensures
            r@ == ResponseView::method_not_allowed(),
    {
        proof {
            reveal_strlit("Method Not Allowed");
            reveal_strlit("Method not allowed");
        }
        Response {
            status_code: 405,
            status_message: ascii_bytes("Method Not Allowed"),
            content_type: ContentType::Text,
            accept_encoding: None,
            body: ascii_bytes("Method not allowed"),
        }
    }

    /// The `500` response for a file that could not be written.
    pub fn creation_error() -> (r: Response)
        ensures
            r@ == ResponseView::creation_error(),
    {
        proof {
            reveal_strlit("Creation Error");
            reveal_strlit("Error while creating the file");
        }
        Response {
            status_code: 500,
            status_message: ascii_bytes("Creation Error"),
            content_type: ContentType::Text,
            accept_encoding: None,
            body: ascii_bytes("Error while creating the file"),
        }
    }

    /// The `500` response for a body that could not be compressed.
    pub fn encoding_error() -> (r: Response)
        ensures
            r@ == ResponseView::encoding_error(),
    {
        proof {
            reveal_strlit("Internal Server Error");
            reveal_strlit("Error while encoding the body");
        }
        Response {
            status_code: 500,
            status_message: ascii_bytes("Internal Server Error"),
            content_type: ContentType::Text,
            accept_encoding: None,
            body: ascii_bytes("Error while encoding the body"),
        }
    }

    /// Takes the encoder's result for the body: on success the body is
    /// replaced by its compressed form; on failure the whole response is
    /// replaced by the encoding-error response. A response that carries no
    /// encoding is left as it is.
    pub fn apply_encoding(&mut self, compressed: Option<Vec<u8>>)
        ensures
            final(self)@ == old(self)@.encode(optional(compressed)),
    {
        if self.accept_encoding.is_some() {
            match compressed {
                Some(z) => {
                    self.body = z;
                },
                None => {
                    *self = Response::encoding_error();
                },
            }
        }
    }

    /// The response on the wire as it stands: header block, then body.
    /// Nothing is compressed here.
    pub fn serialize(&self) -> (out: Vec<u8>)
        ensures
            out@ == self@.wire_bytes(),
    {
        let mut out = format_header_response(self);
        push_bytes(&mut out, self.body.as_slice());
        out
    }

    /// Compresses the body with the encoding that the response carries, if
    /// any, and serialises the result. The body is replaced before the
    /// `Content-length` header is computed, so the header gives the length
    /// of what is sent. Nothing but the body changes, unless the encoder
    /// fails on the body: then the response becomes the encoding-error
    /// response, and that is what is serialised.
    ///
    /// The response is left as it was sent, with the compressed body in
    /// it; it is meant to be sent once.
    pub fn to_bytes(&mut self) -> (out: Vec<u8>)
        ensures
            final(self)@ == old(self)@.after_encoding(),
            out@ == old(self)@.sent(),
    {
        match self.accept_encoding {
            Some(e) => {
                let compressed = e.compress(self.body.as_slice());
                self.apply_encoding(compressed);
            },
            None => {},
        }
        self.serialize()
    }
}

} // verus!
