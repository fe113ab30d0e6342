//! What holds of the server as a whole, stated over the definitions of
//! its parts and proved from them.

use crate::connection::{dispatch, follows, outcome, Action, Connection, Event};
use crate::encoding::{negotiate, negotiated, recognize, Encoding};
use crate::request::{
    assemble, colon_space, header_complete, header_name, header_value, is_blank, lemma_header_line, parse_request,
    Headers, MethodType, ParseError, RequestView,
};
use crate::response::{
    content_encoding_line, content_length_line, content_type_line, crlf, status_line, ContentType,
    ResponseView,
};
use crate::router::{
    echo_prefix, files_prefix, follow, lemma_walk_keeps_names, plain_segment, read_reply,
    resolved, route, slash, walk, write_reply, DispatchView,
};
use crate::text::{
    ascii, cr, decimal, is_space, join_lines, lemma_decimal_digits, lemma_first_match_is,
    lemma_split_join, lemma_split_pieces, split,
    lemma_lines_first, lemma_same_as_word, lemma_words_after_space, lemma_words_first,
    lemma_words_of_nothing, lf, lines, lowercase, no_line_break, no_space, same_ignoring_case,
    starts_with, trim, words,
};
use vstd::prelude::*;

verus! {

/// The bytes of a request: a start line of `method`, `path` and `version`
/// with single spaces between them, its line ending, and then `tail`.
pub open spec fn request_bytes(
    method: Seq<u8>,
    path: Seq<u8>,
    version: Seq<u8>,
    tail: Seq<u8>,
) -> Seq<u8> {
    method + seq![0x20u8] + path + seq![0x20u8] + version + crlf() + tail
}

/// The parser reads the three words of a start line as method, path and
/// version, whatever the words are, and takes headers and body from the
/// lines that follow. It fails only when the method is not a known one.
pub proof fn start_line_is_read(
    method: Seq<u8>,
    path: Seq<u8>,
    version: Seq<u8>,
    tail: Seq<u8>,
)
    requires
        method.len() > 0,
        no_space(method),
        path.len() > 0,
        no_space(path),
        version.len() > 0,
        no_space(version),
    ensures
        parse_request(request_bytes(method, path, version, tail)) == match MethodType::named(
            method,
        ) {
            Some(m) => Ok::<RequestView, ParseError>(assemble(m, path, version, lines(tail))),
            None => Err(ParseError::UnsupportedMethod),
        },
{
    let sp = seq![0x20u8];
    let line = method + sp + path + sp + version;
    let input = request_bytes(method, path, version, tail);
    assert forall|i: int| 0 <= i < line.len() implies #[trigger] line[i] != lf() by {}
    lemma_lines_first(line, tail);
    let ls = lines(input);
    assert(ls.skip(1) =~= lines(tail));

    let nothing = Seq::<u8>::empty();
    lemma_words_of_nothing();
    lemma_words_first(version, nothing);
    lemma_words_after_space(0x20, version);
    assert((sp + version)[0] == 0x20u8);
    lemma_words_first(path, sp + version);
    lemma_words_after_space(0x20, path + (sp + version));
    lemma_words_first(method, sp + (path + (sp + version)));
    assert(line =~= method + (sp + (path + (sp + version))));
}

/// `GET /` and `GET /index.html` are answered `200 OK` with the content
/// type `text/html` and an empty body.
pub proof fn index_page_is_served(request: RequestView)
    requires
        request.method == MethodType::GET,
        request.path == ascii("/"@) || request.path == ascii("/index.html"@),
    ensures
        route(request) matches DispatchView::Reply(response) && response.status_code == 200
            && response.content_type.mime() == "text/html"@ && response.body.len() == 0,
{
}

/// `GET /echo/s` is answered `200 OK` with the content type `text/plain`
/// and the body `s`, byte for byte. When no encoding was negotiated, the
/// response goes out with the length of `s` in its `Content-length` header
/// and with `s` as its body.
pub proof fn echo_route_returns_suffix(request: RequestView, s: Seq<u8>)
    requires
        request.method == MethodType::GET,
        request.path == echo_prefix() + s,
    ensures
        route(request) == DispatchView::Reply(
            ResponseView::ok(ContentType::Text, s, request.accept_encoding),
        ),
        ContentType::Text.mime() == "text/plain"@,
        ResponseView::ok(ContentType::Text, s, None).sent() == status_line(200, ascii("OK"@))
            + content_type_line(ContentType::Text) + content_length_line(s.len()) + crlf() + s,
{
    reveal_strlit("/echo/");
    reveal_strlit("/");
    reveal_strlit("/index.html");
    let path = request.path;
    assert(ascii("/index.html"@)[1] == 0x69u8);
    assert(path.take(echo_prefix().len() as int) =~= echo_prefix());
    assert(path.skip(echo_prefix().len() as int) =~= s);
}

/// `GET /echo/s` from a client that was found to accept the encoding `e`
/// is answered, where the encoder makes `z` of `s`, `200 OK` with the
/// `Content-Encoding` header that names `e`, with `z` as the body and with
/// the length of `z` in the `Content-length` header.
pub proof fn echo_is_compressed_when_accepted(
    request: RequestView,
    s: Seq<u8>,
    e: Encoding,
    z: Seq<u8>,
)
    requires
        request.method == MethodType::GET,
        request.path == echo_prefix() + s,
        request.accept_encoding == Some(e),
        e.encoded(s) == Some(z),
    ensures
        route(request) matches DispatchView::Reply(response) && response.sent() == status_line(
            200,
            ascii("OK"@),
        ) + content_type_line(ContentType::Text) + content_length_line(z.len()) + (ascii(
            "Content-Encoding: "@,
        ) + ascii(e.token()) + crlf()) + crlf() + z,
{
    echo_route_returns_suffix(request, s);
}

/// From the wire to the router: the bytes of a request for `GET /echo/s`,
/// where `s` holds no whitespace, are parsed, and the request is answered
/// `200 OK` with the body `s`.
pub proof fn echo_is_served(s: Seq<u8>, version: Seq<u8>, tail: Seq<u8>)
    requires
        no_space(s),
        version.len() > 0,
        no_space(version),
    ensures
        parse_request(request_bytes(ascii("GET"@), echo_prefix() + s, version, tail)) matches Ok(
            request,
        ) && route(request) == DispatchView::Reply(
            ResponseView::ok(ContentType::Text, s, request.accept_encoding),
        ),
{
    reveal_strlit("GET");
    reveal_strlit("/echo/");
    let method = ascii("GET"@);
    let path = echo_prefix() + s;
    assert forall|i: int| 0 <= i < path.len() implies !is_space(#[trigger] path[i]) by {}
    start_line_is_read(method, path, version, tail);
    let request = assemble(MethodType::GET, path, version, lines(tail));
    echo_route_returns_suffix(request, s);
}

/// `GET /user-agent` is answered `200 OK` with the value of the
/// `User-Agent` header as the body.
pub proof fn user_agent_is_returned(request: RequestView)
    requires
        request.method == MethodType::GET,
        request.path == ascii("/user-agent"@),
    ensures
        route(request) == DispatchView::Reply(
            ResponseView::ok(ContentType::Text, request.user_agent, request.accept_encoding),
        ),
{
    reveal_strlit("/echo/");
    reveal_strlit("/");
    reveal_strlit("/index.html");
    reveal_strlit("/user-agent");
    assert(ascii("/index.html"@)[1] == 0x69u8);
    assert(echo_prefix()[1] == 0x65u8);
}

/// A request with one header line: the line is read as a header, and the
/// lines after the empty line that follows it are the body.
pub proof fn single_header_is_read(
    method: Seq<u8>,
    path: Seq<u8>,
    version: Seq<u8>,
    line: Seq<u8>,
    body: Seq<u8>,
)
    requires
        MethodType::named(method) is Some,
        path.len() > 0,
        no_space(path),
        version.len() > 0,
        no_space(version),
        line.len() > 0,
        forall|i: int| 0 <= i < line.len() ==> #[trigger] line[i] != lf(),
    ensures
        parse_request(request_bytes(method, path, version, line + crlf() + crlf() + body)) == Ok::<
            RequestView,
            ParseError,
        >(
            {
                let headers = Headers::none().with_line(line);
                RequestView {
                    method: MethodType::named(method)->0,
                    path,
                    http_version: version,
                    host: headers.host,
                    user_agent: headers.user_agent,
                    accept: headers.accept,
                    accept_encoding: headers.accept_encoding,
                    body: join_lines(lines(body)),
                }
            },
        ),
{
    let tail = line + crlf() + crlf() + body;
    method_token_is_a_word(method);
    start_line_is_read(method, path, version, tail);
    let nothing = Seq::<u8>::empty();
    lemma_lines_first(nothing, body);
    lemma_lines_first(line, crlf() + body);
    assert(tail =~= line + seq![cr(), lf()] + (crlf() + body));
    let rest = lines(tail);
    assert forall|j: int| 0 <= j < 1 implies !is_blank()(#[trigger] rest[j]) by {}
    lemma_first_match_is(rest, is_blank(), 1);
    assert(rest.skip(2) =~= lines(body));
    assert(Headers::of_lines(rest.take(1)) == Headers::none().with_line(line)) by {
        assert(Headers::of_lines(rest.take(1).drop_last()) == Headers::none());
    }
}

/// From the wire to the router: `GET /user-agent` with the header
/// `User-Agent: v` is answered `200 OK` with the body `v`, byte for byte.
pub proof fn user_agent_is_served(value: Seq<u8>, version: Seq<u8>, body: Seq<u8>)
    requires
        version.len() > 0,
        no_space(version),
        forall|i: int| 0 <= i < value.len() ==> #[trigger] value[i] != lf(),
    ensures
        parse_request(
            request_bytes(
                ascii("GET"@),
                ascii("/user-agent"@),
                version,
                ascii("User-Agent"@) + colon_space() + value + crlf() + crlf() + body,
            ),
        ) matches Ok(request) && route(request) == DispatchView::Reply(
            ResponseView::ok(ContentType::Text, value, None),
        ),
{
    reveal_strlit("GET");
    reveal_strlit("/user-agent");
    reveal_strlit("User-Agent");
    reveal_strlit("user-agent");
    reveal_strlit("host");
    let name = ascii("User-Agent"@);
    let line = name + colon_space() + value;
    assert forall|i: int| 0 <= i < line.len() implies #[trigger] line[i] != lf() by {
        if i >= 12 {
            assert(line[i] == value[i - 12]);
        }
    }
    lemma_header_line(name, value);
    assert(lowercase(name) =~= lowercase(ascii("user-agent"@)));
    single_header_is_read(ascii("GET"@), ascii("/user-agent"@), version, line, body);
    let request = parse_request(
        request_bytes(
            ascii("GET"@),
            ascii("/user-agent"@),
            version,
            line + crlf() + crlf() + body,
        ),
    )->Ok_0;
    user_agent_is_returned(request);
}

/// From the wire to the router: when the only header of a request is
/// `Accept-Encoding`, the request carries what is negotiated from its value.
pub proof fn offered_encoding_is_negotiated(
    method: Seq<u8>,
    path: Seq<u8>,
    version: Seq<u8>,
    value: Seq<u8>,
    body: Seq<u8>,
)
    requires
        MethodType::named(method) is Some,
        path.len() > 0,
        no_space(path),
        version.len() > 0,
        no_space(version),
        forall|i: int| 0 <= i < value.len() ==> #[trigger] value[i] != lf(),
    ensures
        parse_request(
            request_bytes(
                method,
                path,
                version,
                ascii("Accept-Encoding"@) + colon_space() + value + crlf() + crlf() + body,
            ),
        ) matches Ok(request) && request.accept_encoding == negotiated(value),
{
    reveal_strlit("Accept-Encoding");
    reveal_strlit("accept-encoding");
    reveal_strlit("accept");
    reveal_strlit("user-agent");
    reveal_strlit("host");
    let name = ascii("Accept-Encoding"@);
    let line = name + colon_space() + value;
    assert forall|i: int| 0 <= i < line.len() implies #[trigger] line[i] != lf() by {}
    lemma_header_line(name, value);
    assert(lowercase(name) =~= lowercase(ascii("accept-encoding"@)));
    single_header_is_read(method, path, version, line, body);
}

/// `PUT` and `DELETE` are answered `405`, whatever the path.
pub proof fn put_and_delete_are_refused(request: RequestView)
    requires
        request.method == MethodType::PUT || request.method == MethodType::DELETE,
    ensures
        route(request) == DispatchView::Reply(ResponseView::method_not_allowed()),
        ResponseView::method_not_allowed().status_code == 405,
{
}

/// A method token names a method only if it is a word.
proof fn method_token_is_a_word(token: Seq<u8>)
    requires
        MethodType::named(token) is Some,
    ensures
        token.len() > 0,
        no_space(token),
{
    reveal_strlit("GET");
    reveal_strlit("POST");
    reveal_strlit("PUT");
    reveal_strlit("DELETE");
    let m = MethodType::named(token)->0;
    let word = ascii(m.token());
    lemma_same_as_word(token, word);
}

/// From the wire to the router: a request whose method reads `PUT` or
/// `DELETE`, in any mixture of cases, is answered `405`, whatever its
/// path, headers and body.
pub proof fn put_and_delete_are_refused_on_the_wire(
    method: Seq<u8>,
    path: Seq<u8>,
    version: Seq<u8>,
    tail: Seq<u8>,
)
    requires
        MethodType::named(method) == Some(MethodType::PUT) || MethodType::named(method) == Some(
            MethodType::DELETE,
        ),
        path.len() > 0,
        no_space(path),
        version.len() > 0,
        no_space(version),
    ensures
        parse_request(request_bytes(method, path, version, tail)) matches Ok(request) && route(
            request,
        ) == DispatchView::Reply(ResponseView::method_not_allowed()),
{
    method_token_is_a_word(method);
    start_line_is_read(method, path, version, tail);
}

/// A `GET` or `POST` for a path that no route matches is answered `404`
/// with the body `Not Found`.
pub proof fn unknown_path_is_not_found(request: RequestView)
    requires
        request.method == MethodType::GET || request.method == MethodType::POST,
        !starts_with(request.path, files_prefix()),
        request.method == MethodType::GET ==> {
            &&& request.path != ascii("/"@)
            &&& request.path != ascii("/index.html"@)
            &&& request.path != ascii("/user-agent"@)
            &&& !starts_with(request.path, echo_prefix())
        },
    ensures
        route(request) == DispatchView::Reply(ResponseView::not_found()),
        ResponseView::not_found().status_code == 404,
        ResponseView::not_found().body == ascii("Not Found"@),
{
}

/// The bytes of the file `name` in `store`, if the store holds that file.
/// A store, as a mathematical object, is a map from the names of its files
/// to their bytes.
pub open spec fn lookup(store: Map<Seq<u8>, Seq<u8>>, name: Seq<u8>) -> Option<Seq<u8>> {
    if store.dom().contains(name) {
        Some(store[name])
    } else {
        None
    }
}

/// The response to `request` when the store is `store` and works: a file
/// that it holds is read, and every write succeeds.
pub open spec fn answer(store: Map<Seq<u8>, Seq<u8>>, request: RequestView) -> ResponseView {
    match route(request) {
        DispatchView::Reply(response) => response,
        DispatchView::ReadFile { name } => read_reply(request, lookup(store, name)),
        DispatchView::WriteFile { name, contents } => write_reply(request, true),
    }
}

/// The store after `request` has been answered from `store`.
pub open spec fn store_after(store: Map<Seq<u8>, Seq<u8>>, request: RequestView) -> Map<
    Seq<u8>,
    Seq<u8>,
> {
    match route(request) {
        DispatchView::WriteFile { name, contents } => store.insert(name, contents),
        _ => store,
    }
}

/// A path under `/files/` is a file route and no other: the request
/// asks for the place that the name resolves to, and is answered `404`
/// where the name climbs out of the base directory.
pub proof fn file_route_goes_by_the_resolved_name(request: RequestView, name: Seq<u8>)
    requires
        request.method == MethodType::GET || request.method == MethodType::POST,
        request.path == files_prefix() + name,
    ensures
        route(request) == match resolved(name) {
            Some(place) => if request.method == MethodType::GET {
                DispatchView::ReadFile { name: place }
            } else {
                DispatchView::WriteFile { name: place, contents: request.body }
            },
            None => DispatchView::Reply(ResponseView::not_found()),
        },
{
    reveal_strlit("/echo/");
    reveal_strlit("/");
    reveal_strlit("/index.html");
    reveal_strlit("/user-agent");
    reveal_strlit("/files/");
    let path = request.path;
    assert(path[1] == 0x66u8);
    assert(ascii("/index.html"@)[1] == 0x69u8);
    assert(ascii("/user-agent"@)[1] == 0x75u8);
    if starts_with(path, echo_prefix()) {
        assert(path.take(6)[1] == 0x66u8);
        assert(echo_prefix()[1] == 0x65u8);
    }
    assert(path.take(files_prefix().len() as int) =~= files_prefix());
    assert(path.skip(files_prefix().len() as int) =~= name);
}

/// Round trip: after a `POST` to `/files/<name>` with the body `B`, which
/// is answered `201`, a `GET` of the same path is answered `200` with the
/// body `B`, byte for byte. This holds for every name that stays inside
/// the base directory.
pub proof fn stored_file_is_served_back(
    store: Map<Seq<u8>, Seq<u8>>,
    name: Seq<u8>,
    post: RequestView,
    get: RequestView,
)
    requires
        resolved(name) is Some,
        post.method == MethodType::POST,
        post.path == files_prefix() + name,
        get.method == MethodType::GET,
        get.path == post.path,
    ensures
        answer(store, post).status_code == 201,
        answer(store_after(store, post), get) == ResponseView::ok(
            ContentType::OctetStream,
            post.body,
            get.accept_encoding,
        ),
        get.accept_encoding is None ==> answer(store_after(store, post), get).sent() == status_line(
            200,
            ascii("OK"@),
        ) + content_type_line(ContentType::OctetStream) + content_length_line(post.body.len())
            + crlf() + post.body,
{
    file_route_goes_by_the_resolved_name(post, name);
    file_route_goes_by_the_resolved_name(get, name);
    if get.accept_encoding is None {
        plain_response_on_the_wire(answer(store_after(store, post), get));
    }
}

/// A `GET` of a file that the store does not hold is answered `404`.
pub proof fn missing_file_is_not_found(
    store: Map<Seq<u8>, Seq<u8>>,
    name: Seq<u8>,
    get: RequestView,
)
    requires
        get.method == MethodType::GET,
        get.path == files_prefix() + name,
        resolved(name) matches Some(place) ==> !store.dom().contains(place),
    ensures
        answer(store, get) == ResponseView::not_found(),
        ResponseView::not_found().status_code == 404,
{
    file_route_goes_by_the_resolved_name(get, name);
}

/// A name that climbs out of the base directory never reaches the store:
/// a `GET` or `POST` for it is answered `404` at once.
pub proof fn climbing_name_is_refused(request: RequestView, name: Seq<u8>)
    requires
        request.method == MethodType::GET || request.method == MethodType::POST,
        request.path == files_prefix() + name,
        resolved(name) is None,
    ensures
        route(request) == DispatchView::Reply(ResponseView::not_found()),
{
    file_route_goes_by_the_resolved_name(request, name);
}

/// What a name resolves to stays inside the base directory: it is the
/// empty path, which is the base directory itself, or a path whose
/// slash-separated segments are all names, none of them empty, `.` or `..`.
pub proof fn resolved_name_stays_inside(name: Seq<u8>)
    ensures
        resolved(name) matches Some(place) ==> place.len() == 0 || forall|i: int|
            0 <= i < split(place, slash()).len() ==> plain_segment(
                #[trigger] split(place, slash())[i],
            ),
{
    let segments = split(name, slash());
    lemma_split_pieces(name, slash());
    lemma_walk_keeps_names(Seq::empty(), segments);
    match walk(Seq::empty(), segments) {
        Some(kept) => {
            if kept.len() > 0 {
                lemma_split_join(kept, slash());
            }
        },
        None => {},
    }
}

/// A name that never goes up is never refused: where no segment of a name
/// is `..`, the name resolves to a place below the base directory.
pub proof fn name_that_never_goes_up_is_accepted(name: Seq<u8>)
    requires
        forall|i: int|
            0 <= i < split(name, slash()).len() ==> #[trigger] split(name, slash())[i] != ascii(
                ".."@,
            ),
    ensures
        resolved(name) is Some,
{
    walk_without_going_up(Seq::empty(), split(name, slash()));
}

/// Following segments of which none is `..` leaves no place.
proof fn walk_without_going_up(kept: Seq<Seq<u8>>, segments: Seq<Seq<u8>>)
    requires
        forall|i: int| 0 <= i < segments.len() ==> #[trigger] segments[i] != ascii(".."@),
    ensures
        walk(kept, segments) is Some,
    decreases segments.len(),
{
    if segments.len() > 0 {
        let rest = segments.skip(1);
        assert(segments[0] != ascii(".."@));
        assert forall|i: int| 0 <= i < rest.len() implies #[trigger] rest[i] != ascii(".."@) by {
            assert(rest[i] == segments[i + 1]);
        }
        walk_without_going_up(follow(kept, segments[0])->0, rest);
    }
}

/// Negotiation takes the first entry that names a known encoding: the
/// result is `None` exactly when no entry does, and otherwise it is what
/// the first such entry names.
pub proof fn negotiation_takes_first_known(entries: Seq<Seq<u8>>)
    ensures
        negotiate(entries) is None <==> forall|i: int|
            0 <= i < entries.len() ==> recognize(trim(#[trigger] entries[i])) is None,
        negotiate(entries) matches Some(e) ==> exists|i: int|
            0 <= i < entries.len() && recognize(trim(#[trigger] entries[i])) == Some(e) && forall|
                j: int,
            |
                0 <= j < i ==> recognize(trim(#[trigger] entries[j])) is None,
    decreases entries.len(),
{
    if entries.len() == 0 {
    } else {
        let rest = entries.skip(1);
        negotiation_takes_first_known(rest);
        match recognize(trim(entries[0])) {
            Some(e) => {},
            None => {
                assert forall|i: int| 0 <= i < rest.len() implies rest[i] == entries[i + 1] by {}
                if negotiate(rest) is None {
                    assert forall|i: int| 0 <= i < entries.len() implies recognize(
                        trim(#[trigger] entries[i]),
                    ) is None by {
                        if i > 0 {
                            assert(entries[i] == rest[i - 1]);
                        }
                    }
                } else {
                    let e = negotiate(rest)->0;
                    let k = choose|i: int|
                        0 <= i < rest.len() && recognize(trim(#[trigger] rest[i])) == Some(e)
                            && forall|j: int|
                            0 <= j < i ==> recognize(trim(#[trigger] rest[j])) is None;
                    assert forall|j: int| 0 <= j < k + 1 implies recognize(
                        trim(#[trigger] entries[j]),
                    ) is None by {
                        if j > 0 {
                            assert(entries[j] == rest[j - 1]);
                        }
                    }
                }
            },
        }
    }
}

/// Without an offer there is no encoding: when no header line offers an
/// encoding that is recognized, be it that no `Accept-Encoding` line is
/// there or that each names unknown encodings only, the request carries
/// none.
pub proof fn no_offer_no_encoding(ls: Seq<Seq<u8>>)
    requires
        forall|i: int|
            0 <= i < ls.len() && same_ignoring_case(
                header_name(#[trigger] ls[i]),
                ascii("accept-encoding"@),
            ) ==> negotiated(header_value(ls[i])) is None,
    ensures
        Headers::of_lines(ls).accept_encoding is None,
    decreases ls.len(),
{
    if ls.len() > 0 {
        let before = ls.drop_last();
        assert forall|i: int|
            0 <= i < before.len() && same_ignoring_case(
                header_name(#[trigger] before[i]),
                ascii("accept-encoding"@),
            ) implies negotiated(header_value(before[i])) is None by {}
        no_offer_no_encoding(before);
    }
}

/// A response carries the encoding that its request negotiated, or none.
pub proof fn responses_carry_the_negotiated_encoding(
    request: RequestView,
    contents: Option<Seq<u8>>,
    stored: bool,
)
    ensures
        route(request) matches DispatchView::Reply(response) ==> response.accept_encoding is None
            || response.accept_encoding == request.accept_encoding,
        read_reply(request, contents).accept_encoding is None || read_reply(
            request,
            contents,
        ).accept_encoding == request.accept_encoding,
        write_reply(request, stored).accept_encoding is None || write_reply(
            request,
            stored,
        ).accept_encoding == request.accept_encoding,
{
}

/// A response that carries no encoding goes out with its body as it is,
/// with no `Content-Encoding` header, and with the length of that body in
/// the `Content-length` header.
pub proof fn plain_response_on_the_wire(response: ResponseView)
    requires
        response.accept_encoding is None,
    ensures
        response.sent() == status_line(response.status_code, response.status_message)
            + content_type_line(response.content_type) + content_length_line(response.body.len())
            + crlf() + response.body,
{
}

/// A response that carries an encoding goes out, where the encoder makes
/// `z` of its body, with `z` as its body, with the `Content-Encoding`
/// header that names the encoding, and with the length of `z` in the
/// `Content-length` header. Status line and content type are its own.
pub proof fn encoded_response_on_the_wire(response: ResponseView, e: Encoding, z: Seq<u8>)
    requires
        response.accept_encoding == Some(e),
        e.encoded(response.body) == Some(z),
    ensures
        response.sent() == status_line(response.status_code, response.status_message)
            + content_type_line(response.content_type) + content_length_line(z.len()) + (ascii(
            "Content-Encoding: "@,
        ) + ascii(e.token()) + crlf()) + crlf() + z,
{
}

/// Where the encoder fails on the body of a response that carries an
/// encoding, the encoding-error response goes out instead, not encoded.
pub proof fn failed_encoding_on_the_wire(response: ResponseView, e: Encoding)
    requires
        response.accept_encoding == Some(e),
        e.encoded(response.body) is None,
    ensures
        response.after_encoding() == ResponseView::encoding_error(),
        response.sent() == ResponseView::encoding_error().wire_bytes(),
        ResponseView::encoding_error().status_code == 500,
        ResponseView::encoding_error().accept_encoding is None,
{
}

/// Applying the encoding changes nothing but the body, unless the encoder
/// fails on the body; and without an encoding it changes nothing at all.
pub proof fn encoding_changes_the_body_only(response: ResponseView)
    requires
        response.accept_encoding matches Some(e) ==> e.encoded(response.body) is Some,
    ensures
        response.after_encoding().status_code == response.status_code,
        response.after_encoding().status_message == response.status_message,
        response.after_encoding().content_type == response.content_type,
        response.after_encoding().accept_encoding == response.accept_encoding,
        response.accept_encoding is None ==> response.after_encoding() == response,
        response.accept_encoding matches Some(e) ==> Some(response.after_encoding().body)
            == e.encoded(response.body),
{
}

/// The lines of the header block of `response`, without their line endings.
pub open spec fn header_lines(response: ResponseView) -> Seq<Seq<u8>> {
    let fixed = seq![
        ascii("HTTP/1.1 "@) + decimal(response.status_code as nat) + ascii(" "@)
            + response.status_message,
        ascii("Content-Type: "@) + ascii(response.content_type.mime()),
        ascii("Content-length: "@) + decimal(response.body.len()),
    ];
    match response.accept_encoding {
        Some(e) => fixed.push(ascii("Content-Encoding: "@) + ascii(e.token())),
        None => fixed,
    }
}

/// Framing: read line by line, a response on the wire is its header
/// lines, then exactly one empty line, then the lines of its body. No
/// header line is empty and none holds a carriage return or a line feed,
/// so the first empty line is the one that ends the header block.
pub proof fn header_block_ends_at_first_blank_line(response: ResponseView)
    requires
        response.well_formed(),
    ensures
        lines(response.wire_bytes()) == header_lines(response) + seq![Seq::<u8>::empty()] + lines(
            response.body,
        ),
        forall|i: int|
            0 <= i < header_lines(response).len() ==> (#[trigger] header_lines(response)[i]).len()
                > 0 && no_line_break(header_lines(response)[i]),
{
    reveal_strlit("HTTP/1.1 ");
    reveal_strlit(" ");
    reveal_strlit("Content-Type: ");
    reveal_strlit("Content-length: ");
    reveal_strlit("Content-Encoding: ");
    reveal_strlit("text/plain");
    reveal_strlit("text/html");
    reveal_strlit("application/json");
    reveal_strlit("application/octet-stream");
    reveal_strlit("gzip");
    lemma_decimal_digits(response.status_code as nat);
    lemma_decimal_digits(response.body.len());
    let code = decimal(response.status_code as nat);
    let length = decimal(response.body.len());
    let l1 = ascii("HTTP/1.1 "@) + code + ascii(" "@) + response.status_message;
    let l2 = ascii("Content-Type: "@) + ascii(response.content_type.mime());
    let l3 = ascii("Content-length: "@) + length;
    let nothing = Seq::<u8>::empty();
    let body = response.body;

    assert(no_line_break(l1)) by {
        assert forall|i: int| 0 <= i < l1.len() implies #[trigger] l1[i] != cr() && l1[i]
            != lf() by {
            if i < 9 {
            } else if i < 9 + code.len() {
                assert(l1[i] == code[i - 9]);
            } else if i == 9 + code.len() {
            } else {
                assert(l1[i] == response.status_message[i - 10 - code.len()]);
            }
        }
    }
    assert(no_line_break(l2));
    assert(no_line_break(l3)) by {
        assert forall|i: int| 0 <= i < l3.len() implies #[trigger] l3[i] != cr() && l3[i]
            != lf() by {
            if i >= 16 {
                assert(l3[i] == length[i - 16]);
            }
        }
    }

    lemma_lines_first(nothing, body);
    assert(nothing + seq![cr(), lf()] + body =~= crlf() + body);
    match response.accept_encoding {
        Some(e) => {
            let l4 = ascii("Content-Encoding: "@) + ascii(e.token());
            assert(no_line_break(l4));
            let t3 = l4 + crlf() + (crlf() + body);
            let t2 = l3 + crlf() + t3;
            let t1 = l2 + crlf() + t2;
            lemma_lines_first(l4, crlf() + body);
            lemma_lines_first(l3, t3);
            lemma_lines_first(l2, t2);
            lemma_lines_first(l1, t1);
            assert(response.wire_bytes() =~= l1 + seq![cr(), lf()] + t1);
            assert(lines(response.wire_bytes()) =~= header_lines(response) + seq![nothing]
                + lines(body));
        },
        None => {
            let t2 = l3 + crlf() + (crlf() + body);
            let t1 = l2 + crlf() + t2;
            lemma_lines_first(l3, crlf() + body);
            lemma_lines_first(l2, t2);
            lemma_lines_first(l1, t1);
            assert(response.wire_bytes() =~= l1 + seq![cr(), lf()] + t1);
            assert(lines(response.wire_bytes()) =~= header_lines(response) + seq![nothing]
                + lines(body));
        },
    }
}

/// Every response that the server makes is well formed.
pub proof fn responses_are_well_formed(
    request: RequestView,
    contents: Option<Seq<u8>>,
    stored: bool,
)
    ensures
        route(request) matches DispatchView::Reply(response) ==> response.well_formed(),
        read_reply(request, contents).well_formed(),
        write_reply(request, stored).well_formed(),
        ResponseView::bad_request().well_formed(),
        ResponseView::encoding_error().well_formed(),
{
    reveal_strlit("OK");
    reveal_strlit("Created");
    reveal_strlit("Bad Request");
    reveal_strlit("Not Found");
    reveal_strlit("Method Not Allowed");
    reveal_strlit("Creation Error");
    reveal_strlit("Internal Server Error");
}

/// Encoding keeps a response well formed, whatever the encoder hands back.
pub proof fn encoding_keeps_well_formed(response: ResponseView, compressed: Option<Seq<u8>>)
    requires
        response.well_formed(),
    ensures
        response.encode(compressed).well_formed(),
{
    reveal_strlit("Internal Server Error");
}

/// A connection is strictly linear. It reads only while its request is
/// not all there, and each read adds to what was read before. A file
/// access is asked for only at the end of reading, and its outcome closes
/// the connection. Every step that does not read or ask for a file closes
/// the connection, with a response or without one, and a closed connection
/// stays closed and sends nothing.
pub proof fn connection_is_linear(state: Connection, event: Event, next: Connection, action: Action)
    requires
        follows(state, event, next, action),
    ensures
        (action is Read || action is ReadFile || action is WriteFile) ==> state is Reading,
        action is Read <==> next is Reading,
        action is Read ==> next->Reading_0@.len() > state->Reading_0@.len(),
        action is ReadFile <==> next is ReadingFile,
        action is WriteFile <==> next is WritingFile,
        (action is Send || action is Close) <==> next == Connection::Closed,
        (state is ReadingFile || state is WritingFile || state == Connection::Closed) ==> next
            == Connection::Closed,
        state == Connection::Closed ==> action is Close,
{
}

/// A request whose header block is there is answered without another
/// read, and so is whatever was read when the client has stopped sending.
pub proof fn complete_request_is_dispatched(buffer: Vec<u8>, bytes: Vec<u8>)
    requires
        header_complete(buffer@ + bytes@) || bytes@.len() == 0,
    ensures
        outcome(Connection::Reading(buffer), Event::Received(bytes)) == dispatch(
            buffer@ + bytes@,
        ),
        !(dispatch(buffer@ + bytes@) is More),
{
}

} // verus!
