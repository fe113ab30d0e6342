use http_server::connection::{Action, Connection, Event};
use http_server::response::Response;
use std::collections::HashMap;
use std::io::Read;

fn gunzip(bytes: &[u8]) -> Vec<u8> {
    let mut out = Vec::new();
    flate2::read::GzDecoder::new(bytes).read_to_end(&mut out).unwrap();
    out
}

fn split_wire(bytes: &[u8]) -> (String, Vec<u8>) {
    let end = bytes.windows(4).position(|w| w == b"\r\n\r\n").unwrap() + 4;
    (String::from_utf8(bytes[..end].to_vec()).unwrap(), bytes[end..].to_vec())
}

/// Runs one connection to its end against a store held in memory.
fn serve(store: &mut HashMap<Vec<u8>, Vec<u8>>, input: &[u8]) -> Vec<u8> {
    let (mut state, mut action) = Connection::new().step(Event::Received(input.to_vec()));
    loop {
        let event = match action {
            Action::Send(bytes) => {
                assert!(state.is_closed());
                return bytes;
            }
            Action::Close => panic!("the connection was dropped"),
            Action::Read => Event::Received(Vec::new()),
            Action::ReadFile { name } => Event::FileRead(store.get(&name).cloned()),
            Action::WriteFile { name, contents } => {
                store.insert(name, contents);
                Event::FileWritten(true)
            }
        };
        let next = state.step(event);
        state = next.0;
        action = next.1;
    }
}

fn text(bytes: Vec<u8>) -> String {
    String::from_utf8(bytes).unwrap()
}

#[test]
fn get_root_is_answered_with_an_empty_html_page() {
    let mut store = HashMap::new();
    for path in ["/", "/index.html"] {
        let wire = serve(&mut store, format!("GET {} HTTP/1.1\r\nHost: x\r\n\r\n", path).as_bytes());
        assert_eq!(
            text(wire),
            "HTTP/1.1 200 OK\r\nContent-Type: text/html\r\nContent-length: 0\r\n\r\n"
        );
    }
}

#[test]
fn get_echo_is_answered_with_the_suffix() {
    let mut store = HashMap::new();
    for s in ["abc", "", "x", "hello-world_0123456789", "a/b/c", "%41"] {
        let wire = serve(&mut store, format!("GET /echo/{} HTTP/1.1\r\n\r\n", s).as_bytes());
        assert_eq!(
            text(wire),
            format!(
                "HTTP/1.1 200 OK\r\nContent-Type: text/plain\r\nContent-length: {}\r\n\r\n{}",
                s.len(),
                s
            )
        );
    }
}

#[test]
fn get_user_agent_is_answered_with_the_header_value() {
    let mut store = HashMap::new();
    let wire = serve(&mut store, b"GET /user-agent HTTP/1.1\r\nHost: x\r\nUser-Agent: foo/1.0\r\n\r\n");
    assert_eq!(
        text(wire),
        "HTTP/1.1 200 OK\r\nContent-Type: text/plain\r\nContent-length: 7\r\n\r\nfoo/1.0"
    );
}

#[test]
fn a_posted_file_is_served_back() {
    let mut store = HashMap::new();
    let body = "first line\nsecond line  ";
    let wire = serve(
        &mut store,
        format!("POST /files/note.txt HTTP/1.1\r\nHost: x\r\n\r\n{}", body).as_bytes(),
    );
    assert_eq!(
        text(wire),
        "HTTP/1.1 201 Created\r\nContent-Type: text/plain\r\nContent-length: 0\r\n\r\n"
    );
    assert_eq!(store.get(&b"note.txt".to_vec()), Some(&body.as_bytes().to_vec()));

    let wire = serve(&mut store, b"GET /files/note.txt HTTP/1.1\r\nHost: x\r\n\r\n");
    assert_eq!(
        text(wire),
        format!(
            "HTTP/1.1 200 OK\r\nContent-Type: application/octet-stream\r\nContent-length: {}\r\n\r\n{}",
            body.len(),
            body
        )
    );
}

#[test]
fn a_second_post_replaces_the_file() {
    let mut store = HashMap::new();
    serve(&mut store, b"POST /files/a HTTP/1.1\r\n\r\nlong first contents");
    serve(&mut store, b"POST /files/a HTTP/1.1\r\n\r\nshort");
    let (_, body) = split_wire(&serve(&mut store, b"GET /files/a HTTP/1.1\r\n\r\n"));
    assert_eq!(body, b"short".to_vec());
}

#[test]
fn a_file_that_was_never_written_is_not_found() {
    let mut store = HashMap::new();
    let wire = serve(&mut store, b"GET /files/missing.txt HTTP/1.1\r\n\r\n");
    assert_eq!(
        text(wire),
        "HTTP/1.1 404 Not Found\r\nContent-Type: text/plain\r\nContent-length: 9\r\n\r\nNot Found"
    );
}

#[test]
fn a_failed_write_is_answered_500() {
    let (state, action) =
        Connection::new().step(Event::Received(b"POST /files/a HTTP/1.1\r\n\r\nx".to_vec()));
    assert_eq!(action, Action::WriteFile { name: b"a".to_vec(), contents: b"x".to_vec() });
    assert!(!state.is_closed());
    let (state, action) = state.step(Event::FileWritten(false));
    assert!(state.is_closed());
    assert_eq!(action, Action::Send(Response::creation_error().serialize()));
}

#[test]
fn put_and_delete_are_answered_405() {
    let mut store = HashMap::new();
    for method in ["PUT", "DELETE", "put", "Delete"] {
        for path in ["/", "/echo/x", "/files/note.txt", "/nope"] {
            let wire = serve(&mut store, format!("{} {} HTTP/1.1\r\n\r\nbody", method, path).as_bytes());
            assert_eq!(
                text(wire),
                "HTTP/1.1 405 Method Not Allowed\r\nContent-Type: text/plain\r\nContent-length: 18\r\n\r\nMethod not allowed"
            );
        }
    }
    assert!(store.is_empty());
}

#[test]
fn an_unknown_path_is_answered_404() {
    let mut store = HashMap::new();
    for method in ["GET", "POST"] {
        let wire = serve(&mut store, format!("{} /nope HTTP/1.1\r\n\r\n", method).as_bytes());
        assert_eq!(
            text(wire),
            "HTTP/1.1 404 Not Found\r\nContent-Type: text/plain\r\nContent-length: 9\r\n\r\nNot Found"
        );
    }
}

#[test]
fn a_request_that_cannot_be_parsed_is_answered_400() {
    let mut store = HashMap::new();
    for input in [&b""[..], b"\r\n\r\n", b"GET\r\n\r\n", b"GET /\r\n\r\n", b"BREW /pot HTCPCP/1.0\r\n\r\n"] {
        let wire = serve(&mut store, input);
        assert_eq!(
            text(wire),
            "HTTP/1.1 400 Bad Request\r\nContent-Type: text/plain\r\nContent-length: 11\r\n\r\nBad Request"
        );
    }
}

#[test]
fn gzip_is_applied_when_the_client_accepts_it() {
    let mut store = HashMap::new();
    let s = "abcabcabcabcabcabcabcabcabcabcabcabcabcabcabcabcabcabcabcabcabcabcabcabcabcabc";
    let plain = serve(&mut store, format!("GET /echo/{} HTTP/1.1\r\n\r\n", s).as_bytes());
    let (_, plain_body) = split_wire(&plain);

    let wire = serve(
        &mut store,
        format!("GET /echo/{} HTTP/1.1\r\nAccept-Encoding: identity, gzip\r\n\r\n", s).as_bytes(),
    );
    let (head, body) = split_wire(&wire);
    assert_eq!(
        head,
        format!(
            "HTTP/1.1 200 OK\r\nContent-Type: text/plain\r\nContent-length: {}\r\nContent-Encoding: gzip\r\n\r\n",
            body.len()
        )
    );
    assert_ne!(body.len(), s.len());
    assert_eq!(gunzip(&body), plain_body);
    assert_eq!(gunzip(&body), s.as_bytes().to_vec());
}

#[test]
fn gzip_is_applied_to_a_served_file() {
    let mut store = HashMap::new();
    let contents: Vec<u8> = (0..3000u32).map(|i| (i % 7) as u8).collect();
    store.insert(b"data.bin".to_vec(), contents.clone());
    let wire = serve(&mut store, b"GET /files/data.bin HTTP/1.1\r\nAccept-Encoding: gzip\r\n\r\n");
    let (head, body) = split_wire(&wire);
    assert!(head.contains("\r\nContent-Type: application/octet-stream\r\n"));
    assert!(head.contains("\r\nContent-Encoding: gzip\r\n"));
    assert!(head.contains(&format!("\r\nContent-length: {}\r\n", body.len())));
    assert_eq!(gunzip(&body), contents);
}

#[test]
fn no_encoding_is_applied_without_a_supported_offer() {
    let mut store = HashMap::new();
    for offer in ["", "Accept-Encoding: br\r\n", "Accept-Encoding: identity, deflate, zstd\r\n", "Accept-Encoding: \r\n"]
    {
        let wire = serve(&mut store, format!("GET /echo/plain HTTP/1.1\r\n{}\r\n", offer).as_bytes());
        assert_eq!(
            text(wire),
            "HTTP/1.1 200 OK\r\nContent-Type: text/plain\r\nContent-length: 5\r\n\r\nplain"
        );
    }
}

#[test]
fn error_responses_are_not_encoded() {
    let mut store = HashMap::new();
    for request in [
        "GET /nope HTTP/1.1\r\nAccept-Encoding: gzip\r\n\r\n",
        "GET /files/missing HTTP/1.1\r\nAccept-Encoding: gzip\r\n\r\n",
        "PUT / HTTP/1.1\r\nAccept-Encoding: gzip\r\n\r\n",
    ] {
        let (head, body) = split_wire(&serve(&mut store, request.as_bytes()));
        assert!(!head.contains("Content-Encoding"));
        assert!(body == b"Not Found".to_vec() || body == b"Method not allowed".to_vec());
    }
}

#[test]
fn a_climbing_file_name_is_answered_404_without_an_access() {
    let (state, action) =
        Connection::new().step(Event::Received(b"GET /files/../secret HTTP/1.1\r\n\r\n".to_vec()));
    assert!(state.is_closed());
    assert_eq!(action, Action::Send(Response::not_found().serialize()));
    let (state, action) = Connection::new()
        .step(Event::Received(b"POST /files/../../etc/passwd HTTP/1.1\r\n\r\nroot".to_vec()));
    assert!(state.is_closed());
    assert_eq!(action, Action::Send(Response::not_found().serialize()));
}

#[test]
fn a_name_with_parent_segments_inside_the_base_directory_is_served() {
    let mut store = HashMap::new();
    serve(&mut store, b"POST /files/a/../note.txt HTTP/1.1\r\n\r\nkept");
    assert_eq!(store.get(&b"note.txt".to_vec()), Some(&b"kept".to_vec()));
    let (_, body) = split_wire(&serve(&mut store, b"GET /files/./x/y/../../note.txt HTTP/1.1\r\n\r\n"));
    assert_eq!(body, b"kept".to_vec());
}

#[test]
fn an_access_that_the_store_refuses_is_answered_404() {
    let (state, action) =
        Connection::new().step(Event::Received(b"GET /files/link/x HTTP/1.1\r\n\r\n".to_vec()));
    assert_eq!(action, Action::ReadFile { name: b"link/x".to_vec() });
    let (state, action) = state.step(Event::FileRefused);
    assert!(state.is_closed());
    assert_eq!(action, Action::Send(Response::not_found().serialize()));

    let (state, action) =
        Connection::new().step(Event::Received(b"POST /files/link/x HTTP/1.1\r\n\r\nbody".to_vec()));
    assert_eq!(action, Action::WriteFile { name: b"link/x".to_vec(), contents: b"body".to_vec() });
    let (state, action) = state.step(Event::FileRefused);
    assert!(state.is_closed());
    assert_eq!(action, Action::Send(Response::not_found().serialize()));

    let (state, action) = Connection::new().step(Event::FileRefused);
    assert_eq!((state, action), (Connection::Closed, Action::Close));
}

#[test]
fn a_write_to_the_base_directory_itself_is_answered_500() {
    let (state, action) =
        Connection::new().step(Event::Received(b"POST /files/ HTTP/1.1\r\n\r\nbody".to_vec()));
    assert_eq!(action, Action::WriteFile { name: Vec::new(), contents: b"body".to_vec() });
    let (_, action) = state.step(Event::FileWritten(false));
    assert_eq!(action, Action::Send(Response::creation_error().serialize()));
}

#[test]
fn a_request_is_read_until_its_header_block_is_there() {
    let (state, action) = Connection::new().step(Event::Received(b"GET /echo/ab".to_vec()));
    assert_eq!(action, Action::Read);
    assert_eq!(state, Connection::Reading(b"GET /echo/ab".to_vec()));
    let (state, action) = state.step(Event::Received(b"c HTTP/1.1\r\nHost: x\r\n".to_vec()));
    assert_eq!(action, Action::Read);
    assert_eq!(state, Connection::Reading(b"GET /echo/abc HTTP/1.1\r\nHost: x\r\n".to_vec()));
    let (state, action) = state.step(Event::Received(b"\r\n".to_vec()));
    assert!(state.is_closed());
    assert_eq!(
        action,
        Action::Send(
            b"HTTP/1.1 200 OK\r\nContent-Type: text/plain\r\nContent-length: 3\r\n\r\nabc".to_vec()
        )
    );
}

#[test]
fn what_was_read_is_parsed_when_the_client_stops_sending() {
    let (state, action) = Connection::new().step(Event::Received(b"GET /echo/abc HTTP/1.1\r\n".to_vec()));
    assert_eq!(action, Action::Read);
    let (state, action) = state.step(Event::Received(Vec::new()));
    assert!(state.is_closed());
    assert_eq!(
        action,
        Action::Send(
            b"HTTP/1.1 200 OK\r\nContent-Type: text/plain\r\nContent-length: 3\r\n\r\nabc".to_vec()
        )
    );

    let (state, action) = Connection::new().step(Event::Received(b"GET".to_vec()));
    assert_eq!(action, Action::Read);
    let (state, action) = state.step(Event::Received(Vec::new()));
    assert!(state.is_closed());
    assert_eq!(action, Action::Send(Response::bad_request().serialize()));
}

#[test]
fn a_fresh_connection_has_read_nothing() {
    assert_eq!(Connection::new(), Connection::Reading(Vec::new()));
}

#[test]
fn a_file_access_keeps_the_connection_open_until_it_is_answered() {
    let (state, action) =
        Connection::new().step(Event::Received(b"GET /files/a HTTP/1.1\r\n\r\n".to_vec()));
    assert_eq!(action, Action::ReadFile { name: b"a".to_vec() });
    assert!(matches!(state, Connection::ReadingFile(_)));
    let (state, action) = state.step(Event::FileRead(Some(b"A".to_vec())));
    assert!(state.is_closed());
    assert_eq!(
        action,
        Action::Send(
            b"HTTP/1.1 200 OK\r\nContent-Type: application/octet-stream\r\nContent-length: 1\r\n\r\nA"
                .to_vec()
        )
    );
}

#[test]
fn an_event_out_of_turn_closes_the_connection() {
    let (state, action) = Connection::new().step(Event::FileRead(None));
    assert_eq!((state, action), (Connection::Closed, Action::Close));
    let (state, action) = Connection::new().step(Event::FileWritten(true));
    assert_eq!((state, action), (Connection::Closed, Action::Close));

    let (state, _) = Connection::new().step(Event::Received(b"GET /files/a HTTP/1.1\r\n\r\n".to_vec()));
    let (state, action) = state.step(Event::FileWritten(true));
    assert_eq!((state, action), (Connection::Closed, Action::Close));

    let (state, _) = Connection::new().step(Event::Received(b"POST /files/a HTTP/1.1\r\n\r\n".to_vec()));
    let (state, action) = state.step(Event::Received(b"GET / HTTP/1.1\r\n\r\n".to_vec()));
    assert_eq!((state, action), (Connection::Closed, Action::Close));
}

#[test]
fn a_closed_connection_stays_closed() {
    let (state, action) = Connection::new().step(Event::Received(b"GET / HTTP/1.1\r\n\r\n".to_vec()));
    assert!(matches!(action, Action::Send(_)));
    assert!(state.is_closed());
    let (state, action) = state.step(Event::Received(b"GET / HTTP/1.1\r\n\r\n".to_vec()));
    assert_eq!((state, action), (Connection::Closed, Action::Close));
    assert!(!Connection::new().is_closed());
}
