//! A small HTTP/1.1 request server core.
//!
//! The library parses a request from raw bytes, routes it by method and
//! path, and serialises the response, compressing the body when the client
//! accepts gzip. It performs no input or output: the program around it
//! owns the socket and the file store, and drives a [`connection::Connection`]
//! with what it read and with the outcome of each file access.
//!
//! * [`text`]: bytes as text, in definitions and in code.
//! * [`encoding`]: content negotiation and compression.
//! * [`request`]: the request and its parser.
//! * [`response`]: the response and its wire format.
//! * [`router`]: from request to response, or to a file access.
//! * [`connection`]: the protocol of one connection.
//! * [`theorems`]: what holds of all of these together.
//!
//! Everything is verified but one function, which calls the compressor.

pub mod connection;
pub mod encoding;
pub mod request;
pub mod response;
pub mod router;
pub mod text;
pub mod theorems;
