//! Content encodings: negotiation from an `Accept-Encoding` header value,
//! and compression of a body with the negotiated scheme.

use crate::text::{
    ascii, contents, equals_ascii_ignoring_case, optional, same_ignoring_case, split, split_on,
    trim, trim_bytes,
};
use std::io::Write;
use vstd::prelude::*;
use vstd::string::*;

verus! {

/// A content encoding that the server can apply to a response body.
#[derive(Copy, Clone, Debug, PartialEq, Eq, Structural)]
pub enum Encoding {
    Gzip,
}

/// The comma that separates the entries of an `Accept-Encoding` list.
pub open spec fn comma() -> u8 {
    0x2c
}

/// The encoding that the token `token` names, in any mixture of cases.
pub open spec fn recognize(token: Seq<u8>) -> Option<Encoding> {
    if same_ignoring_case(token, ascii(Encoding::Gzip.token())) {
        Some(Encoding::Gzip)
    } else {
        None
    }
}

/// The first entry of `entries` that, trimmed, names a known encoding.
pub open spec fn negotiate(entries: Seq<Seq<u8>>) -> Option<Encoding>
    decreases entries.len(),
{
    if entries.len() == 0 {
        None
    } else {
        match recognize(trim(entries[0])) {
            Some(e) => Some(e),
            None => negotiate(entries.skip(1)),
        }
    }
}

/// The encoding negotiated from the header value `value`: its
/// comma-separated entries are scanned from left to right, and the first
/// one that is recognized wins.
pub open spec fn negotiated(value: Seq<u8>) -> Option<Encoding> {
    negotiate(split(value, comma()))
}

/// What the gzip encoder of `flate2` makes of `data` at its default
/// compression level, with the header it writes by default: the gzip
/// stream, or `None` where the encoder reports an error.
pub uninterp spec fn gzip_of(data: Seq<u8>) -> Option<Seq<u8>>;

/// Compresses `data` with `flate2::write::GzEncoder` over a `Vec<u8>`, made
/// by `GzEncoder::new` with `Compression::default()`, fed by `write_all` and
/// closed by `finish`. The encoder reports failure through `io::Result`;
/// `None` stands for an error from either call.
///
/// The contract claims that the outcome, stream or failure, is what the
/// encoder makes of these bytes and depends on nothing else: the default
/// header holds no time stamp, no name and a fixed operating-system byte,
/// the level is fixed, and a `Vec<u8>` takes every write. It does not claim
/// that the encoder succeeds.
#[verifier::external_body]
fn gzip(data: &[u8]) -> (out: Option<Vec<u8>>)
    ensures
        optional(out) == gzip_of(data@),
{
    let mut encoder = flate2::write::GzEncoder::new(Vec::new(), flate2::Compression::default());
    if encoder.write_all(data).is_err() {
        return None;
    }
    encoder.finish().ok()
}

impl Encoding {
    /// The token that names this encoding in `Accept-Encoding` and
    /// `Content-Encoding` headers.
    pub open spec fn token(self) -> Seq<char> {
        match self {
            Encoding::Gzip => "gzip"@,
        }
    }

    /// The token that names this encoding in headers.
    pub fn name(&self) -> (r: &'static str)
        ensures
            r@ == self.token(),
            is_ascii(r),
    {
        proof {
            reveal_strlit("gzip");
        }
        match self {
            Encoding::Gzip => "gzip",
        }
    }

    /// Negotiates an encoding from the value of an `Accept-Encoding`
    /// header: the first entry of the comma-separated list that names a
    /// known encoding, or `None` when no entry does.
    pub fn parse(s: &[u8]) -> (r: Option<Encoding>)
        ensures
            r == negotiated(s@),
    {
        let parts = split_on(s, 0x2c);
        let ghost all = contents(parts@);
        let mut i: usize = 0;
        assert(all.skip(0) =~= all);
        while i < parts.len()
            invariant
                i <= parts@.len(),
                all == contents(parts@),
                all == split(s@, comma()),
                negotiate(all) == negotiate(all.skip(i as int)),
            decreases parts@.len() - i,
        {
            let entry = trim_bytes(parts[i].as_slice());
            let found = Encoding::parse_single(entry);
            assert(all.skip(i as int).skip(1) =~= all.skip(i + 1));
            if found.is_some() {
                return found;
            }
            i += 1;
        }
        None
    }

    /// The encoding that `s` names, compared without regard to case and
    /// without trimming.
    pub fn parse_single(s: &[u8]) -> (r: Option<Encoding>)
        ensures
            r == recognize(s@),
    {
        proof {
            reveal_strlit("gzip");
        }
        if equals_ascii_ignoring_case(s, "gzip") {
            Some(Encoding::Gzip)
        } else {
            None
        }
    }

    /// Compresses `data` with this encoding: the encoder's stream for
    /// `data`, or `None` where the encoder fails on it.
    pub fn compress(&self, data: &[u8]) -> (out: Option<Vec<u8>>)
        ensures
            optional(out) == self.encoded(data@),
    {
        match self {
            Encoding::Gzip => gzip(data),
        }
    }

    /// What compressing `data` with this encoding yields: the compressed
    /// bytes, or `None` where the encoder fails on `data`.
    pub open spec fn encoded(self, data: Seq<u8>) -> Option<Seq<u8>> {
        match self {
            Encoding::Gzip => gzip_of(data),
        }
    }
}

} // verus!
