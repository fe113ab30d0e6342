use http_server::encoding::Encoding;
use std::io::Read;

fn gunzip(bytes: &[u8]) -> Vec<u8> {
    let mut out = Vec::new();
    flate2::read::GzDecoder::new(bytes).read_to_end(&mut out).unwrap();
    out
}

#[test]
fn gzip_is_recognized_in_any_case() {
    assert_eq!(Encoding::parse_single(b"gzip"), Some(Encoding::Gzip));
    assert_eq!(Encoding::parse_single(b"GZIP"), Some(Encoding::Gzip));
    assert_eq!(Encoding::parse_single(b"GzIp"), Some(Encoding::Gzip));
}

#[test]
fn a_single_token_is_not_trimmed() {
    assert_eq!(Encoding::parse_single(b" gzip"), None);
    assert_eq!(Encoding::parse_single(b"gzip "), None);
}

#[test]
fn other_tokens_are_not_recognized() {
    assert_eq!(Encoding::parse_single(b""), None);
    assert_eq!(Encoding::parse_single(b"identity"), None);
    assert_eq!(Encoding::parse_single(b"deflate"), None);
    assert_eq!(Encoding::parse_single(b"br"), None);
    assert_eq!(Encoding::parse_single(b"gzipp"), None);
    assert_eq!(Encoding::parse_single(b"gzi"), None);
    assert_eq!(Encoding::parse_single(b"gzip;q=1.0"), None);
}

#[test]
fn negotiation_finds_gzip_after_unknown_entries() {
    assert_eq!(Encoding::parse(b"identity, gzip"), Some(Encoding::Gzip));
    assert_eq!(Encoding::parse(b"br,deflate,  GZIP  ,zstd"), Some(Encoding::Gzip));
    assert_eq!(Encoding::parse(b"gzip"), Some(Encoding::Gzip));
    assert_eq!(Encoding::parse(b"  gzip\t"), Some(Encoding::Gzip));
    assert_eq!(Encoding::parse(b",,gzip,"), Some(Encoding::Gzip));
}

#[test]
fn negotiation_without_a_known_entry_gives_none() {
    assert_eq!(Encoding::parse(b""), None);
    assert_eq!(Encoding::parse(b"identity"), None);
    assert_eq!(Encoding::parse(b"br, deflate, zstd"), None);
    assert_eq!(Encoding::parse(b"g zip"), None);
    assert_eq!(Encoding::parse(b"gzip;q=0.5, x-gzip"), None);
    assert_eq!(Encoding::parse(b" , , "), None);
}

#[test]
fn the_header_token_of_gzip() {
    assert_eq!(Encoding::Gzip.name(), "gzip");
}

#[test]
fn compressed_bytes_are_a_gzip_stream_of_the_input() {
    let data = b"hello hello hello hello hello hello hello hello".to_vec();
    let z = Encoding::Gzip.compress(&data).unwrap();
    assert_ne!(z, data);
    assert_eq!(&z[..3], &[0x1f, 0x8b, 0x08]);
    assert_eq!(gunzip(&z), data);
}

#[test]
fn the_empty_input_is_compressed_to_a_stream_too() {
    let z = Encoding::Gzip.compress(b"").unwrap();
    assert!(z.len() >= 18);
    assert_eq!(gunzip(&z), Vec::<u8>::new());
}

#[test]
fn compression_depends_on_the_input_alone() {
    let data: Vec<u8> = (0..5000u32).map(|i| (i * 31 % 251) as u8).collect();
    let first = Encoding::Gzip.compress(&data).unwrap();
    let second = Encoding::Gzip.compress(&data).unwrap();
    assert_eq!(first, second);
    assert_eq!(gunzip(&first), data);
}
