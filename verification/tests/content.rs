use flate2::write::GzEncoder;
use flate2::Compression;
use slpk_unpack::content::{decompress, indent_json, render, settle, Treatment};
use slpk_unpack::error::UnpackError;
use std::io::Write;

fn gzip(data: &[u8]) -> Vec<u8> {
    let mut encoder = GzEncoder::new(Vec::new(), Compression::default());
    encoder.write_all(data).unwrap();
    encoder.finish().unwrap()
}

#[test]
fn copy_keeps_the_bytes() {
    assert_eq!(render(Treatment::Copy, b"plain text".to_vec()), Ok(b"plain text".to_vec()));
    assert_eq!(render(Treatment::Copy, Vec::new()), Ok(Vec::new()));
    let zipped = gzip(b"stays zipped");
    assert_eq!(render(Treatment::Copy, zipped.clone()), Ok(zipped));
}

#[test]
fn decompress_restores_the_bytes() {
    let payload: Vec<u8> = (0..=255u8).cycle().take(5000).collect();
    let zipped = gzip(&payload);
    assert_ne!(zipped, payload);
    assert_eq!(decompress(&zipped), Ok(payload.clone()));
    assert_eq!(render(Treatment::Decompress, zipped), Ok(payload));
}

#[test]
fn decompress_of_nothing_zipped() {
    assert_eq!(decompress(&gzip(b"")), Ok(Vec::new()));
}

#[test]
fn decompress_refuses_what_is_not_gzip() {
    assert_eq!(decompress(b"not gzip at all"), Err(UnpackError::Decompression));
    assert_eq!(decompress(b""), Err(UnpackError::Decompression));
    assert_eq!(render(Treatment::Decompress, b"{}".to_vec()), Err(UnpackError::Decompression));
    assert_eq!(render(Treatment::DecompressJson, b"{}".to_vec()), Err(UnpackError::Decompression));
}

#[test]
fn decompress_refuses_a_cut_member() {
    let zipped = gzip(b"some content that is long enough to matter");
    assert_eq!(decompress(&zipped[..zipped.len() - 5]), Err(UnpackError::Decompression));
}

#[test]
fn decompress_refuses_a_wrong_checksum() {
    let mut zipped = gzip(b"some content");
    let at = zipped.len() - 8;
    zipped[at] ^= 0xff;
    assert_eq!(decompress(&zipped), Err(UnpackError::Decompression));
}

#[test]
fn indent_json_object() {
    assert_eq!(indent_json(b"{\"a\":0}"), Ok(b"{\n  \"a\": 0\n}\n".to_vec()));
}

#[test]
fn indent_json_nested() {
    let text = b"[{\"a\": 0}, {}, {\"a\": null}]";
    let expected = "[\n  {\n    \"a\": 0\n  },\n  {},\n  {\n    \"a\": null\n  }\n]\n";
    assert_eq!(indent_json(text), Ok(expected.as_bytes().to_vec()));
}

#[test]
fn indent_json_keeps_strings() {
    assert_eq!(indent_json(b"  \" a , b \"  "), Ok(b"\" a , b \"\n".to_vec()));
}

#[test]
fn decompress_json_indents_the_content() {
    let payload = b"{\"version\":\"1.6\",\"nodes\":[1,2,3],\"store\":{\"id\":\"x\"}}";
    let expected = "{\n  \"version\": \"1.6\",\n  \"nodes\": [\n    1,\n    2,\n    3\n  ],\n  \"store\": {\n    \"id\": \"x\"\n  }\n}\n";
    let written = render(Treatment::DecompressJson, gzip(payload)).unwrap();
    assert_eq!(written, expected.as_bytes().to_vec());
    let squeezed: Vec<u8> = written.iter().copied().filter(|b| !b.is_ascii_whitespace()).collect();
    assert_eq!(squeezed, payload.to_vec());
}

#[test]
fn indented_json_stays_as_it_is() {
    let once = indent_json(b"{\"a\":[1,{\"b\":2}]}").unwrap();
    assert_eq!(indent_json(&once), Ok(once.clone()));
}

#[test]
fn settle_keeps_success() {
    assert_eq!(settle(Ok(vec![1, 2, 3]), UnpackError::Decompression), Ok(vec![1, 2, 3]));
    assert_eq!(settle(Ok(Vec::new()), UnpackError::Formatting), Ok(Vec::new()));
}

#[test]
fn settle_names_the_failure() {
    let broken = || std::io::Error::new(std::io::ErrorKind::InvalidData, "broken");
    assert_eq!(settle(Err(broken()), UnpackError::Decompression), Err(UnpackError::Decompression));
    assert_eq!(settle(Err(broken()), UnpackError::Formatting), Err(UnpackError::Formatting));
}
