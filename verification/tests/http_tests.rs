use esp_idf_experiments::http::{
    decimal_string, ntfy_send, post, ChunkOutcome, ResponseBody, NTFY_BASE_URL,
    RESPONSE_CHUNK_LEN,
};

#[test]
fn decimal_string_matches_format() {
    assert_eq!(decimal_string(0), "0");
    assert_eq!(decimal_string(7), "7");
    assert_eq!(decimal_string(10), "10");
    assert_eq!(decimal_string(1234), "1234");
    assert_eq!(decimal_string(usize::MAX), format!("{}", usize::MAX));
    for n in [9usize, 99, 100, 1000, 65535, 1 << 20] {
        assert_eq!(decimal_string(n), format!("{}", n));
    }
}

#[test]
fn post_builds_plain_text_request() {
    let r = post("https://example.com/x", b"hello");
    assert_eq!(r.url, "https://example.com/x");
    assert_eq!(r.body, b"hello".to_vec());
    assert_eq!(
        r.headers,
        vec![
            ("content-type".to_string(), "text/plain".to_string()),
            ("content-length".to_string(), "5".to_string()),
        ]
    );
}

#[test]
fn post_with_empty_body_announces_zero() {
    let r = post("u", &[]);
    assert!(r.body.is_empty());
    assert_eq!(r.headers[1], ("content-length".to_string(), "0".to_string()));
}

#[test]
fn ntfy_send_targets_topic() {
    let r = ntfy_send("garbaz", "WOW!");
    assert_eq!(r.url, "https://ntfy.sh/garbaz");
    assert_eq!(r.body, b"WOW!".to_vec());
    assert_eq!(r.headers[0], ("content-type".to_string(), "text/plain".to_string()));
    assert_eq!(r.headers[1], ("content-length".to_string(), "4".to_string()));
    assert_eq!(NTFY_BASE_URL, "https://ntfy.sh/");
}

#[test]
fn ntfy_send_counts_utf8_bytes() {
    // "23°C" has 4 characters and 5 bytes.
    let r = ntfy_send("t", "23°C");
    assert_eq!(r.body, "23°C".as_bytes().to_vec());
    assert_eq!(r.headers[1].1, "5");
}

#[test]
fn response_body_appends_valid_chunks() {
    let mut body = ResponseBody::new();
    assert_eq!(body.text(), "");
    assert_eq!(body.accept(b"hello, "), ChunkOutcome::Appended);
    assert_eq!(body.accept("wörld".as_bytes()), ChunkOutcome::Appended);
    assert_eq!(body.text(), "hello, wörld");
    assert_eq!(body.accept(&[]), ChunkOutcome::End);
    assert_eq!(body.into_text(), "hello, wörld");
}

#[test]
fn response_body_skips_invalid_chunks() {
    let mut body = ResponseBody::new();
    assert_eq!(body.accept(b"ok"), ChunkOutcome::Appended);
    assert_eq!(body.accept(&[0xff, 0x41]), ChunkOutcome::NotUtf8);
    assert_eq!(body.accept(b"!"), ChunkOutcome::Appended);
    assert_eq!(body.text(), "ok!");
}

#[test]
fn response_body_drops_split_character() {
    // "é" is 0xC3 0xA9; split across two reads, neither half decodes.
    let mut body = ResponseBody::new();
    assert_eq!(body.accept(&[b'a', 0xC3]), ChunkOutcome::NotUtf8);
    assert_eq!(body.accept(&[0xA9, b'b']), ChunkOutcome::NotUtf8);
    assert_eq!(body.text(), "");
}

#[test]
fn response_body_rejects_surrogates_and_overlong() {
    let mut body = ResponseBody::new();
    // An encoded surrogate and an overlong slash.
    assert_eq!(body.accept(&[0xED, 0xA0, 0x80]), ChunkOutcome::NotUtf8);
    assert_eq!(body.accept(&[0xC0, 0xAF]), ChunkOutcome::NotUtf8);
    assert_eq!(body.text(), "");
}

#[test]
fn valid_chunks_decode_as_whole() {
    let whole = "ntfy: ✓ delivered to garbaz";
    let bytes = whole.as_bytes();
    let mut body = ResponseBody::new();
    // Split only at character boundaries.
    let mut start = 0;
    for (i, _) in whole.char_indices().skip(1).step_by(3) {
        body.accept(&bytes[start..i]);
        start = i;
    }
    body.accept(&bytes[start..]);
    body.accept(&[]);
    assert_eq!(body.text(), whole);
}

#[test]
fn chunk_buffer_size() {
    assert_eq!(RESPONSE_CHUNK_LEN, 1024);
}
