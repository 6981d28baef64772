use nxcmdr::encoding::{decode, encode};

#[test]
fn encode_writes_standard_base64_with_padding() {
    assert_eq!(encode(b""), "");
    assert_eq!(encode(b"f"), "Zg==");
    assert_eq!(encode(b"fo"), "Zm8=");
    assert_eq!(encode(b"foo"), "Zm9v");
    assert_eq!(encode(b"foob"), "Zm9vYg==");
    assert_eq!(encode(b"fooba"), "Zm9vYmE=");
    assert_eq!(encode(b"foobar"), "Zm9vYmFy");
    assert_eq!(encode(&[0xfb, 0xff, 0xbf]), "+/+/");
}

#[test]
fn decode_reads_standard_base64() {
    assert_eq!(decode(b""), Some(vec![]));
    assert_eq!(decode(b"Zg=="), Some(b"f".to_vec()));
    assert_eq!(decode(b"Zm9vYmFy"), Some(b"foobar".to_vec()));
    assert_eq!(decode(b"+/+/"), Some(vec![0xfb, 0xff, 0xbf]));
}

#[test]
fn decode_rejects_malformed_text() {
    assert_eq!(decode(b"Z"), None);
    assert_eq!(decode(b"Zg=a"), None);
    assert_eq!(decode(b"Zm9v!"), None);
    assert_eq!(decode(b"-_-_"), None);
    assert_eq!(decode(b"Zm 9v"), None);
    assert_eq!(decode(b"Zm9v\n"), None);
}

#[test]
fn decode_inverts_encode() {
    for len in 0..70usize {
        let bytes: Vec<u8> = (0..len).map(|i| (i * 37 % 256) as u8).collect();
        let text = encode(&bytes);
        assert!(text.bytes().all(|b| b.is_ascii_alphanumeric() || b == b'+' || b == b'/' || b == b'='));
        assert_eq!(decode(text.as_bytes()), Some(bytes));
    }
}
