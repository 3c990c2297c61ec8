use corelia::crypto::base64_decode;
use corelia::crypto::base64_encode;
use corelia::crypto::sha256;
use corelia::crypto::to_hex;

#[test]
fn test_base64_encode_values() {
    assert_eq!(base64_encode(""), "");
    assert_eq!(base64_encode("f"), "Zg==");
    assert_eq!(base64_encode("fo"), "Zm8=");
    assert_eq!(base64_encode("foo"), "Zm9v");
    assert_eq!(base64_encode("hello"), "aGVsbG8=");
    assert_eq!(base64_encode("你好"), "5L2g5aW9");
}

#[test]
fn test_base64_round_trip() {
    for s in ["", "a", "Corelia", "插件 plugin ✓", "with+slash/and=eq"] {
        assert_eq!(base64_decode(&base64_encode(s)).unwrap(), s);
    }
}

#[test]
fn test_base64_decode_errors() {
    assert!(base64_decode("not base64!").is_err());
    assert!(base64_decode("Zg").is_err());
    // valid Base64 of bytes that are not UTF-8
    assert!(base64_decode("/w==").is_err());
    assert_eq!(base64_decode("aGVsbG8=").unwrap(), "hello");
}

#[test]
fn test_sha256_hex() {
    assert_eq!(sha256(""), "e3b0c44298fc1c149afbf4c8996fb92427ae41e4649b934ca495991b7852b855");
    assert_eq!(sha256("abc"), "ba7816bf8f01cfea414140de5dae2223b00361a396177a9cb410ff61f20015ad");
    assert_eq!(sha256("hello").len(), 64);
}

#[test]
fn test_to_hex() {
    assert_eq!(to_hex(&vec![0x00, 0x0f, 0xa5, 0xff]), "000fa5ff");
    assert_eq!(to_hex(&vec![]), "");
}
