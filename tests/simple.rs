use include_base64::codec::{encode_contents, CharacterSet};

const EX1: &[u8] = b"Hello, world!\n";
const EX2: &[u8] = &[0xFB, 0xEF, 0xBE, 0xFF];

#[test]
fn simple() {
    let ex1_base64 = encode_contents(EX1, CharacterSet::UrlSafe).unwrap();
    let ex2_base64_std = encode_contents(EX2, CharacterSet::Standard).unwrap();
    let ex2_base64_url_safe = encode_contents(EX2, CharacterSet::UrlSafe).unwrap();
    assert_eq!(ex1_base64, "SGVsbG8sIHdvcmxkIQo=");
    assert_eq!(ex2_base64_std, "++++/w==");
    assert_eq!(ex2_base64_url_safe, "----_w==");
}
