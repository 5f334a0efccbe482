use aes_gcm::aead::{Aead, KeyInit};
use aes_gcm::{Aes256Gcm, Nonce};
use bootty::sdp::{from_array, from_object, SdpError, SessionDescription};
use flate2::write::ZlibEncoder;
use flate2::Compression;
use std::io::Write;

#[test]
fn test_roundtrip() {
    let sd = SessionDescription {
        sdp: "v=0\r\no=- 0 0 IN IP4 0.0.0.0\r\ns=-\r\n".to_string(),
        ten_kb_site_loc: "".to_string(),
        key: "".to_string(),
        nonce: "".to_string(),
    };
    let encoded = sd.encode().unwrap();
    let decoded = SessionDescription::decode(&encoded).unwrap();
    assert_eq!(sd.sdp, decoded.sdp);
}

#[test]
fn test_encrypt_decrypt() {
    let mut sd = SessionDescription {
        sdp: "this is a secret sdp".to_string(),
        ten_kb_site_loc: "".to_string(),
        key: "".to_string(),
        nonce: "".to_string(),
    };
    sd.gen_keys().unwrap();
    let original = sd.sdp.clone();
    sd.encrypt().unwrap();
    assert_ne!(sd.sdp, original);
    sd.decrypt().unwrap();
    assert_eq!(sd.sdp, original);
}

#[test]
fn test_roundtrip_full_fields() {
    let sd = SessionDescription {
        sdp: "v=0\r\no=- 0 0 IN IP4 0.0.0.0\r\ns=-\r\n".to_string(),
        ten_kb_site_loc: "abc123".to_string(),
        key: "deadbeef".to_string(),
        nonce: "cafebabe".to_string(),
    };
    let encoded = sd.encode().unwrap();
    let decoded = SessionDescription::decode(&encoded).unwrap();
    assert_eq!(sd.sdp, decoded.sdp);
    assert_eq!(sd.ten_kb_site_loc, decoded.ten_kb_site_loc);
    assert_eq!(sd.key, decoded.key);
    assert_eq!(sd.nonce, decoded.nonce);
}

#[test]
fn foreign_connection_string_is_read() {
    let text = "CtoJBoyKXS2vzJKSQLQE31mvdiFx2KWJMeeiSygxShFAt4jHxEoxUrARLCcFr5GuaSm469A4vv9Q1ySx2rqZdXu9vamzg8LF4WeuqFXS";
    let sd = SessionDescription::decode(text).unwrap();
    assert_eq!(sd.sdp, "hi \u{e9}\n");
    assert_eq!(sd.key, "k");
    assert_eq!(sd.nonce, "n\"q");
    assert_eq!(sd.ten_kb_site_loc, "");
}

#[test]
fn fields_may_stand_in_an_array() {
    let sd = SessionDescription::decode("KG8e31o7TBAyDMZ33HQPQkFgdgvcfuaSNma7NPBvt").unwrap();
    assert_eq!(sd.sdp, "hi \u{e9}\n");
    assert_eq!(sd.ten_kb_site_loc, "loc");
    assert_eq!(sd.key, "");
}

#[test]
fn connection_string_with_quotes_and_braces() {
    let sd = SessionDescription {
        sdp: "\"}],{[\\\u{0}\u{1f600}".to_string(),
        ten_kb_site_loc: "\"\\\n{}".to_string(),
        key: "{\"sdp\":\"x\"}".to_string(),
        nonce: "\u{2028}".to_string(),
    };
    let encoded = sd.encode().unwrap();
    assert!(encoded.chars().all(|c| c.is_ascii_alphanumeric() && !"0OIl".contains(c)));
    assert_eq!(SessionDescription::decode(&encoded).unwrap(), sd);
}

#[test]
fn long_text_shrinks_in_a_connection_string() {
    let sd = SessionDescription {
        sdp: "a=candidate:1\r\n".repeat(1000),
        ten_kb_site_loc: String::new(),
        key: String::new(),
        nonce: String::new(),
    };
    let encoded = sd.encode().unwrap();
    assert!(encoded.len() < 1000);
    assert_eq!(SessionDescription::decode(&encoded).unwrap().sdp, sd.sdp);
}

#[test]
fn connection_string_errors() {
    let read = |s: &str| SessionDescription::decode(s).unwrap_err();
    assert_eq!(read("0OIl"), SdpError::OuterBase58);
    assert_eq!(read("0OIl").message(), "base58 decode outer failed");
    assert_eq!(read("Cn8eVZg"), SdpError::Json);
    assert_eq!(read("").message(), "json decode failed");
    let twice = "FifvRswyjPMgQRFX1sCzq731GyFCsMnjD3YoBEaYM6fqgRLtyPLToWJ3ztAjvMjRS375ExT4um7cjW";
    assert_eq!(read(twice), SdpError::Json);
    assert_eq!(read("XXzEV34N2sJFFFS"), SdpError::Json);
    assert_eq!(read("nGa5qQb2WfJSCNZDMQx"), SdpError::InnerBase58);
    assert_eq!(SdpError::InnerBase58.message(), "base58 decode inner sdp failed");
    let e = read("nGa5qQb2WfJoAMqKyJt");
    assert!(matches!(e, SdpError::Inflate(_)));
    assert_eq!(e.message(), "corrupt deflate stream");
}

#[test]
fn keys_have_their_lengths() {
    let mut sd = plain("x");
    sd.gen_keys().unwrap();
    assert_eq!(sd.key.len(), 64);
    assert_eq!(sd.nonce.len(), 24);
    assert!(sd.check_nonce());
    let first = sd.clone();
    sd.gen_keys().unwrap();
    assert_ne!(first.key, sd.key);
}

fn plain(sdp: &str) -> SessionDescription {
    SessionDescription {
        sdp: sdp.to_string(),
        ten_kb_site_loc: String::new(),
        key: String::new(),
        nonce: String::new(),
    }
}

#[test]
fn cipher_errors() {
    let mut sd = plain("x");
    sd.key = "zz".to_string();
    assert_eq!(sd.encrypt().unwrap_err(), SdpError::KeyHex);
    assert_eq!(sd.decrypt().unwrap_err(), SdpError::KeyHex);
    sd.key = "00".repeat(32);
    sd.nonce = "0".to_string();
    assert_eq!(sd.encrypt().unwrap_err(), SdpError::NonceHex);
    assert_eq!(sd.decrypt().unwrap_err(), SdpError::NonceHex);
    sd.nonce = "00".repeat(12);
    assert_eq!(sd.decrypt().unwrap_err(), SdpError::CiphertextHex);
    sd.sdp = "00".repeat(20);
    assert_eq!(sd.decrypt().unwrap_err(), SdpError::Cipher);
    sd.key = "00".repeat(31);
    assert_eq!(sd.encrypt().unwrap_err(), SdpError::KeyLength);
    assert_eq!(sd.decrypt().unwrap_err(), SdpError::KeyLength);
}

#[test]
fn nonce_of_another_length_does_not_fit() {
    let mut sd = plain("00");
    sd.key = "00".repeat(32);
    sd.nonce = "00".repeat(11);
    assert!(!sd.check_nonce());
    sd.key = "00".repeat(31);
    assert!(sd.check_nonce());
}

#[test]
fn changed_ciphertext_is_noticed() {
    let mut sd = plain("attack at dawn");
    sd.gen_keys().unwrap();
    sd.encrypt().unwrap();
    let other = if sd.sdp.starts_with('0') { "1" } else { "0" };
    sd.sdp.replace_range(0..1, other);
    assert_eq!(sd.decrypt().unwrap_err(), SdpError::Cipher);
}

#[test]
fn decrypted_bytes_must_be_text() {
    let cipher = Aes256Gcm::new_from_slice(&[0u8; 32]).unwrap();
    let sealed = cipher.encrypt(Nonce::from_slice(&[0u8; 12]), &[0xffu8, 0xfe][..]).unwrap();
    let mut sd = plain(&hex::encode(sealed));
    sd.key = "00".repeat(32);
    sd.nonce = "00".repeat(12);
    let e = sd.decrypt().unwrap_err();
    assert!(matches!(e, SdpError::NotText(_)));
    assert_eq!(e.message(), "invalid utf-8 sequence of 1 bytes from index 0");
}

#[test]
fn upper_case_keys_are_read() {
    let mut sd = plain("text");
    sd.gen_keys().unwrap();
    sd.encrypt().unwrap();
    sd.key = sd.key.to_uppercase();
    sd.sdp = sd.sdp.to_uppercase();
    sd.decrypt().unwrap();
    assert_eq!(sd.sdp, "text");
}

#[test]
fn members_make_a_description() {
    let some = |s: &str| Some(s.to_string());
    let sd = from_object(&vec![some("key"), some("k"), some("x"), None, some("sdp"), some("s")]);
    let sd = sd.unwrap();
    assert_eq!((sd.sdp.as_str(), sd.key.as_str(), sd.nonce.as_str()), ("s", "k", ""));
    assert!(from_object(&vec![some("sdp"), None]).is_none());
    assert!(from_object(&vec![some("sdp"), some("a"), some("sdp"), some("a")]).is_none());
    assert!(from_object(&vec![some("sdp"), some("a"), None, some("b")]).is_none());
    assert!(from_object(&vec![]).is_none());
    let sd = from_array(&vec![some("s"), some("l"), some("k"), some("n")]).unwrap();
    assert_eq!((sd.ten_kb_site_loc.as_str(), sd.nonce.as_str()), ("l", "n"));
    assert!(from_array(&vec![]).is_none());
    assert!(from_array(&vec![some("s"), None]).is_none());
    assert!(from_array(&vec![some("a"), some("b"), some("c"), some("d"), some("e")]).is_none());
}

fn packed(compressed: &[u8]) -> String {
    let inner = bs58::encode(compressed).into_string();
    bs58::encode(format!("{{\"sdp\":\"{inner}\"}}")).into_string()
}

fn compress(bytes: &[u8]) -> Vec<u8> {
    let mut encoder = ZlibEncoder::new(Vec::new(), Compression::default());
    encoder.write_all(bytes).unwrap();
    encoder.finish().unwrap()
}

#[test]
fn streams_that_cannot_be_inflated_say_why() {
    let read = |bytes: &[u8]| SessionDescription::decode(&packed(bytes));
    assert_eq!(read(&compress(b"text")).unwrap().sdp, "text");
    let no_text = read(&compress(b"\xff\xfe")).unwrap_err().message();
    assert_eq!(no_text, "stream did not contain valid UTF-8");
    let whole = compress(&b"some text to compress".repeat(20));
    let cut = read(&whole[..whole.len() / 2]).unwrap_err().message();
    assert_ne!(cut, no_text);
    assert_ne!(cut, "corrupt deflate stream");
}

#[test]
fn incomplete_text_says_so() {
    let cipher = Aes256Gcm::new_from_slice(&[0u8; 32]).unwrap();
    let sealed = cipher.encrypt(Nonce::from_slice(&[0u8; 12]), &[b'a', 0xe2, 0x82][..]).unwrap();
    let mut sd = plain(&hex::encode(sealed));
    sd.key = "00".repeat(32);
    sd.nonce = "00".repeat(12);
    let e = sd.decrypt().unwrap_err();
    assert_eq!(e.message(), "incomplete utf-8 byte sequence from index 1");
}

#[test]
fn connection_strings_tell_descriptions_apart() {
    let strings: Vec<String> = ["", "a", "b", "\u{0}"]
        .iter()
        .map(|s| plain(s).encode().unwrap())
        .collect();
    for (i, a) in strings.iter().enumerate() {
        assert!(!a.is_empty());
        for (j, b) in strings.iter().enumerate() {
            assert_eq!(a == b, i == j);
        }
    }
    let mut keyed = plain("a");
    keyed.key = "k".to_string();
    assert_ne!(keyed.encode().unwrap(), strings[1]);
    assert_eq!(plain("a").encode().unwrap(), strings[1]);
}

#[test]
fn encrypted_text_has_its_length() {
    for text in ["", "a", "h\u{e9}llo"] {
        let mut sd = plain(text);
        sd.gen_keys().unwrap();
        sd.encrypt().unwrap();
        assert_eq!(sd.sdp.len(), 2 * (text.len() + 16));
    }
}

#[test]
fn drawn_keys_are_taken() {
    let mut sd = plain("x");
    sd.set_keys(&vec![0xab; 32], &vec![0x01; 12]);
    assert_eq!(sd.key, "ab".repeat(32));
    assert_eq!(sd.nonce, "01".repeat(12));
    assert_eq!(sd.sdp, "x");
}

#[test]
fn ciphertext_is_looked_at_before_the_nonce() {
    let mut sd = plain("no hexadecimal");
    sd.key = "00".repeat(32);
    sd.nonce = "00".repeat(4);
    assert!(sd.check_ciphertext() && !sd.check_nonce());
    assert_eq!(sd.decrypt().unwrap_err(), SdpError::CiphertextHex);
    sd.sdp = "00".to_string();
    assert!(!sd.check_ciphertext());
}
