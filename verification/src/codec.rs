//! Encodings, digests and ciphers, each taken from the crate that provides it.

use aes_gcm::aead::Aead;
use aes_gcm::aes::cipher::InvalidLength;
use aes_gcm::{Aes256Gcm, KeyInit, Nonce};
use flate2::read::ZlibDecoder;
use flate2::write::ZlibEncoder;
use flate2::Compression;
use sha2::{Digest, Sha256};
use std::io::{Read, Write};
use vstd::prelude::*;
use vstd::utf8::*;

verus! {

/// `hex::FromHexError`: why a text is no hexadecimal.
#[verifier::external_type_specification]
#[verifier::external_body]
pub struct ExFromHexError(hex::FromHexError);

/// `std::io::Error`, which the zlib streams report.
#[verifier::external_type_specification]
#[verifier::external_body]
pub struct ExIoError(std::io::Error);

/// `aes_gcm::Error`: the cipher refused, without saying why.
#[verifier::external_type_specification]
#[verifier::external_body]
pub struct ExCipherError(aes_gcm::Error);

/// `InvalidLength`: a key of the wrong size.
#[verifier::external_type_specification]
#[verifier::external_body]
pub struct ExInvalidLength(InvalidLength);

/// The lower case hexadecimal digit of a number below sixteen.
pub open spec fn hex_digit(n: int) -> char {
    if n < 10 {
        (48 + n) as char
    } else {
        (87 + n) as char
    }
}

/// Two lower case hexadecimal digits for each byte, the high one first.
pub open spec fn hex_text(bytes: Seq<u8>) -> Seq<char> {
    Seq::new(
        2 * bytes.len(),
        |i: int|
            hex_digit(
                if i % 2 == 0 {
                    bytes[i / 2] as int / 16
                } else {
                    bytes[i / 2] as int % 16
                },
            ),
    )
}

/// The value of a hexadecimal digit, in either case.
pub open spec fn hex_value(c: char) -> Option<int> {
    if '0' <= c <= '9' {
        Some(c as int - 48)
    } else if 'a' <= c <= 'f' {
        Some(c as int - 87)
    } else if 'A' <= c <= 'F' {
        Some(c as int - 55)
    } else {
        None
    }
}

/// The bytes that a hexadecimal text spells: it must hold an even number of
/// characters, each a hexadecimal digit.
pub open spec fn hex_bytes(text: Seq<char>) -> Option<Seq<u8>> {
    if text.len() % 2 == 0 && forall|i: int|
        0 <= i < text.len() ==> hex_value(#[trigger] text[i]) is Some {
        Some(
            Seq::new(
                text.len() / 2,
                |i: int| (16 * hex_value(text[2 * i])->0 + hex_value(text[2 * i + 1])->0) as u8,
            ),
        )
    } else {
        None
    }
}

/// Reading a hexadecimal text back gives the bytes that it was written for.
pub proof fn hex_reads_back(bytes: Seq<u8>)
    ensures
        hex_bytes(hex_text(bytes)) == Some(bytes),
{
    let text = hex_text(bytes);
    assert forall|i: int| 0 <= i < text.len() implies hex_value(#[trigger] text[i]) is Some by {
        assert(0 <= i / 2 < bytes.len());
    }
    let back = hex_bytes(text)->0;
    assert forall|i: int| 0 <= i < bytes.len() implies back[i] == bytes[i] by {
        assert((2 * i) / 2 == i && (2 * i) % 2 == 0);
        assert((2 * i + 1) / 2 == i && (2 * i + 1) % 2 == 1);
        let b = bytes[i] as int;
        assert(hex_value(hex_digit(b / 16)) == Some(b / 16));
        assert(hex_value(hex_digit(b % 16)) == Some(b % 16));
    }
    assert(back =~= bytes);
}

/// `hex::encode`: two lower case digits for each byte.
#[verifier::external_body]
pub(crate) fn hex_encode(bytes: &[u8]) -> (r: String)
    ensures
        r@ == hex_text(bytes@),
{
    hex::encode(bytes)
}

/// `hex::decode`: the bytes that the digits spell; an error exactly for a text
/// of odd length or with a character that is no hexadecimal digit.
#[verifier::external_body]
pub(crate) fn hex_decode(text: &str) -> (r: Result<Vec<u8>, hex::FromHexError>)
    ensures
        r is Ok <==> hex_bytes(text@) is Some,
        r matches Ok(b) ==> hex_bytes(text@) == Some(b@),
{
    hex::decode(text)
}

/// What `sha2::Sha256` gives for a message.
pub uninterp spec fn sha256_digest(message: Seq<u8>) -> Seq<u8>;

/// `sha2::Sha256`: the digest of a message, thirty-two bytes long.
#[verifier::external_body]
pub(crate) fn sha256(message: &[u8]) -> (r: Vec<u8>)
    ensures
        r@ == sha256_digest(message@),
        r@.len() == 32,
{
    let mut hasher = Sha256::new();
    hasher.update(message);
    hasher.finalize().to_vec()
}

/// What a `flate2` zlib writer at the default level makes of some bytes.
pub uninterp spec fn zlib_compressed(bytes: Seq<u8>) -> Seq<u8>;

/// What a `flate2` zlib reader takes out of some bytes as a text, or the words
/// of its error.
pub uninterp spec fn zlib_text(bytes: Seq<u8>) -> Result<Seq<char>, Seq<char>>;

/// `flate2::write::ZlibEncoder` over the whole input. Into a list of bytes it
/// always succeeds, and different bytes are compressed differently.
#[verifier::external_body]
pub(crate) fn zlib_compress(bytes: &[u8]) -> (r: Result<Vec<u8>, std::io::Error>)
    ensures
        r is Ok,
        r matches Ok(b) ==> b@ == zlib_compressed(bytes@),
        r matches Ok(b) ==> forall|other: Seq<u8>|
            #[trigger] zlib_compressed(other) == b@ ==> other == bytes@,
{
    let mut encoder = ZlibEncoder::new(Vec::new(), Compression::default());
    encoder.write_all(bytes)?;
    encoder.finish()
}

/// `flate2::read::ZlibDecoder` read to its end as a text. Of what the zlib
/// writer made of a text it gives the text back. Which bytes are refused and in
/// what words depends on the bytes alone.
#[verifier::external_body]
pub(crate) fn zlib_decompress_text(bytes: &[u8]) -> (r: Result<String, String>)
    ensures
        match r {
            Ok(t) => zlib_text(bytes@) == Ok::<Seq<char>, Seq<char>>(t@),
            Err(e) => zlib_text(bytes@) == Err::<Seq<char>, Seq<char>>(e@),
        },
        r is Err ==> forall|t: Seq<char>| #[trigger] zlib_compressed(encode_utf8(t)) != bytes@,
        r matches Ok(s) ==> forall|t: Seq<char>|
            #[trigger] zlib_compressed(encode_utf8(t)) == bytes@ ==> s@ == t,
{
    let mut decoder = ZlibDecoder::new(bytes);
    let mut text = String::new();
    match decoder.read_to_string(&mut text) {
        Ok(_) => Ok(text),
        Err(e) => Err(e.to_string()),
    }
}

/// The length of a key of the cipher, in bytes.
pub const KEY_LEN: usize = 32;

/// The length of a nonce of the cipher, in bytes.
pub const NONCE_LEN: usize = 12;

/// The length of the tag behind a ciphertext, in bytes.
pub const TAG_LEN: usize = 16;

/// The longest message that the cipher takes, in bytes.
pub const MAX_PLAIN_LEN: u64 = 0x10_0000_0000;

/// What AES-256-GCM makes of a message: its ciphertext and tag.
pub uninterp spec fn sealed(key: Seq<u8>, nonce: Seq<u8>, plain: Seq<u8>) -> Seq<u8>;

/// What AES-256-GCM finds in a ciphertext with its tag, where the tag is right.
pub uninterp spec fn opened(key: Seq<u8>, nonce: Seq<u8>, cipher: Seq<u8>) -> Option<Seq<u8>>;

/// `Aes256Gcm::new_from_slice` and `encrypt`. A key must be thirty-two bytes
/// long; a message is refused only beyond the length that GCM allows. The
/// ciphertext is as long as the message, and the tag stands behind it.
/// `Nonce::from_slice` takes twelve bytes and panics on any other number.
#[verifier::external_body]
pub(crate) fn aes_encrypt(key: &[u8], nonce: &[u8], plain: &[u8]) -> (r: Result<
    Result<Vec<u8>, aes_gcm::Error>,
    InvalidLength,
>)
    requires
        key@.len() == KEY_LEN ==> nonce@.len() == NONCE_LEN,
    ensures
        r is Ok <==> key@.len() == KEY_LEN,
        r matches Ok(c) ==> (c is Ok <==> plain@.len() <= MAX_PLAIN_LEN),
        r matches Ok(Ok(c)) ==> c@ == sealed(key@, nonce@, plain@) && c@.len() == plain@.len()
            + TAG_LEN,
{
    let cipher = Aes256Gcm::new_from_slice(key)?;
    Ok(cipher.encrypt(Nonce::from_slice(nonce), plain))
}

/// `Aes256Gcm::new_from_slice` and `decrypt`. What `encrypt` made under the
/// same key and nonce is turned back into the message.
#[verifier::external_body]
pub(crate) fn aes_decrypt(key: &[u8], nonce: &[u8], cipher: &[u8]) -> (r: Result<
    Result<Vec<u8>, aes_gcm::Error>,
    InvalidLength,
>)
    requires
        key@.len() == KEY_LEN ==> nonce@.len() == NONCE_LEN,
    ensures
        r is Ok <==> key@.len() == KEY_LEN,
        r matches Ok(p) ==> (p is Ok <==> opened(key@, nonce@, cipher@) is Some),
        r matches Ok(Ok(p)) ==> opened(key@, nonce@, cipher@) == Some(p@),
        r matches Ok(Err(e)) ==> forall|p: Seq<u8>|
            p.len() <= MAX_PLAIN_LEN ==> #[trigger] sealed(key@, nonce@, p) != cipher@,
        r matches Ok(Ok(v)) ==> forall|p: Seq<u8>|
            p.len() <= MAX_PLAIN_LEN && #[trigger] sealed(key@, nonce@, p) == cipher@ ==> v@ == p,
{
    let opener = Aes256Gcm::new_from_slice(key)?;
    Ok(opener.decrypt(Nonce::from_slice(nonce), cipher))
}

} // verus!
