//! The crypto patch offered to plugins: Base64 (standard alphabet, padded) of a
//! string's UTF-8 bytes and back, and the SHA-256 digest of a string in lower-case
//! hexadecimal.

use vstd::prelude::*;
use vstd::string::*;
use vstd::utf8::decode_utf8;
use vstd::utf8::encode_utf8;
use vstd::utf8::valid_utf8;
use vstd::utf8::encode_utf8_decode_utf8;
use vstd::utf8::encode_utf8_valid_utf8;
use base64::Engine;
use sha2::Digest;

verus! {

/// The character of a 6-bit value in the standard Base64 alphabet.
pub open spec fn b64_char(v: int) -> char {
    if v < 26 {
        (65 + v) as char
    } else if v < 52 {
        (97 + v - 26) as char
    } else if v < 62 {
        (48 + v - 52) as char
    } else if v == 62 {
        '+'
    } else {
        '/'
    }
}

/// Standard Base64 with `=` padding (RFC 4648, section 4): each group of three
/// bytes gives four characters; a last group of one or two bytes is padded.
pub open spec fn base64_of(b: Seq<u8>) -> Seq<char>
    decreases b.len(),
{
    if b.len() == 0 {
        Seq::empty()
    } else if b.len() == 1 {
        seq![b64_char((b[0] as int) / 4), b64_char(((b[0] as int) % 4) * 16), '=', '=']
    } else if b.len() == 2 {
        seq![b64_char((b[0] as int) / 4), b64_char(((b[0] as int) % 4) * 16 + (b[1] as int) / 16), b64_char(((b[1] as int) % 16) * 4), '=']
    } else {
        seq![
            b64_char((b[0] as int) / 4),
            b64_char(((b[0] as int) % 4) * 16 + (b[1] as int) / 16),
            b64_char(((b[1] as int) % 16) * 4 + (b[2] as int) / 64),
            b64_char((b[2] as int) % 64),
        ] + base64_of(b.skip(3))
    }
}

/// What decoding text as standard, padded Base64 gives: the bytes, or nothing
/// where the text is not canonical Base64.
pub uninterp spec fn base64_decoded(s: Seq<char>) -> Option<Seq<u8>>;

/// The SHA-256 digest of a byte sequence.
pub uninterp spec fn sha256_of(b: Seq<u8>) -> Seq<u8>;

/// Encodes bytes with the `base64` crate's `STANDARD` engine (`Engine::encode`):
/// the standard alphabet with `=` padding, as `base64_of` states. The crate
/// panics where the output length overflows `usize`, which `requires` rules out.
#[verifier::external_body]
fn standard_encode(bytes: &[u8]) -> (r: String)
    requires
        bytes@.len() <= usize::MAX / 2,
    ensures
        r@ == base64_of(bytes@),
{
    base64::engine::general_purpose::STANDARD.encode(bytes)
}

/// Decodes text with the `base64` crate's `STANDARD` engine (`Engine::decode`),
/// which requires canonical padding and no trailing bits. The result is named by
/// `base64_decoded`; the encoding of any bytes decodes to those bytes. The error's
/// text is the crate's `DecodeError` message, of which nothing is stated.
#[verifier::external_body]
fn standard_decode(input: &str) -> (r: Result<Vec<u8>, String>)
    ensures
        r matches Ok(v) ==> base64_decoded(input@) == Some(v@),
        r is Err ==> base64_decoded(input@) is None,
        forall|b: Seq<u8>| #[trigger] base64_of(b) == input@ ==> (r is Ok && r->Ok_0@ == b),
{
    base64::engine::general_purpose::STANDARD.decode(input).map_err(|e| e.to_string())
}

/// Turns bytes into a string with `String::from_utf8`, which succeeds exactly on
/// valid UTF-8 and then holds the decoded characters. The error's text (from
/// `FromUtf8Error`) is not stated.
#[verifier::external_body]
fn string_from_utf8(bytes: Vec<u8>) -> (r: Result<String, String>)
    ensures
        r is Ok <==> valid_utf8(bytes@),
        r matches Ok(s) ==> s@ == decode_utf8(bytes@),
{
    String::from_utf8(bytes).map_err(|e| e.to_string())
}

/// The SHA-256 digest of bytes, from the `sha2` crate (`Digest::digest` on
/// `Sha256`): 32 bytes, named by `sha256_of`.
#[verifier::external_body]
fn sha256_digest(bytes: &[u8]) -> (r: Vec<u8>)
    ensures
        r@ == sha256_of(bytes@),
        r@.len() == 32,
{
    sha2::Sha256::digest(bytes).to_vec()
}

/// The Base64 encoding of a string's UTF-8 bytes.
pub fn base64_encode(input: &str) -> (r: String)
    requires
        encode_utf8(input@).len() <= usize::MAX / 2,
    ensures
        r@ == base64_of(encode_utf8(input@)),
{
    standard_encode(input.as_bytes())
}

/// Decodes standard, padded Base64 into a string: fails where the text is not
/// Base64 or the bytes are not UTF-8. Whatever a string encodes to, decodes back
/// to that string.
pub fn base64_decode(input: &str) -> (r: Result<String, String>)
    ensures
        r is Ok <==> (base64_decoded(input@) matches Some(b) && valid_utf8(b)),
        r matches Ok(s) ==> s@ == decode_utf8(base64_decoded(input@)->0),
        forall|t: Seq<char>| base64_of(#[trigger] encode_utf8(t)) == input@ ==> (r matches Ok(s) && s@ == t),
{
    let r = match standard_decode(input) {
        Ok(bytes) => string_from_utf8(bytes),
        Err(e) => Err(e),
    };
    proof {
        assert forall|t: Seq<char>| base64_of(#[trigger] encode_utf8(t)) == input@ implies (r matches Ok(s) && s@
            == t) by {
            encode_utf8_valid_utf8(t);
            encode_utf8_decode_utf8(t);
        }
    }
    r
}

/// The character of a hexadecimal digit, in lower case.
pub open spec fn hex_digit(v: int) -> char {
    if v < 10 {
        (48 + v) as char
    } else {
        (97 + v - 10) as char
    }
}

/// Bytes in lower-case hexadecimal, two digits each.
pub open spec fn hex_lower(b: Seq<u8>) -> Seq<char>
    decreases b.len(),
{
    if b.len() == 0 {
        Seq::empty()
    } else {
        hex_lower(b.drop_last()) + seq![hex_digit((b.last() as int) / 16), hex_digit((b.last() as int) % 16)]
    }
}

fn hex_text(v: u8) -> (s: &'static str)
    requires
        v < 16,
    ensures
        s@ == seq![hex_digit(v as int)],
{
    proof {
        reveal_strlit("0");
        reveal_strlit("1");
        reveal_strlit("2");
        reveal_strlit("3");
        reveal_strlit("4");
        reveal_strlit("5");
        reveal_strlit("6");
        reveal_strlit("7");
        reveal_strlit("8");
        reveal_strlit("9");
        reveal_strlit("a");
        reveal_strlit("b");
        reveal_strlit("c");
        reveal_strlit("d");
        reveal_strlit("e");
        reveal_strlit("f");
    }
    let s = if v == 0 {
        "0"
    } else if v == 1 {
        "1"
    } else if v == 2 {
        "2"
    } else if v == 3 {
        "3"
    } else if v == 4 {
        "4"
    } else if v == 5 {
        "5"
    } else if v == 6 {
        "6"
    } else if v == 7 {
        "7"
    } else if v == 8 {
        "8"
    } else if v == 9 {
        "9"
    } else if v == 10 {
        "a"
    } else if v == 11 {
        "b"
    } else if v == 12 {
        "c"
    } else if v == 13 {
        "d"
    } else if v == 14 {
        "e"
    } else {
        "f"
    };
    assert(s@ =~= seq![hex_digit(v as int)]);
    s
}

/// Bytes in lower-case hexadecimal.
pub fn to_hex(bytes: &Vec<u8>) -> (r: String)
    ensures
        r@ == hex_lower(bytes@),
{
    let mut out = String::new();
    let mut i: usize = 0;
    assert(bytes@.take(0) =~= Seq::<u8>::empty());
    while i < bytes.len()
        invariant
            i <= bytes@.len(),
            out@ == hex_lower(bytes@.take(i as int)),
        decreases bytes.len() - i,
    {
        let b = bytes[i];
        let hi = hex_text(b / 16);
        let lo = hex_text(b % 16);
        out.append(hi);
        out.append(lo);
        proof {
            let t = bytes@.take(i + 1);
            assert(t.drop_last() =~= bytes@.take(i as int));
            assert(t.last() == b);
        }
        assert(out@ =~= hex_lower(bytes@.take(i + 1)));
        i = i + 1;
    }
    assert(bytes@.take(bytes.len() as int) =~= bytes@);
    out
}

/// The SHA-256 digest of a string's UTF-8 bytes, in lower-case hexadecimal.
pub fn sha256(input: &str) -> (r: String)
    ensures
        r@ == hex_lower(sha256_of(encode_utf8(input@))),
        r@.len() == 64,
{
    let d = sha256_digest(input.as_bytes());
    let r = to_hex(&d);
    proof {
        lemma_hex_len(d@);
    }
    r
}

/// Two digits per byte.
proof fn lemma_hex_len(b: Seq<u8>)
    ensures
        hex_lower(b).len() == 2 * b.len(),
    decreases b.len(),
{
    if b.len() > 0 {
        lemma_hex_len(b.drop_last());
    }
}

} // verus!
