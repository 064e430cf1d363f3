//! The text form of a template as the game exchanges it: the template's JSON,
//! gzip-compressed, then base64-encoded (standard alphabet, padded).
use vstd::prelude::*;
use vstd::utf8::encode_utf8;
use base64::Engine;
use base64::engine::general_purpose::STANDARD;
use flate2::Compression;
use flate2::read::GzDecoder;
use flate2::write::GzEncoder;
use std::io::Read;
use std::io::Write;

verus! {

/// The gzip stream `GzEncoder` writes for `data` at the default compression
/// level (no file name, no time stamp).
pub uninterp spec fn gzip_of(data: Seq<u8>) -> Seq<u8>;

/// The character of a six-bit value in the standard base64 alphabet:
/// `A`-`Z`, `a`-`z`, `0`-`9`, `+` and `/`.
pub open spec fn base64_digit(x: int) -> char {
    if x < 26 {
        (65 + x) as char
    } else if x < 52 {
        (97 + x - 26) as char
    } else if x < 62 {
        (48 + x - 52) as char
    } else if x == 62 {
        '+'
    } else {
        '/'
    }
}

/// The base64 text of `data` with the standard alphabet and padding: each
/// group of three bytes as four characters of six bits each; a last group of
/// one or two bytes as two or three characters, padded with `=` to four.
pub open spec fn base64_of(data: Seq<u8>) -> Seq<char>
    decreases data.len(),
{
    if data.len() == 0 {
        Seq::empty()
    } else if data.len() == 1 {
        let a = data[0] as int;
        seq![base64_digit(a / 4), base64_digit((a % 4) * 16), '=', '=']
    } else if data.len() == 2 {
        let (a, b) = (data[0] as int, data[1] as int);
        seq![base64_digit(a / 4), base64_digit((a % 4) * 16 + b / 16), base64_digit((b % 16) * 4), '=']
    } else {
        let (a, b, c) = (data[0] as int, data[1] as int, data[2] as int);
        seq![
            base64_digit(a / 4),
            base64_digit((a % 4) * 16 + b / 16),
            base64_digit((b % 16) * 4 + c / 64),
            base64_digit(c % 64),
        ] + base64_of(data.skip(3))
    }
}

/// The text form of a JSON text.
pub open spec fn encoded_text(json: Seq<char>) -> Seq<char> {
    base64_of(gzip_of(encode_utf8(json)))
}

/// The UTF-8 bytes of a text.
fn utf8_bytes(text: &str) -> (r: Vec<u8>)
    ensures
        r@ == encode_utf8(text@),
{
    vstd::slice::slice_to_vec(text.as_bytes())
}

/// Compresses `data` with `flate2`'s `GzEncoder` at the default level into
/// a `Vec`. This succeeds: writing to a `Vec` does not fail, and the
/// compressor's error results (`MZError::Param` from a call after the stream
/// is finished, `MZError::Stream` from a failed output callback) cannot arise
/// from one `write_all` followed by `finish` on a buffer.
#[verifier::external_body]
fn gzip(data: &[u8]) -> (r: Option<Vec<u8>>)
    ensures
        r is Some,
        r matches Some(v) ==> v@ == gzip_of(data@),
{
    let mut encoder = GzEncoder::new(Vec::new(), Compression::default());
    encoder.write_all(data).ok()?;
    encoder.finish().ok()
}

/// Decompresses a gzip stream with `flate2`'s `GzDecoder` into a text. The
/// stream `GzEncoder` writes for the UTF-8 bytes of a text decompresses to
/// that text; of other input nothing is claimed.
#[verifier::external_body]
fn gunzip(data: &[u8]) -> (r: Option<String>)
    ensures
        r is Some || forall|text: Seq<char>| #[trigger] gzip_of(encode_utf8(text)) != data@,
        forall|text: Seq<char>| #[trigger] gzip_of(encode_utf8(text)) == data@ ==> r.unwrap()@ == text,
{
    let mut decoder = GzDecoder::new(data);
    let mut text = String::new();
    decoder.read_to_string(&mut text).ok()?;
    Some(text)
}

/// Encodes bytes as base64 with `base64`'s `STANDARD` engine.
#[verifier::external_body]
fn base64_encode(data: &[u8]) -> (r: String)
    ensures
        r@ == base64_of(data@),
{
    STANDARD.encode(data)
}

/// Decodes base64 with `base64`'s `STANDARD` engine, which takes only the
/// canonical padded encoding (`DecodePaddingMode::RequireCanonical`, no
/// trailing bits): it succeeds exactly on the encodings of bytes, and gives
/// those bytes.
#[verifier::external_body]
fn base64_decode(text: &str) -> (r: Option<Vec<u8>>)
    ensures
        r is Some <==> exists|data: Seq<u8>| #[trigger] base64_of(data) == text@,
        r matches Some(v) ==> base64_of(v@) == text@,
        forall|data: Seq<u8>| #[trigger] base64_of(data) == text@ ==> r.unwrap()@ == data,
{
    STANDARD.decode(text).ok()
}

/// The text form of a template's JSON text: gzip, then base64.
pub fn encode_json(json: &str) -> (r: String)
    ensures
        r@ == encoded_text(json@),
{
    let bytes = utf8_bytes(json);
    let zipped = gzip(bytes.as_slice()).unwrap();
    base64_encode(zipped.as_slice())
}

/// The JSON text of a template's text form: base64, then gunzip. The text
/// form of a JSON text gives that JSON text back; a text that is not the
/// base64 encoding of any bytes gives `None`.
pub fn decode_json(data: &str) -> (r: Option<String>)
    ensures
        forall|json: Seq<char>| #[trigger] encoded_text(json) == data@ ==> (r matches Some(s) && s@ == json),
        (forall|bytes: Seq<u8>| #[trigger] base64_of(bytes) != data@) ==> r is None,
{
    let zipped = base64_decode(data)?;
    gunzip(zipped.as_slice())
}

} // verus!
