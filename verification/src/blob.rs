//! Persisted STEP payload encoding: the source STEP text is stored
//! deflate-compressed and base64-encoded, so a document is self-contained
//! and an import replays on rebuild. Decoding caps inflation so a deflate
//! bomb is a loud error, never an unbounded allocation.

use vstd::prelude::*;
use vstd::string::*;
use vstd::utf8::*;
use base64::Engine;
use std::io::Read;
use std::io::Write;

use crate::text::{decimal, push_decimal, str_equal};

verus! {

/// The encoding tag written next to a payload. Bump only with a decoder that
/// accepts both.
pub const STEP_BLOB_ENCODING: &'static str = "deflate-base64";

/// Largest payload a blob may inflate to (256 MiB).
pub const MAX_INFLATED_BYTES: usize = 268435456;

/// The raw-deflate stream `flate2` writes for `data` at its default level.
pub uninterp spec fn deflate_default(data: Seq<u8>) -> Seq<u8>;

/// What `flate2`'s raw-deflate reader yields when at most `limit` bytes are
/// read from `data`: the bytes, or the message of the I/O error it reports.
pub uninterp spec fn inflate_up_to(data: Seq<u8>, limit: nat) -> Result<Seq<u8>, Seq<char>>;

/// The standard, padded base64 text of `data`.
pub uninterp spec fn base64_standard_encode(data: Seq<u8>) -> Seq<char>;

/// Standard, padded base64 decoding of the bytes `text`: the decoded bytes,
/// or the message of the `DecodeError`.
pub uninterp spec fn base64_standard_decode(text: Seq<u8>) -> Result<Seq<u8>, Seq<char>>;

/// The message `std::string::FromUtf8Error` displays for `bytes`.
pub uninterp spec fn utf8_error_text(bytes: Seq<u8>) -> Seq<char>;

/// Reading the deflate stream `stream` with any limit `n` yields the first
/// `min(n, |data|)` bytes of `data`, without error.
pub open spec fn inflates_to(stream: Seq<u8>, data: Seq<u8>) -> bool {
    forall|n: nat|
        #[trigger] inflate_up_to(stream, n) == Ok::<Seq<u8>, Seq<char>>(
            if n < data.len() { data.take(n as int) } else { data },
        )
}

/// Decoding the bytes of the base64 text `text` gives `data`.
pub open spec fn base64_decodes_to(text: Seq<char>, data: Seq<u8>) -> bool {
    base64_standard_decode(encode_utf8(text)) == Ok::<Seq<u8>, Seq<char>>(data)
}

/// Calls `flate2::write::DeflateEncoder` (default compression) over a `Vec`,
/// writes `data` and finishes. Claimed: the result is a function of `data`,
/// and reading it back through `flate2::read::DeflateDecoder` limited to `n`
/// bytes yields exactly the first `min(n, |data|)` bytes of `data` without
/// error (a complete deflate stream inflates to what was written).
#[verifier::external_body]
fn deflate_compress(data: &[u8]) -> (res: Vec<u8>)
    ensures
        res@ == deflate_default(data@),
        inflates_to(res@, data@),
{
    let mut enc = flate2::write::DeflateEncoder::new(Vec::new(), flate2::Compression::default());
    let _ = enc.write_all(data);
    enc.finish().unwrap_or_default()
}

/// Calls `flate2::read::DeflateDecoder` over `data`, limited by
/// `std::io::Read::take(limit)`, and reads to the end. Claimed: the outcome
/// is a function of `data` and `limit`, and a successful read holds at most
/// `limit` bytes (what `Take` guarantees).
#[verifier::external_body]
fn inflate_limited(data: &[u8], limit: u64) -> (res: Result<Vec<u8>, String>)
    ensures
        match res {
            Ok(v) => inflate_up_to(data@, limit as nat) == Ok::<Seq<u8>, Seq<char>>(v@)
                && v@.len() <= limit,
            Err(e) => inflate_up_to(data@, limit as nat) == Err::<Seq<u8>, Seq<char>>(e@),
        },
{
    let mut raw = Vec::new();
    match flate2::read::DeflateDecoder::new(data).take(limit).read_to_end(&mut raw) {
        Ok(_) => Ok(raw),
        Err(e) => Err(e.to_string()),
    }
}

/// Calls `base64::Engine::encode` of `base64::engine::general_purpose::STANDARD`.
/// Claimed: the text is a function of `data`, and decoding its bytes with
/// the same engine gives `data` back.
#[verifier::external_body]
fn base64_encode(data: &[u8]) -> (res: String)
    ensures
        res@ == base64_standard_encode(data@),
        base64_decodes_to(res@, data@),
{
    base64::engine::general_purpose::STANDARD.encode(data)
}

/// Calls `base64::Engine::decode` of `base64::engine::general_purpose::STANDARD`
/// on the bytes of `text`. Claimed: the outcome (bytes, or the error's
/// message) is a function of those bytes.
#[verifier::external_body]
fn base64_decode(text: &str) -> (res: Result<Vec<u8>, String>)
    ensures
        match res {
            Ok(v) => base64_standard_decode(text.spec_bytes()) == Ok::<Seq<u8>, Seq<char>>(v@),
            Err(e) => base64_standard_decode(text.spec_bytes()) == Err::<Seq<u8>, Seq<char>>(e@),
        },
{
    match base64::engine::general_purpose::STANDARD.decode(text) {
        Ok(v) => Ok(v),
        Err(e) => Err(e.to_string()),
    }
}

/// Calls `String::from_utf8`. Claimed (its documentation): it succeeds
/// exactly on valid UTF-8, giving the characters those bytes encode; on
/// failure the error's message is a function of the bytes.
#[verifier::external_body]
fn string_from_utf8(raw: Vec<u8>) -> (res: Result<String, String>)
    ensures
        res is Ok <==> valid_utf8(raw@),
        res matches Ok(s) ==> s@ == decode_utf8(raw@),
        res matches Err(e) ==> e@ == utf8_error_text(raw@),
{
    match String::from_utf8(raw) {
        Ok(s) => Ok(s),
        Err(e) => Err(e.to_string()),
    }
}

/// The stored form of `text`: its UTF-8 bytes deflated, then base64-encoded.
pub open spec fn spec_encode_step_blob(text: Seq<char>) -> Seq<char> {
    base64_standard_encode(deflate_default(encode_utf8(text)))
}

/// What an inflated payload of `raw` bytes decodes to under the cap.
pub open spec fn spec_inflated_text(raw: Seq<u8>, cap: nat) -> Result<Seq<char>, Seq<char>> {
    if raw.len() > cap {
        Err("EmbedTooLarge: payload inflates beyond the "@ + decimal(cap) + "-byte cap"@)
    } else if valid_utf8(raw) {
        Ok(decode_utf8(raw))
    } else {
        Err("STEP blob is not UTF-8: "@ + utf8_error_text(raw))
    }
}

/// What `decode_step_blob_capped(encoding, data, cap)` returns.
pub open spec fn spec_decode_step_blob(encoding: Seq<char>, data: Seq<char>, cap: nat) -> Result<
    Seq<char>,
    Seq<char>,
> {
    if encoding != STEP_BLOB_ENCODING@ {
        Err("unknown STEP blob encoding '"@ + encoding + "'"@)
    } else {
        match base64_standard_decode(encode_utf8(data)) {
            Err(e) => Err("STEP blob base64 decode failed: "@ + e),
            Ok(bytes) => match inflate_up_to(bytes, cap + 1) {
                Err(e) => Err("STEP blob inflate failed: "@ + e),
                Ok(raw) => spec_inflated_text(raw, cap),
            },
        }
    }
}

/// `spec_decode_step_blob` with the result's strings as views.
pub open spec fn decoded_as(res: Result<String, String>, spec: Result<Seq<char>, Seq<char>>) -> bool {
    match res {
        Ok(s) => spec == Ok::<Seq<char>, Seq<char>>(s@),
        Err(e) => spec == Err::<Seq<char>, Seq<char>>(e@),
    }
}

/// Compress and encode STEP text for persistence.
pub fn encode_step_blob(step_text: &str) -> (res: String)
    ensures
        res@ == spec_encode_step_blob(step_text@),
        forall|cap: nat|
            encode_utf8(step_text@).len() <= cap ==> #[trigger] spec_decode_step_blob(
                STEP_BLOB_ENCODING@,
                res@,
                cap,
            ) == Ok::<Seq<char>, Seq<char>>(step_text@),
        forall|cap: nat|
            encode_utf8(step_text@).len() > cap ==> #[trigger] spec_decode_step_blob(
                STEP_BLOB_ENCODING@,
                res@,
                cap,
            ) == Err::<Seq<char>, Seq<char>>(
                "EmbedTooLarge: payload inflates beyond the "@ + decimal(cap) + "-byte cap"@,
            ),
{
    let bytes = step_text.as_bytes();
    let compressed = deflate_compress(bytes);
    let res = base64_encode(compressed.as_slice());
    proof {
        encode_utf8_valid_utf8(step_text@);
        encode_utf8_decode_utf8(step_text@);
        assert forall|cap: nat| encode_utf8(step_text@).len() <= cap implies #[trigger] spec_decode_step_blob(
            STEP_BLOB_ENCODING@,
            res@,
            cap,
        ) == Ok::<Seq<char>, Seq<char>>(step_text@) by {
            assert(inflate_up_to(compressed@, cap + 1) == Ok::<Seq<u8>, Seq<char>>(bytes@));
        }
        assert forall|cap: nat| encode_utf8(step_text@).len() > cap implies #[trigger] spec_decode_step_blob(
            STEP_BLOB_ENCODING@,
            res@,
            cap,
        ) == Err::<Seq<char>, Seq<char>>(
            "EmbedTooLarge: payload inflates beyond the "@ + decimal(cap) + "-byte cap"@,
        ) by {
            let n: nat = cap + 1;
            let raw = if n < bytes@.len() { bytes@.take(n as int) } else { bytes@ };
            assert(inflate_up_to(compressed@, n) == Ok::<Seq<u8>, Seq<char>>(raw));
            assert(raw.len() > cap);
        }
    }
    res
}

/// The size check and UTF-8 decoding of an inflated payload.
pub fn inflated_text(raw: Vec<u8>, cap: usize) -> (res: Result<String, String>)
    ensures
        decoded_as(res, spec_inflated_text(raw@, cap as nat)),
{
    if raw.len() > cap {
        let mut msg = String::new();
        msg.append("EmbedTooLarge: payload inflates beyond the ");
        push_decimal(&mut msg, cap);
        msg.append("-byte cap");
        return Err(msg);
    }
    match string_from_utf8(raw) {
        Ok(s) => Ok(s),
        Err(e) => {
            let mut msg = String::new();
            msg.append("STEP blob is not UTF-8: ");
            msg.append(e.as_str());
            Err(msg)
        },
    }
}

/// [`decode_step_blob`] with an explicit inflation cap (bytes). Exceeding it
/// is `EmbedTooLarge`.
pub fn decode_step_blob_capped(encoding: &str, data: &str, cap: usize) -> (res: Result<
    String,
    String,
>)
    requires
        (cap as u64) < u64::MAX,
    ensures
        decoded_as(res, spec_decode_step_blob(encoding@, data@, cap as nat)),
{
    if !str_equal(encoding, STEP_BLOB_ENCODING) {
        let mut msg = String::new();
        msg.append("unknown STEP blob encoding '");
        msg.append(encoding);
        msg.append("'");
        return Err(msg);
    }
    let bytes = match base64_decode(data) {
        Ok(b) => b,
        Err(e) => {
            let mut msg = String::new();
            msg.append("STEP blob base64 decode failed: ");
            msg.append(e.as_str());
            return Err(msg);
        },
    };
    let limit: u64 = cap as u64 + 1;
    let raw = match inflate_limited(bytes.as_slice(), limit) {
        Ok(r) => r,
        Err(e) => {
            let mut msg = String::new();
            msg.append("STEP blob inflate failed: ");
            msg.append(e.as_str());
            return Err(msg);
        },
    };
    inflated_text(raw, cap)
}

/// Decode a persisted blob back to STEP text.
pub fn decode_step_blob(encoding: &str, data: &str) -> (res: Result<String, String>)
    ensures
        decoded_as(res, spec_decode_step_blob(encoding@, data@, MAX_INFLATED_BYTES as nat)),
{
    decode_step_blob_capped(encoding, data, MAX_INFLATED_BYTES)
}

} // verus!
