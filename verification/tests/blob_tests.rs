use waffle_format::blob::{
    decode_step_blob, decode_step_blob_capped, encode_step_blob, inflated_text,
    MAX_INFLATED_BYTES, STEP_BLOB_ENCODING,
};

#[test]
fn inflation_beyond_the_cap_is_a_loud_error_not_an_allocation() {
    // 1 MiB of zeros deflates to a few hundred bytes; a 16-byte cap
    // refuses it without inflating the whole thing.
    let text = "0".repeat(1024 * 1024);
    let blob = encode_step_blob(&text);
    let err = decode_step_blob_capped(STEP_BLOB_ENCODING, &blob, 16).unwrap_err();
    assert!(err.contains("EmbedTooLarge"), "{err}");
    // Exactly at the cap is fine.
    let small = "x".repeat(16);
    let blob = encode_step_blob(&small);
    assert_eq!(
        decode_step_blob_capped(STEP_BLOB_ENCODING, &blob, 16).unwrap(),
        small
    );
    // The default cap admits ordinary files.
    assert_eq!(decode_step_blob(STEP_BLOB_ENCODING, &blob).unwrap(), small);
}

#[test]
fn unknown_encoding_is_loud() {
    assert!(decode_step_blob("gzip", "abc").is_err());
}

#[test]
fn corrupt_data_is_loud() {
    assert!(decode_step_blob(STEP_BLOB_ENCODING, "!!!not-base64!!!").is_err());
}

const SMALL_STEP: &str = "ISO-10303-21;\nHEADER;\nENDSEC;\nDATA;\nENDSEC;\nEND-ISO-10303-21;\n";

#[test]
fn step_text_survives_encode_and_decode() {
    let blob = encode_step_blob(SMALL_STEP);
    assert_ne!(blob, SMALL_STEP, "the stored form is not the text itself");
    assert_eq!(decode_step_blob(STEP_BLOB_ENCODING, &blob).unwrap(), SMALL_STEP);
    let unicode = "NAME('Würfel — 立方体');\n";
    let blob = encode_step_blob(unicode);
    assert_eq!(decode_step_blob(STEP_BLOB_ENCODING, &blob).unwrap(), unicode);
}

#[test]
fn long_repetitive_text_is_stored_smaller() {
    let text = SMALL_STEP.repeat(200);
    let blob = encode_step_blob(&text);
    assert!(blob.len() < text.len(), "deflate should shrink repetitive STEP text");
    assert_eq!(decode_step_blob(STEP_BLOB_ENCODING, &blob).unwrap(), text);
}

#[test]
fn the_stored_form_is_deflate_then_standard_base64() {
    // The empty string deflates (default level) to the two-byte final empty
    // block `03 00`, which standard base64 writes as "AwA=".
    assert_eq!(encode_step_blob(""), "AwA=");
    assert_eq!(decode_step_blob(STEP_BLOB_ENCODING, "AwA=").unwrap(), "");
}

#[test]
fn decode_errors_say_what_failed() {
    assert_eq!(
        decode_step_blob("gzip", "abc"),
        Err("unknown STEP blob encoding 'gzip'".to_string())
    );
    let err = decode_step_blob(STEP_BLOB_ENCODING, "!!!not-base64!!!").unwrap_err();
    assert!(err.starts_with("STEP blob base64 decode failed: "), "{err}");
    // Valid base64 of bytes that are no deflate stream.
    let err = decode_step_blob(STEP_BLOB_ENCODING, "/////w==").unwrap_err();
    assert!(err.starts_with("STEP blob inflate failed: "), "{err}");
    let blob = encode_step_blob(&"y".repeat(17));
    assert_eq!(
        decode_step_blob_capped(STEP_BLOB_ENCODING, &blob, 16),
        Err("EmbedTooLarge: payload inflates beyond the 16-byte cap".to_string())
    );
}

#[test]
fn inflated_bytes_are_checked_for_size_and_utf8() {
    assert_eq!(inflated_text(b"abc".to_vec(), 3), Ok("abc".to_string()));
    assert_eq!(
        inflated_text(b"abcd".to_vec(), 3),
        Err("EmbedTooLarge: payload inflates beyond the 3-byte cap".to_string())
    );
    let err = inflated_text(vec![0x66, 0xff, 0x6f], 16).unwrap_err();
    assert!(err.starts_with("STEP blob is not UTF-8: "), "{err}");
    assert_eq!(MAX_INFLATED_BYTES, 256 * 1024 * 1024);
}
