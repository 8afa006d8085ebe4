use azimuth::attachments::{attachment_bytes, decode_attachment, DecodeFailure};

#[test]
fn base64_is_decoded() {
    assert_eq!(decode_attachment("aGVsbG8gd29ybGQ="), Ok(b"hello world".to_vec()));
    assert_eq!(decode_attachment(""), Ok(Vec::new()));
    assert_eq!(decode_attachment("AAEC/w=="), Ok(vec![0, 1, 2, 255]));
}

#[test]
fn text_that_is_no_base64_is_reported() {
    assert_eq!(
        decode_attachment("aGVsbG8*"),
        Err("Invalid symbol 42, offset 7.".to_string())
    );
    assert_eq!(decode_attachment("aGVsbG8"), Err("Invalid padding".to_string()));
    assert_eq!(decode_attachment("a"), Err("Invalid input length: 1".to_string()));
    assert_eq!(
        decode_attachment("aGVsbG9="),
        Err("Invalid last symbol 57, offset 6.".to_string())
    );
}

#[test]
fn failures_are_worded_as_the_decoder_words_them() {
    assert_eq!(DecodeFailure::InvalidByte(7, 42).message(), "Invalid symbol 42, offset 7.");
    assert_eq!(DecodeFailure::InvalidLength(13).message(), "Invalid input length: 13");
    assert_eq!(
        DecodeFailure::InvalidLastSymbol(0, 255).message(),
        "Invalid last symbol 255, offset 0."
    );
    assert_eq!(DecodeFailure::InvalidPadding.message(), "Invalid padding");
    assert_eq!(
        DecodeFailure::InvalidByte(7, 42).message(),
        base64::DecodeError::InvalidByte(7, 42).to_string()
    );
    assert_eq!(
        DecodeFailure::InvalidLength(13).message(),
        base64::DecodeError::InvalidLength(13).to_string()
    );
    assert_eq!(
        DecodeFailure::InvalidLastSymbol(0, 255).message(),
        base64::DecodeError::InvalidLastSymbol(0, 255).to_string()
    );
    assert_eq!(
        DecodeFailure::InvalidPadding.message(),
        base64::DecodeError::InvalidPadding.to_string()
    );
}

#[test]
fn decoded_bytes_are_handed_on() {
    assert_eq!(attachment_bytes(Ok(vec![1, 2])), Ok(vec![1, 2]));
    assert_eq!(
        attachment_bytes(Err(DecodeFailure::InvalidPadding)),
        Err("Invalid padding".to_string())
    );
}
