use godot_binary_serialization::decoder::Decoder;
use godot_binary_serialization::error::CodecError;
use godot_binary_serialization::types::SerializeFlag;

#[test]
fn empty_buffer_is_truncated() {
    assert_eq!(
        Decoder::decode_variant(&[]).unwrap_err(),
        CodecError::TruncatedBuffer
    );
    assert_eq!(
        Decoder::get_type_and_flags(&[]),
        Err(CodecError::TruncatedBuffer)
    );
}

#[test]
fn buffer_shorter_than_the_header_is_truncated() {
    assert_eq!(
        Decoder::decode_variant(&[2, 0, 0]).unwrap_err(),
        CodecError::TruncatedBuffer
    );
    assert_eq!(
        Decoder::get_type_and_flags(&[99, 0, 0]),
        Err(CodecError::TruncatedBuffer)
    );
}

#[test]
fn buffer_shorter_than_the_payload_is_truncated() {
    assert_eq!(
        Decoder::decode_variant(&[1, 0, 0, 0, 1, 0, 0]).unwrap_err(),
        CodecError::TruncatedBuffer
    );
    assert_eq!(
        Decoder::decode_variant(&[2, 0, 0, 0, 1, 0, 0]).unwrap_err(),
        CodecError::TruncatedBuffer
    );
    assert_eq!(
        Decoder::decode_variant(&[2, 0, 1, 0, 1, 0, 0, 0, 0, 0, 0]).unwrap_err(),
        CodecError::TruncatedBuffer
    );
    assert_eq!(
        Decoder::decode_variant(&[3, 0, 1, 0, 1, 0, 0, 0]).unwrap_err(),
        CodecError::TruncatedBuffer
    );
    assert_eq!(
        Decoder::decode_variant(&[5, 0, 0, 0, 1, 0, 0, 0, 0, 0, 0]).unwrap_err(),
        CodecError::TruncatedBuffer
    );
    assert_eq!(
        Decoder::decode_variant(&[7, 0, 0, 0, 1, 0, 0, 0, 0, 0, 0, 0, 0, 0, 0]).unwrap_err(),
        CodecError::TruncatedBuffer
    );
    assert_eq!(
        Decoder::decode_variant(&[18, 0, 0, 0, 0, 0, 0]).unwrap_err(),
        CodecError::TruncatedBuffer
    );
}

#[test]
fn vector_shorter_than_its_components_is_truncated() {
    assert_eq!(
        Decoder::decode_vector2(&[5, 0, 0, 0, 0, 0, 134, 66]).unwrap_err(),
        CodecError::TruncatedBuffer
    );
    assert_eq!(
        Decoder::decode_vector3(&[7, 0, 0, 0, 0, 0, 134, 66, 0, 31, 94, 71]).unwrap_err(),
        CodecError::TruncatedBuffer
    );
}

#[test]
fn string_shorter_than_its_length_or_padding_is_truncated() {
    assert_eq!(
        Decoder::decode_string(&[4, 0, 0, 0, 2, 0, 0]).unwrap_err(),
        CodecError::TruncatedBuffer
    );
    assert_eq!(
        Decoder::decode_string(&[4, 0, 0, 0, 2, 0, 0, 0, 97]).unwrap_err(),
        CodecError::TruncatedBuffer
    );
    assert_eq!(
        Decoder::decode_string(&[4, 0, 0, 0, 2, 0, 0, 0, 97, 98, 0]).unwrap_err(),
        CodecError::TruncatedBuffer
    );
    assert_eq!(
        Decoder::decode_string(&[4, 0, 0, 0, 255, 255, 255, 255, 97, 98, 0, 0]).unwrap_err(),
        CodecError::TruncatedBuffer
    );
}

#[test]
fn raw_payload_past_the_end_is_truncated() {
    let bytes = [2, 0, 0, 0, 1, 0, 0, 0, 2, 0];
    assert_eq!(
        Decoder::decode_raw_int(&bytes, 7, &SerializeFlag::Bit32).unwrap_err(),
        CodecError::TruncatedBuffer
    );
    assert_eq!(
        Decoder::decode_raw_int(&bytes, usize::MAX, &SerializeFlag::Bit32).unwrap_err(),
        CodecError::TruncatedBuffer
    );
    assert_eq!(
        Decoder::decode_raw_float(&bytes, 4, &SerializeFlag::Bit64).unwrap_err(),
        CodecError::TruncatedBuffer
    );
    assert_eq!(
        Decoder::decode_raw_int(&bytes, 6, &SerializeFlag::Bit32).unwrap().value,
        0x0002_0000
    );
}

#[test]
fn unknown_type_code_is_unsupported() {
    assert_eq!(
        Decoder::decode_variant(&[29, 0, 0, 0, 0, 0, 0, 0]).unwrap_err(),
        CodecError::UnsupportedType
    );
    assert_eq!(
        Decoder::decode_variant(&[0, 1, 0, 0]).unwrap_err(),
        CodecError::UnsupportedType
    );
    assert_eq!(
        Decoder::get_type_and_flags(&[255, 255, 0, 0]),
        Err(CodecError::UnsupportedType)
    );
}

#[test]
fn kind_that_the_codec_lacks_is_unsupported() {
    for code in [6u8, 8, 9, 17, 19, 27, 28] {
        assert_eq!(
            Decoder::decode_variant(&[code, 0, 0, 0, 0, 0, 0, 0, 0, 0, 0, 0]).unwrap_err(),
            CodecError::UnsupportedType
        );
    }
}

#[test]
fn string_that_is_not_utf8_is_invalid_text() {
    assert_eq!(
        Decoder::decode_variant(&[4, 0, 0, 0, 1, 0, 0, 0, 0xff, 0, 0, 0]).unwrap_err(),
        CodecError::InvalidText
    );
    assert_eq!(
        Decoder::decode_string(&[4, 0, 0, 0, 2, 0, 0, 0, 0xc3, 0x28, 0, 0]).unwrap_err(),
        CodecError::InvalidText
    );
    assert_eq!(
        Decoder::decode_string(&[4, 0, 0, 0, 3, 0, 0, 0, 0xed, 0xa0, 0x80, 0]).unwrap_err(),
        CodecError::InvalidText
    );
}

#[test]
fn truncation_is_reported_before_invalid_text() {
    assert_eq!(
        Decoder::decode_string(&[4, 0, 0, 0, 1, 0, 0, 0, 0xff, 0, 0]).unwrap_err(),
        CodecError::TruncatedBuffer
    );
}

#[test]
fn a_failure_inside_a_dictionary_fails_the_dictionary() {
    let truncated_value = [
        18, 0, 0, 0, 1, 0, 0, 0, 2, 0, 0, 0, 1, 0, 0, 0, 2, 0, 0, 0, 1, 0,
    ];
    assert_eq!(
        Decoder::decode_variant(&truncated_value).unwrap_err(),
        CodecError::TruncatedBuffer
    );
    let missing_pair = [18, 0, 0, 0, 2, 0, 0, 0, 2, 0, 0, 0, 1, 0, 0, 0, 2, 0, 0, 0, 1, 0, 0, 0];
    assert_eq!(
        Decoder::decode_variant(&missing_pair).unwrap_err(),
        CodecError::TruncatedBuffer
    );
    let unsupported_key = [
        18, 0, 0, 0, 1, 0, 0, 0, 20, 0, 0, 0, 1, 0, 0, 0, 2, 0, 0, 0, 1, 0, 0, 0,
    ];
    assert_eq!(
        Decoder::decode_variant(&unsupported_key).unwrap_err(),
        CodecError::UnsupportedType
    );
    let bad_text_under_null_key = [
        18, 0, 0, 0, 1, 0, 0, 0, 0, 0, 0, 0, 4, 0, 0, 0, 1, 0, 0, 0, 0x80, 0, 0, 0,
    ];
    assert_eq!(
        Decoder::decode_variant(&bad_text_under_null_key).unwrap_err(),
        CodecError::InvalidText
    );
    let nested = [
        18, 0, 0, 0, 1, 0, 0, 0, 2, 0, 0, 0, 1, 0, 0, 0, 18, 0, 0, 0, 1, 0, 0, 0, 2, 0, 0, 0, 1,
        0, 0, 0, 33, 0, 0, 0,
    ];
    assert_eq!(
        Decoder::decode_variant(&nested).unwrap_err(),
        CodecError::UnsupportedType
    );
}

#[test]
fn every_error_has_a_message() {
    let all = [
        CodecError::TruncatedBuffer,
        CodecError::UnsupportedType,
        CodecError::InvalidText,
        CodecError::UnsupportedVariant,
    ];
    for (i, a) in all.iter().enumerate() {
        assert!(!a.message().is_empty());
        for b in all.iter().skip(i + 1) {
            assert_ne!(a.message(), b.message());
        }
    }
    assert_eq!(CodecError::UnsupportedType.message(), "unsupported type index");
}
