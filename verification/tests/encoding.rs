use godot_binary_serialization::encoder::Encoder;
use godot_binary_serialization::types::primitive::{
    GodotBool, GodotFloat, GodotInteger, GodotNull, GodotString,
};
use godot_binary_serialization::types::structures::{GodotDictionary, GodotVector2, GodotVector3};
use godot_binary_serialization::types::variant::{GodotVariant, Variant};

#[test]
fn encode_dictionary() {
    let expected_bytes = [
        18, 0, 0, 0, 2, 0, 0, 0, 4, 0, 0, 0, 8, 0, 0, 0, 112, 111, 115, 105, 116, 105, 111, 110, 7,
        0, 0, 0, 184, 30, 5, 63, 0, 0, 251, 67, 0, 0, 136, 66, 4, 0, 0, 0, 2, 0, 0, 0, 105, 100, 0,
        0, 2, 0, 0, 0, 181, 2, 0, 0,
    ]
    .to_vec();

    let mut dict = GodotDictionary::new();
    dict.insert(
        GodotString::new("position"),
        GodotVector3::new(0.52f32.to_bits(), 502.0f32.to_bits(), 68.0f32.to_bits()),
    );
    dict.insert(GodotString::new("id"), GodotInteger::new_from_i32(693));

    let bytes = Encoder::encode_dictionary(&dict).unwrap();
    assert_eq!(
        expected_bytes, bytes,
        "Expected {:?} but got {:?}",
        expected_bytes, bytes
    );
}

#[test]
fn encode_f64() {
    let expected_bytes = [3, 0, 1, 0, 174, 230, 149, 231, 52, 245, 226, 63].to_vec();
    let value = GodotFloat::new_from_f64(0.59243245345643f64.to_bits());
    let bytes = Encoder::encode_float(&value).unwrap();

    assert_eq!(
        expected_bytes, bytes,
        "Expected {:?} but got {:?}",
        expected_bytes, bytes
    );
}

#[test]
fn encode_int32() {
    let expected_bytes = [2, 0, 0, 0, 80, 2, 0, 0].to_vec();
    let value = GodotInteger::new_from_i32(592);
    let bytes = Encoder::encode_int(&value).unwrap();

    assert_eq!(
        expected_bytes, bytes,
        "Expected {:?} but got {:?}",
        expected_bytes, bytes
    );
}

#[test]
fn encode_int64() {
    let expected_bytes = [2, 0, 1, 0, 107, 27, 152, 164, 225, 53, 0, 0].to_vec();
    let value = GodotInteger::new_from_i64(59243245345643);
    let bytes = Encoder::encode_int(&value).unwrap();

    assert_eq!(
        expected_bytes, bytes,
        "Expected {:?} but got {:?}",
        expected_bytes, bytes
    );
}

#[test]
fn encode_string() {
    let expected_bytes = [
        4, 0, 0, 0, 10, 0, 0, 0, 98, 97, 110, 97, 110, 97, 66, 108, 111, 120, 0, 0,
    ]
    .to_vec();
    let value = GodotString::new("bananaBlox");
    let bytes = Encoder::encode_string(&value).unwrap();

    assert_eq!(
        expected_bytes, bytes,
        "Expected {:?} but got {:?}",
        expected_bytes, bytes
    );
}

#[test]
fn encode_vector2() {
    let expected_bytes = [5, 0, 0, 0, 0, 0, 80, 66, 128, 162, 133, 71].to_vec();
    let value = GodotVector2::new(52.0f32.to_bits(), 68421.0f32.to_bits());
    let bytes = Encoder::encode_vector2(&value).unwrap();

    assert_eq!(
        expected_bytes, bytes,
        "Expected {:?} but got {:?}",
        expected_bytes, bytes
    );
}

#[test]
fn encode_vector3() {
    let expected_bytes = [7, 0, 0, 0, 0, 0, 80, 66, 128, 162, 133, 71, 224, 46, 14, 73].to_vec();
    let value = GodotVector3::new(52.0f32.to_bits(), 68421.0f32.to_bits(), 582382.0f32.to_bits());
    let bytes = Encoder::encode_vector3(&value).unwrap();

    assert_eq!(
        expected_bytes, bytes,
        "Expected {:?} but got {:?}",
        expected_bytes, bytes
    );
}

#[test]
fn encode_null_is_the_header_alone() {
    assert_eq!(Encoder::encode_null(), vec![0, 0, 0, 0]);
    assert_eq!(
        Encoder::encode_variant(&Variant::Null(GodotNull)).unwrap(),
        vec![0, 0, 0, 0]
    );
    assert_eq!(GodotNull.bytes(), vec![0, 0, 0, 0]);
}

#[test]
fn encode_bool_true_and_false() {
    assert_eq!(Encoder::encode_raw_bool(true), vec![1, 0, 0, 0, 1, 0, 0, 0]);
    assert_eq!(Encoder::encode_raw_bool(false), vec![1, 0, 0, 0, 0, 0, 0, 0]);
    assert_eq!(
        Encoder::encode_bool(&GodotBool::new(true)).unwrap(),
        vec![1, 0, 0, 0, 1, 0, 0, 0]
    );
}

#[test]
fn encode_int_at_the_32_bit_boundaries() {
    let max = Encoder::encode_int(&GodotInteger::new_from_i64(i32::MAX as i64)).unwrap();
    assert_eq!(max, vec![2, 0, 0, 0, 255, 255, 255, 127]);
    let min = Encoder::encode_int(&GodotInteger::new_from_i64(i32::MIN as i64)).unwrap();
    assert_eq!(min, vec![2, 0, 0, 0, 0, 0, 0, 128]);
    let above = Encoder::encode_int(&GodotInteger::new_from_i64(i32::MAX as i64 + 1)).unwrap();
    assert_eq!(above, vec![2, 0, 1, 0, 0, 0, 0, 128, 0, 0, 0, 0]);
    let below = Encoder::encode_int(&GodotInteger::new_from_i64(i32::MIN as i64 - 1)).unwrap();
    assert_eq!(
        below,
        vec![2, 0, 1, 0, 255, 255, 255, 127, 255, 255, 255, 255]
    );
}

#[test]
fn encode_int_width_follows_the_number_not_the_variant() {
    let wide_small = GodotInteger::new_from_i64(5);
    assert_eq!(wide_small.byte_length(), 12);
    assert_eq!(
        Encoder::encode_int(&wide_small).unwrap(),
        vec![2, 0, 0, 0, 5, 0, 0, 0]
    );
}

#[test]
fn encode_negative_integers() {
    assert_eq!(Encoder::encode_int32(-1), vec![2, 0, 0, 0, 255, 255, 255, 255]);
    assert_eq!(
        Encoder::encode_int64(-2),
        vec![2, 0, 1, 0, 254, 255, 255, 255, 255, 255, 255, 255]
    );
    assert_eq!(
        Encoder::encode_int64(i64::MIN),
        vec![2, 0, 1, 0, 0, 0, 0, 0, 0, 0, 0, 128]
    );
}

#[test]
fn encode_float_width_follows_the_variant() {
    let narrow = GodotFloat::new_from_f32(0.5f32.to_bits());
    assert_eq!(
        Encoder::encode_float(&narrow).unwrap(),
        vec![3, 0, 0, 0, 0, 0, 0, 63]
    );
    assert_eq!(Encoder::encode_f32(0.5f32.to_bits()), vec![3, 0, 0, 0, 0, 0, 0, 63]);
    let wide = GodotFloat::new_from_f64(0.5f64.to_bits());
    assert_eq!(
        Encoder::encode_float(&wide).unwrap(),
        vec![3, 0, 1, 0, 0, 0, 0, 0, 0, 0, 224, 63]
    );
    assert_eq!(
        Encoder::encode_f64(0.5f64.to_bits()),
        vec![3, 0, 1, 0, 0, 0, 0, 0, 0, 0, 224, 63]
    );
    let by_hand = GodotFloat {
        bits: 0.5f32.to_bits() as u64,
        byte_size: 0,
    };
    assert_eq!(
        Encoder::encode_float(&by_hand).unwrap(),
        vec![3, 0, 0, 0, 0, 0, 0, 63]
    );
}

#[test]
fn encode_string_padding_for_each_remainder() {
    assert_eq!(Encoder::encode_str(""), vec![4, 0, 0, 0, 0, 0, 0, 0]);
    assert_eq!(
        Encoder::encode_str("a"),
        vec![4, 0, 0, 0, 1, 0, 0, 0, 97, 0, 0, 0]
    );
    assert_eq!(
        Encoder::encode_str("ab"),
        vec![4, 0, 0, 0, 2, 0, 0, 0, 97, 98, 0, 0]
    );
    assert_eq!(
        Encoder::encode_str("abc"),
        vec![4, 0, 0, 0, 3, 0, 0, 0, 97, 98, 99, 0]
    );
    assert_eq!(
        Encoder::encode_str("abcd"),
        vec![4, 0, 0, 0, 4, 0, 0, 0, 97, 98, 99, 100]
    );
    assert_eq!(
        Encoder::encode_owned_string("abcde".to_owned()),
        vec![4, 0, 0, 0, 5, 0, 0, 0, 97, 98, 99, 100, 101, 0, 0, 0]
    );
}

#[test]
fn encode_string_counts_bytes_not_characters() {
    assert_eq!(
        Encoder::encode_str("é"),
        vec![4, 0, 0, 0, 2, 0, 0, 0, 0xc3, 0xa9, 0, 0]
    );
}

#[test]
fn encode_empty_dictionary() {
    let dict = GodotDictionary::new();
    assert_eq!(
        Encoder::encode_dictionary(&dict).unwrap(),
        vec![18, 0, 0, 0, 0, 0, 0, 0]
    );
}

#[test]
fn encode_nested_dictionary_in_insertion_order() {
    let mut inner = GodotDictionary::new();
    inner.insert(GodotInteger::new_from_i32(2), GodotBool::new(true));
    inner.insert(GodotInteger::new_from_i32(1), GodotNull);
    let mut outer = GodotDictionary::new();
    outer.insert(GodotString::new("in"), inner);
    let bytes = Encoder::encode_variant(&Variant::Dictionary(outer)).unwrap();
    assert_eq!(
        bytes,
        vec![
            18, 0, 0, 0, 1, 0, 0, 0, 4, 0, 0, 0, 2, 0, 0, 0, 105, 110, 0, 0, 18, 0, 0, 0, 2, 0, 0,
            0, 2, 0, 0, 0, 2, 0, 0, 0, 1, 0, 0, 0, 1, 0, 0, 0, 2, 0, 0, 0, 1, 0, 0, 0, 0, 0, 0, 0,
        ]
    );
}

#[test]
fn bytes_of_a_variant_are_its_encoding() {
    let value = GodotInteger::new_from_i32(592);
    assert_eq!(value.bytes(), vec![2, 0, 0, 0, 80, 2, 0, 0]);
    assert_eq!(
        GodotString::new("id").bytes(),
        vec![4, 0, 0, 0, 2, 0, 0, 0, 105, 100, 0, 0]
    );
    assert_eq!(
        GodotVector2::new(1, 2).to_variant().bytes(),
        vec![5, 0, 0, 0, 1, 0, 0, 0, 2, 0, 0, 0]
    );
}
