use godot_binary_serialization::decoder::Decoder;
use godot_binary_serialization::encoder::Encoder;
use godot_binary_serialization::types::primitive::{
    GodotBool, GodotFloat, GodotInteger, GodotNull, GodotString,
};
use godot_binary_serialization::types::structures::{GodotDictionary, GodotVector2, GodotVector3};
use godot_binary_serialization::types::variant::{AsVariant, GodotVariant, Variant};

fn samples() -> Vec<Variant> {
    let mut inner = GodotDictionary::new();
    inner.insert(GodotString::new("banana"), GodotInteger::new_from_i32(23));
    inner.insert(
        GodotVector2::new(1.5f32.to_bits(), (-2.0f32).to_bits()),
        GodotFloat::new_from_f64(0.64f64.to_bits()),
    );
    let mut outer = GodotDictionary::new();
    outer.insert(GodotString::new("data"), inner);
    outer.insert(GodotInteger::new_from_i64(1 << 40), GodotBool::new(true));
    outer.insert(GodotBool::new(false), GodotNull);
    vec![
        Variant::Null(GodotNull),
        Variant::Bool(GodotBool::new(true)),
        Variant::Bool(GodotBool::new(false)),
        Variant::Integer(GodotInteger::new_from_i32(592)),
        Variant::Integer(GodotInteger::new_from_i32(-1)),
        Variant::Integer(GodotInteger::new_from_i64(i32::MAX as i64)),
        Variant::Integer(GodotInteger::new_from_i64(i32::MAX as i64 + 1)),
        Variant::Integer(GodotInteger::new_from_i64(i32::MIN as i64)),
        Variant::Integer(GodotInteger::new_from_i64(i32::MIN as i64 - 1)),
        Variant::Integer(GodotInteger::new_from_i64(i64::MAX)),
        Variant::Integer(GodotInteger::new_from_i64(i64::MIN)),
        Variant::Float(GodotFloat::new_from_f32(0.52f32.to_bits())),
        Variant::Float(GodotFloat::new_from_f32(f32::NAN.to_bits())),
        Variant::Float(GodotFloat::new_from_f64(0.59243245345643f64.to_bits())),
        Variant::Float(GodotFloat::new_from_f64((-0.0f64).to_bits())),
        Variant::String(GodotString::new("")),
        Variant::String(GodotString::new("a")),
        Variant::String(GodotString::new("ab")),
        Variant::String(GodotString::new("abc")),
        Variant::String(GodotString::new("bananaBlox")),
        Variant::String(GodotString::new("héllo wörld ✓")),
        Variant::Vector2(GodotVector2::new(52.0f32.to_bits(), 68421.0f32.to_bits())),
        Variant::Vector3(GodotVector3::new(
            52.0f32.to_bits(),
            68421.0f32.to_bits(),
            582382.0f32.to_bits(),
        )),
        Variant::Dictionary(GodotDictionary::new()),
        Variant::Dictionary(outer),
    ]
}

#[test]
fn round_trip_of_the_layout_examples() {
    let examples: Vec<Vec<u8>> = vec![
        vec![0, 0, 0, 0],
        vec![1, 0, 0, 0, 1, 0, 0, 0],
        vec![2, 0, 0, 0, 80, 2, 0, 0],
        vec![2, 0, 1, 0, 107, 27, 152, 164, 225, 53, 0, 0],
        vec![2, 0, 1, 0, 0, 0, 0, 128, 0, 0, 0, 0],
        vec![3, 0, 0, 0, 184, 30, 5, 63],
        vec![3, 0, 1, 0, 174, 230, 149, 231, 52, 245, 226, 63],
        vec![
            4, 0, 0, 0, 10, 0, 0, 0, 98, 97, 110, 97, 110, 97, 66, 108, 111, 120, 0, 0,
        ],
        vec![5, 0, 0, 0, 0, 0, 80, 66, 128, 162, 133, 71],
        vec![7, 0, 0, 0, 0, 0, 80, 66, 128, 162, 133, 71, 224, 46, 14, 73],
        vec![
            18, 0, 0, 0, 2, 0, 0, 0, 4, 0, 0, 0, 8, 0, 0, 0, 112, 111, 115, 105, 116, 105, 111,
            110, 7, 0, 0, 0, 184, 30, 5, 63, 0, 0, 251, 67, 0, 0, 136, 66, 4, 0, 0, 0, 2, 0, 0, 0,
            105, 100, 0, 0, 2, 0, 0, 0, 181, 2, 0, 0,
        ],
    ];
    for bytes in examples {
        let decoded = Decoder::decode_variant(&bytes).unwrap();
        assert_eq!(decoded.byte_length(), bytes.len());
        assert_eq!(Encoder::encode_variant(&decoded).unwrap(), bytes);
    }
}

#[test]
fn round_trip_of_built_values() {
    for value in samples() {
        let bytes = Encoder::encode_variant(&value).unwrap();
        let decoded = Decoder::decode_variant(&bytes).unwrap();
        assert!(decoded.variant_eq(&value), "{:?} came back as {:?}", value, decoded);
        assert_eq!(decoded.byte_length(), bytes.len());
        assert_eq!(Encoder::encode_variant(&decoded).unwrap(), bytes);
    }
}

#[test]
fn integer_decoded_wide_is_encoded_narrow_where_it_fits() {
    let bytes = [2, 0, 1, 0, 5, 0, 0, 0, 0, 0, 0, 0];
    let decoded = Decoder::decode_variant(&bytes).unwrap();
    assert_eq!(decoded.byte_length(), 12);
    assert_eq!(decoded.as_var::<GodotInteger>().unwrap().value, 5);
    let again = Encoder::encode_variant(&decoded).unwrap();
    assert_eq!(again, vec![2, 0, 0, 0, 5, 0, 0, 0]);
    let redecoded = Decoder::decode_variant(&again).unwrap();
    assert!(redecoded.variant_eq(&decoded));
}

#[test]
fn sequential_decoding_advances_by_the_consumed_length() {
    let values = samples();
    for first in values.iter() {
        for second in values.iter() {
            let first_bytes = Encoder::encode_variant(first).unwrap();
            let second_bytes = Encoder::encode_variant(second).unwrap();
            let mut both = first_bytes.clone();
            both.extend_from_slice(&second_bytes);

            let a = Decoder::decode_variant(&both).unwrap();
            assert_eq!(a.byte_length(), first_bytes.len());
            let b = Decoder::decode_variant(&both[a.byte_length()..]).unwrap();
            assert_eq!(b.byte_length(), second_bytes.len());

            let alone_a = Decoder::decode_variant(&first_bytes).unwrap();
            let alone_b = Decoder::decode_variant(&second_bytes).unwrap();
            assert!(a.variant_eq(&alone_a));
            assert!(b.variant_eq(&alone_b));
            assert_eq!(a.byte_length(), alone_a.byte_length());
            assert_eq!(b.byte_length(), alone_b.byte_length());
        }
    }
}

#[test]
fn decoding_is_idempotent() {
    let buffers: Vec<Vec<u8>> = vec![
        vec![2, 0, 1, 0, 5, 0, 0, 0, 0, 0, 0, 0],
        vec![2, 0, 9, 0, 5, 0, 0, 0],
        vec![1, 0, 1, 0, 9, 0, 0, 0],
        vec![4, 0, 1, 0, 1, 0, 0, 0, 97, 1, 2, 3],
        vec![0, 0, 1, 0],
        vec![5, 0, 1, 0, 1, 0, 0, 0, 2, 0, 0, 0],
        vec![
            18, 0, 1, 0, 3, 0, 0, 0, 0, 0, 0, 0, 2, 0, 0, 0, 7, 0, 0, 0, 2, 0, 1, 0, 1, 0, 0, 0,
            0, 0, 0, 0, 1, 0, 0, 0, 1, 0, 0, 0, 2, 0, 0, 0, 1, 0, 0, 0, 2, 0, 0, 0, 9, 0, 0, 0,
        ],
    ];
    for bytes in buffers {
        let decoded = Decoder::decode_variant(&bytes).unwrap();
        let encoded = Encoder::encode_variant(&decoded).unwrap();
        let again = Decoder::decode_variant(&encoded).unwrap();
        assert!(again.variant_eq(&decoded));
        assert_eq!(again.byte_length(), encoded.len());
        assert_eq!(Encoder::encode_variant(&again).unwrap(), encoded);
    }
}

#[test]
fn decoding_reads_only_the_value() {
    for value in samples() {
        let bytes = Encoder::encode_variant(&value).unwrap();
        let mut longer = bytes.clone();
        longer.extend_from_slice(&[255, 254, 253, 252, 251]);
        let decoded = Decoder::decode_variant(&longer).unwrap();
        assert!(decoded.variant_eq(&value));
        assert_eq!(decoded.byte_length(), bytes.len());
        if bytes.len() > 4 {
            assert!(Decoder::decode_variant(&bytes[..bytes.len() - 1]).is_err());
        }
    }
}

#[test]
fn different_values_have_different_bytes() {
    let values = samples();
    for (i, a) in values.iter().enumerate() {
        for (j, b) in values.iter().enumerate() {
            let same_bytes = a.bytes() == b.bytes();
            assert_eq!(same_bytes, a.variant_eq(b));
            assert_eq!(same_bytes, i == j);
        }
    }
}

#[test]
fn string_lengths_are_multiples_of_four() {
    let mut text = String::new();
    for n in 0..40usize {
        let bytes = Encoder::encode_str(&text);
        let pad = [0, 3, 2, 1][n % 4];
        assert_eq!(bytes.len(), 8 + n + pad);
        assert_eq!(bytes.len() % 4, 0);
        assert_eq!(&bytes[4..8], &(n as u32).to_le_bytes());
        assert!(bytes[8 + n..].iter().all(|b| *b == 0));
        let decoded = Decoder::decode_string(&bytes).unwrap();
        assert_eq!(decoded.value, text);
        assert_eq!(decoded.byte_length(), bytes.len());
        assert_eq!(GodotString::new(&text).byte_length(), bytes.len());
        text.push('x');
    }
}
