use godot_binary_serialization::types::primitive::{
    GodotBool, GodotFloat, GodotInteger, GodotNull, GodotString,
};
use godot_binary_serialization::types::structures::{GodotDictionary, GodotVector2, GodotVector3};
use godot_binary_serialization::types::variant::{AsVariant, GodotVariant, Variant};
use godot_binary_serialization::types::{
    GodotTypeIndex, SerializeFlag, MAX_TYPE_CODE, TYPE_PADDING,
};

#[test]
fn type_codes_follow_the_registry() {
    assert_eq!(GodotTypeIndex::try_from(0), Ok(GodotTypeIndex::Nil));
    assert_eq!(GodotTypeIndex::try_from(1), Ok(GodotTypeIndex::Bool));
    assert_eq!(GodotTypeIndex::try_from(2), Ok(GodotTypeIndex::Integer));
    assert_eq!(GodotTypeIndex::try_from(3), Ok(GodotTypeIndex::Float));
    assert_eq!(GodotTypeIndex::try_from(4), Ok(GodotTypeIndex::String));
    assert_eq!(GodotTypeIndex::try_from(5), Ok(GodotTypeIndex::Vector2));
    assert_eq!(GodotTypeIndex::try_from(7), Ok(GodotTypeIndex::Vector3));
    assert_eq!(GodotTypeIndex::try_from(18), Ok(GodotTypeIndex::Dictionary));
    assert_eq!(GodotTypeIndex::try_from(6), Ok(GodotTypeIndex::Unsupported(6)));
    assert_eq!(GodotTypeIndex::try_from(9), Ok(GodotTypeIndex::Unsupported(9)));
    assert_eq!(
        GodotTypeIndex::try_from(27),
        Ok(GodotTypeIndex::Unsupported(27))
    );
    assert_eq!(
        GodotTypeIndex::try_from(MAX_TYPE_CODE),
        Ok(GodotTypeIndex::Unsupported(28))
    );
    assert_eq!(GodotTypeIndex::try_from(29), Err(()));
    assert_eq!(GodotTypeIndex::try_from(u16::MAX), Err(()));
}

#[test]
fn every_known_code_comes_back() {
    for code in 0..=MAX_TYPE_CODE {
        let tag = GodotTypeIndex::try_from(code).unwrap();
        assert_eq!(tag.code(), code);
        assert_eq!(
            tag.is_supported(),
            [0, 1, 2, 3, 4, 5, 7, 18].contains(&code)
        );
    }
}

#[test]
fn flag_codes_follow_the_registry() {
    assert_eq!(SerializeFlag::try_from(0), Ok(SerializeFlag::Bit32));
    assert_eq!(SerializeFlag::try_from(1), Ok(SerializeFlag::Bit64));
    assert_eq!(SerializeFlag::try_from(2), Err(()));
    assert_eq!(SerializeFlag::try_from(256), Err(()));
    assert_eq!(SerializeFlag::Bit32.code(), 0);
    assert_eq!(SerializeFlag::Bit64.code(), 1);
    assert_eq!(SerializeFlag::Bit32.width(), 4);
    assert_eq!(SerializeFlag::Bit64.width(), 8);
    assert_eq!(TYPE_PADDING, 4);
}

#[test]
fn constructors_record_the_length() {
    assert_eq!(GodotNull.byte_length(), 4);
    assert_eq!(GodotBool::new(true).byte_length(), 8);
    assert_eq!(GodotInteger::new_from_i32(-4).byte_length(), 8);
    assert_eq!(GodotInteger::new_from_i32(-4).value, -4);
    assert_eq!(GodotInteger::new_from_i64(-4).byte_length(), 12);
    assert_eq!(GodotFloat::new_from_f32(1).byte_length(), 8);
    assert_eq!(GodotFloat::new_from_f64(1).byte_length(), 12);
    assert_eq!(GodotVector2::new(1, 2).byte_length(), 12);
    assert_eq!(GodotVector3::new(1, 2, 3).byte_length(), 16);
    assert_eq!(GodotInteger::BIT_32_SIZE, 4);
    assert_eq!(GodotInteger::BIT_64_SIZE, 8);
    assert_eq!(GodotFloat::BIT_32_SIZE, 4);
    assert_eq!(GodotFloat::BIT_64_SIZE, 8);
    assert_eq!(GodotBool::BIT_SIZE, 4);
    assert_eq!(GodotVector2::BIT_SIZE, 8);
    assert_eq!(GodotVector3::BIT_SIZE, 12);
}

#[test]
fn string_records_its_encoded_length() {
    assert_eq!(GodotString::new("").byte_length(), 8);
    assert_eq!(GodotString::new("a").byte_length(), 12);
    assert_eq!(GodotString::new("ab").byte_length(), 12);
    assert_eq!(GodotString::new("abc").byte_length(), 12);
    assert_eq!(GodotString::new("abcd").byte_length(), 12);
    assert_eq!(GodotString::new("abcde").byte_length(), 16);
    assert_eq!(GodotString::new("bananaBlox").byte_length(), 20);
    assert_eq!(GodotString::new("é").byte_length(), 12);
    assert_eq!(GodotString::new("bananaBlox").value, "bananaBlox");
}

#[test]
fn float_bits_by_width() {
    let narrow = GodotFloat::new_from_f32(0x3f00_0000);
    assert!(!narrow.is_wide());
    assert_eq!(narrow.narrow_bits(), 0x3f00_0000);
    let wide = GodotFloat::new_from_f64(0x3fe0_0000_0000_0001);
    assert!(wide.is_wide());
    assert_eq!(wide.bits, 0x3fe0_0000_0000_0001);
    assert_eq!(wide.narrow_bits(), 1);
    let at_eight = GodotFloat {
        bits: 0xffff_ffff_0000_0002,
        byte_size: 8,
    };
    assert!(!at_eight.is_wide());
    assert_eq!(at_eight.narrow_bits(), 2);
    let at_nine = GodotFloat {
        bits: 5,
        byte_size: 9,
    };
    assert!(at_nine.is_wide());
}

#[test]
fn equality_is_by_value_within_a_kind() {
    let five = GodotInteger::new_from_i32(5);
    assert!(five.variant_eq(&Variant::Integer(GodotInteger::new_from_i64(5))));
    assert!(!five.variant_eq(&Variant::Integer(GodotInteger::new_from_i32(6))));
    assert!(!five.variant_eq(&Variant::Float(GodotFloat::new_from_f32(5))));
    assert!(!five.variant_eq(&Variant::Null(GodotNull)));

    assert!(GodotNull.variant_eq(&Variant::Null(GodotNull)));
    assert!(!GodotNull.variant_eq(&Variant::Bool(GodotBool::new(false))));

    assert!(GodotBool::new(true).variant_eq(&Variant::Bool(GodotBool::new(true))));
    assert!(!GodotBool::new(true).variant_eq(&Variant::Bool(GodotBool::new(false))));

    let text = GodotString::new("same");
    let mut relabelled = GodotString::new("same");
    relabelled.byte_size = 0;
    assert!(text.variant_eq(&Variant::String(relabelled)));
    assert!(!text.variant_eq(&Variant::String(GodotString::new("Same"))));

    assert!(GodotVector2::new(1, 2).variant_eq(&Variant::Vector2(GodotVector2::new(1, 2))));
    assert!(!GodotVector2::new(1, 2).variant_eq(&Variant::Vector2(GodotVector2::new(2, 1))));
    assert!(
        GodotVector3::new(1, 2, 3).variant_eq(&Variant::Vector3(GodotVector3::new(1, 2, 3)))
    );
    assert!(
        !GodotVector3::new(1, 2, 3).variant_eq(&Variant::Vector3(GodotVector3::new(1, 2, 4)))
    );
    assert!(
        !GodotVector3::new(1, 2, 0).variant_eq(&Variant::Vector2(GodotVector2::new(1, 2)))
    );
}

#[test]
fn float_equality_is_by_width_and_bits() {
    let half = GodotFloat::new_from_f32(0.5f32.to_bits());
    assert!(half.variant_eq(&Variant::Float(GodotFloat::new_from_f32(0.5f32.to_bits()))));
    assert!(!half.variant_eq(&Variant::Float(GodotFloat::new_from_f32(0.25f32.to_bits()))));
    assert!(!half.variant_eq(&Variant::Float(GodotFloat::new_from_f64(0.5f64.to_bits()))));
    let wide = GodotFloat::new_from_f64(0.5f64.to_bits());
    assert!(wide.variant_eq(&Variant::Float(GodotFloat::new_from_f64(0.5f64.to_bits()))));
    assert!(!wide.variant_eq(&Variant::Float(half)));
    let high_bits_ignored = GodotFloat {
        bits: 0xdead_beef_0000_0000 | 0.5f32.to_bits() as u64,
        byte_size: 8,
    };
    assert!(half.variant_eq(&Variant::Float(high_bits_ignored)));
}

#[test]
fn equal_values_have_equal_bytes() {
    let narrow = GodotInteger::new_from_i32(77);
    let wide = GodotInteger::new_from_i64(77);
    assert!(narrow.variant_eq(&Variant::Integer(wide)));
    assert_eq!(narrow.bytes(), wide.bytes());
    let a = Variant::String(GodotString::new("k"));
    let mut b = GodotString::new("k");
    b.byte_size = 1000;
    let b = Variant::String(b);
    assert!(a == b);
    assert_eq!(a.bytes(), b.bytes());
    let c = Variant::String(GodotString::new("l"));
    assert!(a != c);
    assert_ne!(a.bytes(), c.bytes());
}

#[test]
fn variants_come_back_as_what_they_hold() {
    let variant = GodotInteger::new_from_i32(3).to_variant();
    assert_eq!(variant.kind(), GodotTypeIndex::Integer);
    assert_eq!(variant.as_var::<GodotInteger>().unwrap().value, 3);
    assert!(variant.as_var::<GodotString>().is_none());
    assert!(variant.as_var::<GodotFloat>().is_none());
    assert!(variant.as_var::<GodotDictionary>().is_none());
    assert!(variant.as_var::<Variant>().is_some());
    assert_eq!(variant.byte_length(), 8);

    assert_eq!(GodotNull.to_variant().kind(), GodotTypeIndex::Nil);
    assert_eq!(GodotBool::new(true).to_variant().kind(), GodotTypeIndex::Bool);
    assert_eq!(
        GodotFloat::new_from_f64(0).to_variant().kind(),
        GodotTypeIndex::Float
    );
    assert_eq!(
        GodotString::new("s").to_variant().kind(),
        GodotTypeIndex::String
    );
    assert_eq!(
        GodotVector2::new(0, 0).to_variant().kind(),
        GodotTypeIndex::Vector2
    );
    assert_eq!(
        GodotVector3::new(0, 0, 0).to_variant().kind(),
        GodotTypeIndex::Vector3
    );
    let dictionary = GodotDictionary::new().to_variant();
    assert_eq!(dictionary.kind(), GodotTypeIndex::Dictionary);
    assert!(dictionary.as_var::<GodotDictionary>().is_some());
    assert!(!dictionary.is_null());
}

fn assert_send_and_sync<T: Send + Sync>() {}

#[test]
fn variants_can_cross_threads() {
    assert_send_and_sync::<Variant>();
    assert_send_and_sync::<GodotDictionary>();
    assert_send_and_sync::<GodotString>();
}

#[test]
fn equal_variants_are_one_key_of_a_hash_map() {
    let mut map: std::collections::HashMap<Variant, i32> = std::collections::HashMap::new();
    map.insert(Variant::Integer(GodotInteger::new_from_i32(5)), 1);
    map.insert(Variant::Integer(GodotInteger::new_from_i64(5)), 2);
    map.insert(Variant::String(GodotString::new("5")), 3);
    let mut relabelled = GodotString::new("5");
    relabelled.byte_size = 0;
    map.insert(Variant::String(relabelled), 4);
    map.insert(Variant::Float(GodotFloat::new_from_f32(5)), 5);
    map.insert(Variant::Float(GodotFloat::new_from_f64(5)), 6);
    assert_eq!(map.len(), 4);
    assert_eq!(map[&Variant::Integer(GodotInteger::new_from_i32(5))], 2);
    assert_eq!(map[&Variant::String(GodotString::new("5"))], 4);
    assert_eq!(map[&Variant::Float(GodotFloat::new_from_f32(5))], 5);
    assert_eq!(map[&Variant::Float(GodotFloat::new_from_f64(5))], 6);
    assert!(!map.contains_key(&Variant::Integer(GodotInteger::new_from_i32(6))));
}

#[test]
fn the_kind_of_each_concrete_type() {
    assert_eq!(GodotNull.kind(), GodotTypeIndex::Nil);
    assert_eq!(GodotBool::new(false).kind(), GodotTypeIndex::Bool);
    assert_eq!(GodotInteger::new_from_i32(0).kind(), GodotTypeIndex::Integer);
    assert_eq!(GodotFloat::new_from_f32(0).kind(), GodotTypeIndex::Float);
    assert_eq!(GodotString::new("").kind(), GodotTypeIndex::String);
    assert_eq!(GodotVector2::new(0, 0).kind(), GodotTypeIndex::Vector2);
    assert_eq!(GodotVector3::new(0, 0, 0).kind(), GodotTypeIndex::Vector3);
    assert_eq!(GodotDictionary::new().kind(), GodotTypeIndex::Dictionary);
}
