use rison::{to_string, Error, Serializer, Value};

fn encode(value: Value) -> String {
    to_string(&value).unwrap()
}

fn f64_value(f: f64) -> Value {
    Value::F64 { bits64: f.to_bits(), shortest: ryu::Buffer::new().format(f).to_owned() }
}

fn f32_value(f: f32) -> Value {
    Value::F32 { bits32: f.to_bits(), shortest: ryu::Buffer::new().format(f).to_owned() }
}

#[test]
fn encodes_true() {
    assert_eq!(encode(Value::Bool(true)), "!t");
}

#[test]
fn encodes_false() {
    assert_eq!(encode(Value::Bool(false)), "!f");
}

#[test]
fn encodes_negative_i32() {
    assert_eq!(encode(Value::I32(-7)), "-7");
}

#[test]
fn encodes_zero_in_every_width() {
    assert_eq!(encode(Value::I8(0)), "0");
    assert_eq!(encode(Value::I16(0)), "0");
    assert_eq!(encode(Value::I32(0)), "0");
    assert_eq!(encode(Value::I64(0)), "0");
    assert_eq!(encode(Value::I128(0)), "0");
    assert_eq!(encode(Value::U8(0)), "0");
    assert_eq!(encode(Value::U16(0)), "0");
    assert_eq!(encode(Value::U32(0)), "0");
    assert_eq!(encode(Value::U64(0)), "0");
    assert_eq!(encode(Value::U128(0)), "0");
}

#[test]
fn encodes_signed_limits() {
    assert_eq!(encode(Value::I8(i8::MIN)), "-128");
    assert_eq!(encode(Value::I8(i8::MAX)), "127");
    assert_eq!(encode(Value::I16(i16::MIN)), "-32768");
    assert_eq!(encode(Value::I16(i16::MAX)), "32767");
    assert_eq!(encode(Value::I32(i32::MIN)), "-2147483648");
    assert_eq!(encode(Value::I32(i32::MAX)), "2147483647");
    assert_eq!(encode(Value::I64(i64::MIN)), "-9223372036854775808");
    assert_eq!(encode(Value::I64(i64::MAX)), "9223372036854775807");
    assert_eq!(encode(Value::I128(i128::MIN)), "-170141183460469231731687303715884105728");
    assert_eq!(encode(Value::I128(i128::MAX)), "170141183460469231731687303715884105727");
}

#[test]
fn encodes_unsigned_limits() {
    assert_eq!(encode(Value::U8(u8::MAX)), "255");
    assert_eq!(encode(Value::U16(u16::MAX)), "65535");
    assert_eq!(encode(Value::U32(u32::MAX)), "4294967295");
    assert_eq!(encode(Value::U64(u64::MAX)), "18446744073709551615");
    assert_eq!(encode(Value::U128(u128::MAX)), "340282366920938463463374607431768211455");
}

#[test]
fn integers_have_no_leading_zeros() {
    assert_eq!(encode(Value::U32(1000)), "1000");
    assert_eq!(encode(Value::I64(-100200)), "-100200");
    assert_eq!(encode(Value::U8(7)), "7");
}

#[test]
fn integers_agree_with_std_formatting() {
    let samples: [i128; 9] = [0, 1, -1, 9, 10, -10, 99, 12345678901234567890, -98765432109876543210];
    for n in samples {
        assert_eq!(encode(Value::I128(n)), format!("{}", n));
    }
}

#[test]
fn encodes_finite_floats() {
    assert_eq!(encode(f64_value(1.5)), "1.5");
    assert_eq!(encode(f64_value(-0.25)), "-0.25");
    assert_eq!(encode(f64_value(0.0)), "0.0");
    assert_eq!(encode(f64_value(1e300)), "1e300");
    assert_eq!(encode(f32_value(0.1)), "0.1");
    assert_eq!(encode(f64_value(f64::MAX)), "1.7976931348623157e308");
    assert_eq!(encode(f64_value(f64::MIN_POSITIVE)), "2.2250738585072014e-308");
}

#[test]
fn finite_floats_read_back_bit_for_bit() {
    let samples = [0.0f64, -0.0, 1.0, 0.1, 1.0 / 3.0, 6.02214076e23, 5e-324, f64::MAX, f64::MIN, f64::EPSILON];
    for f in samples {
        let text = encode(f64_value(f));
        let back: f64 = text.parse().unwrap();
        assert_eq!(back.to_bits(), f.to_bits());
    }
    let singles = [0.0f32, -0.0, 1.0, 0.1, 1.0 / 3.0, 3.4028235e38, 1e-45, f32::EPSILON];
    for f in singles {
        let text = encode(f32_value(f));
        let back: f32 = text.parse().unwrap();
        assert_eq!(back.to_bits(), f.to_bits());
    }
}

#[test]
fn nan_and_infinities_are_null() {
    assert_eq!(encode(f64_value(f64::NAN)), "!n");
    assert_eq!(encode(f64_value(f64::INFINITY)), "!n");
    assert_eq!(encode(f64_value(f64::NEG_INFINITY)), "!n");
    assert_eq!(encode(f32_value(f32::NAN)), "!n");
    assert_eq!(encode(f32_value(f32::INFINITY)), "!n");
    assert_eq!(encode(f32_value(f32::NEG_INFINITY)), "!n");
    assert_eq!(encode(f64_value(f64::NAN)), encode(Value::Unit));
}

#[test]
fn non_finite_bits_ignore_the_given_text() {
    let v = Value::F64 { bits64: 0x7ff0_0000_0000_0001, shortest: "1.0".to_owned() };
    assert_eq!(encode(v), "!n");
    let v = Value::F32 { bits32: 0xffc0_0000, shortest: "1.0".to_owned() };
    assert_eq!(encode(v), "!n");
}

#[test]
fn float_classes_by_bits() {
    assert!(rison::number::is_non_finite_f64(f64::NAN.to_bits()));
    assert!(rison::number::is_non_finite_f64(f64::INFINITY.to_bits()));
    assert!(rison::number::is_non_finite_f64(f64::NEG_INFINITY.to_bits()));
    assert!(!rison::number::is_non_finite_f64(f64::MAX.to_bits()));
    assert!(!rison::number::is_non_finite_f64(0.0f64.to_bits()));
    assert!(!rison::number::is_non_finite_f64(5e-324f64.to_bits()));
    assert!(rison::number::is_non_finite_f32(f32::NAN.to_bits()));
    assert!(rison::number::is_non_finite_f32(f32::INFINITY.to_bits()));
    assert!(!rison::number::is_non_finite_f32(f32::MAX.to_bits()));
    assert!(!rison::number::is_non_finite_f32(1.0f32.to_bits()));
}

#[test]
fn null_shapes_are_all_null() {
    assert_eq!(encode(Value::OptionNone), "!n");
    assert_eq!(encode(Value::Unit), "!n");
    assert_eq!(encode(Value::UnitStruct { name: "Marker".to_owned() }), "!n");
}

#[test]
fn wrappers_are_transparent() {
    assert_eq!(encode(Value::OptionSome(Box::new(Value::I32(5)))), "5");
    assert_eq!(
        encode(Value::NewtypeStruct { name: "Meters".to_owned(), value: Box::new(Value::U8(3)) }),
        "3"
    );
    assert_eq!(
        encode(Value::OptionSome(Box::new(Value::OptionSome(Box::new(Value::OptionNone))))),
        "!n"
    );
}

#[test]
fn encodes_chars() {
    assert_eq!(encode(Value::Char('a')), "a");
    assert_eq!(encode(Value::Char(' ')), "' '");
    assert_eq!(encode(Value::Char('!')), "'!!'");
    assert_eq!(encode(Value::Char('\'')), "'!''");
    assert_eq!(encode(Value::Char('7')), "'7'");
    assert_eq!(encode(Value::Char('é')), "é");
}

#[test]
fn unit_variant_is_its_name() {
    let v = |variant: &str| Value::UnitVariant {
        name: "Color".to_owned(),
        variant_index: 1,
        variant: variant.to_owned(),
    };
    assert_eq!(encode(v("Red")), "Red");
    assert_eq!(encode(v("Dark Red")), "'Dark Red'");
}

#[test]
fn newtype_variant_is_framed() {
    let v = Value::NewtypeVariant {
        name: "Shape".to_owned(),
        variant_index: 0,
        variant: "Circle".to_owned(),
        value: Box::new(Value::U32(4)),
    };
    assert_eq!(encode(v), "(Circle:4)");
    let v = Value::NewtypeVariant {
        name: "Shape".to_owned(),
        variant_index: 0,
        variant: "my circle".to_owned(),
        value: Box::new(Value::Str("a b".to_owned())),
    };
    assert_eq!(encode(v), "('my circle':'a b')");
}

#[test]
fn serializer_appends_and_never_rewrites() {
    let mut ser = Serializer::new();
    ser.serialize_bool(true).unwrap();
    ser.serialize_i8(-1).unwrap();
    ser.serialize_i16(-2).unwrap();
    ser.serialize_i32(-3).unwrap();
    ser.serialize_i64(-4).unwrap();
    ser.serialize_i128(-5).unwrap();
    ser.serialize_u8(1).unwrap();
    ser.serialize_u16(2).unwrap();
    ser.serialize_u32(3).unwrap();
    ser.serialize_u64(4).unwrap();
    ser.serialize_u128(5).unwrap();
    ser.serialize_unit().unwrap();
    ser.serialize_none().unwrap();
    ser.serialize_unit_struct("S").unwrap();
    ser.serialize_unit_variant("E", 0, "V").unwrap();
    ser.serialize_char('x').unwrap();
    ser.serialize_str("y z").unwrap();
    ser.serialize_f64(2.5f64.to_bits(), "2.5").unwrap();
    ser.serialize_f32(f32::NAN.to_bits(), "NaN").unwrap();
    ser.serialize_bytes(&[0, 255]).unwrap();
    ser.serialize_some(&Value::Bool(false)).unwrap();
    ser.serialize_newtype_struct("N", &Value::U8(9)).unwrap();
    ser.serialize_newtype_variant("E", 1, "W", &Value::U8(8)).unwrap();
    assert_eq!(ser.into_string(), "!t-1-2-3-4-512345!n!n!nVx'y z'2.5!n!(0,255)!f9(W:8)");
}

#[test]
fn error_messages() {
    assert_eq!(Error::KeyMustBeAString.message(), "key must be a string");
    assert_eq!(Error::Message("bad input".into()).message(), "bad input");
    assert_eq!(Error::Message("".into()).message(), "");
}
