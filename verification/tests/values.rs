use vehicle_shadow::error::VehicleShadowError;
use vehicle_shadow::fmt::{format_value, u64_to_string};
use vehicle_shadow::signal::{LeafType, Value, ValueType};
use vehicle_shadow::wire::{
    convert_leaf_type_to_proto, convert_proto_value_to_rust, convert_value_to_proto,
    convert_value_type_to_proto, WireKind, WireLeafType, WireValue, WireValueType,
};

fn round_trips(v: Value) {
    let wire = convert_value_to_proto(&v);
    let back = convert_proto_value_to_rust(&wire);
    assert_eq!(back, v);
}

#[test]
fn test_initialization() {
    assert!(true);
}

#[test]
fn wire_round_trip_scalars() {
    round_trips(Value::NAN);
    round_trips(Value::Bool(true));
    round_trips(Value::String("hello".to_string()));
    round_trips(Value::Int8(-5));
    round_trips(Value::Int16(-300));
    round_trips(Value::Int32(-70000));
    round_trips(Value::Int64(-5000000000));
    round_trips(Value::Uint8(200));
    round_trips(Value::Uint16(60000));
    round_trips(Value::Uint32(4000000000));
    round_trips(Value::Uint64(18000000000000000000));
    round_trips(Value::Float(1.5f32.to_bits()));
    round_trips(Value::Double(2.25f64.to_bits()));
}

#[test]
fn wire_round_trip_arrays() {
    round_trips(Value::BoolArray(vec![true, false]));
    round_trips(Value::StringArray(vec!["a".to_string(), "b".to_string()]));
    round_trips(Value::Int8Array(vec![-1, 0, 127, -128]));
    round_trips(Value::Int16Array(vec![-300, 300]));
    round_trips(Value::Int32Array(vec![1, 2, 3]));
    round_trips(Value::Int64Array(vec![-5000000000, 5000000000]));
    round_trips(Value::Uint8Array(vec![0, 255]));
    round_trips(Value::Uint16Array(vec![0, 65535]));
    round_trips(Value::Uint32Array(vec![0, 4294967295]));
    round_trips(Value::Uint64Array(vec![0, 18000000000000000000]));
    round_trips(Value::FloatArray(vec![1.5f32.to_bits(), 0.25f32.to_bits()]));
    round_trips(Value::DoubleArray(vec![1.5f64.to_bits()]));
    round_trips(Value::BoolArray(vec![]));
}

#[test]
fn wire_widens_narrow_integers() {
    let wire = convert_value_to_proto(&Value::Int8(-5));
    assert_eq!(wire, WireValue { value: Some(WireKind::Int8Value(-5)) });
    let wire = convert_value_to_proto(&Value::Uint16(60000));
    assert_eq!(wire, WireValue { value: Some(WireKind::Uint16Value(60000)) });
}

#[test]
fn wire_nan_is_absent_oneof() {
    let wire = convert_value_to_proto(&Value::NAN);
    assert_eq!(wire, WireValue { value: None });
}

#[test]
fn type_tags_map_one_to_one() {
    assert_eq!(convert_value_type_to_proto(&ValueType::TypeNAN), WireValueType::TypeNan);
    assert_eq!(convert_value_type_to_proto(&ValueType::TypeBool), WireValueType::TypeBool);
    assert_eq!(
        convert_value_type_to_proto(&ValueType::TypeDoubleArray),
        WireValueType::TypeDoubleArray
    );
    assert_eq!(convert_leaf_type_to_proto(&LeafType::Branch), WireLeafType::Branch);
    assert_eq!(convert_leaf_type_to_proto(&LeafType::Actuator), WireLeafType::Actuator);
}

#[test]
fn test_format_bool_value() {
    let value = WireValue { value: Some(WireKind::BoolValue(true)) };
    assert_eq!(format_value(&value), "true");
}

#[test]
fn test_format_string_value() {
    let value = WireValue { value: Some(WireKind::StringValue("hello".to_string())) };
    assert_eq!(format_value(&value), "\"hello\"");
}

#[test]
fn test_format_int_value() {
    let value = WireValue { value: Some(WireKind::Int32Value(42)) };
    assert_eq!(format_value(&value), "42");
}

#[test]
fn test_format_array_value() {
    let value = WireValue { value: Some(WireKind::Int32ArrayValue(vec![1, 2, 3])) };
    assert_eq!(format_value(&value), "[1, 2, 3]");
}

#[test]
fn test_format_nan_value() {
    let value = WireValue { value: None };
    assert_eq!(format_value(&value), "NAN");
}

#[test]
fn format_negative_and_unsigned() {
    let value = WireValue { value: Some(WireKind::Int64Value(-9007199254740993)) };
    assert_eq!(format_value(&value), "-9007199254740993");
    assert_eq!(u64_to_string(0), "0");
    assert_eq!(u64_to_string(18446744073709551615), "18446744073709551615");
}

#[test]
fn value_type_from_str_accepts_any_case() {
    assert_eq!(ValueType::from_str("boolean").unwrap(), ValueType::TypeBool);
    assert_eq!(ValueType::from_str("Boolean").unwrap(), ValueType::TypeBool);
    assert_eq!(ValueType::from_str("UINT16[]").unwrap(), ValueType::TypeUint16Array);
    assert_eq!(ValueType::from_str("double").unwrap(), ValueType::TypeDouble);
}

#[test]
fn value_type_from_str_rejects_unknown_names() {
    match ValueType::from_str("bogus") {
        Err(VehicleShadowError::InvalidInput(m)) => assert_eq!(m, "bogus"),
        other => panic!("unexpected outcome: {:?}", other),
    }
}

#[test]
fn leaf_type_from_str_accepts_any_case() {
    assert_eq!(LeafType::from_str("branch").unwrap(), LeafType::Branch);
    assert_eq!(LeafType::from_str("Sensor").unwrap(), LeafType::Sensor);
    assert_eq!(LeafType::from_str("ATTRIBUTE").unwrap(), LeafType::Attribute);
    assert_eq!(LeafType::from_str("actuator").unwrap(), LeafType::Actuator);
}

#[test]
fn error_messages_carry_their_kind() {
    let e = VehicleShadowError::NotFound("Signal not found: A".to_string());
    assert_eq!(e.message(), "Not found: Signal not found: A");
    let e = VehicleShadowError::Serialization("broken".to_string());
    assert_eq!(e.message(), "Serialization error: broken");
}
