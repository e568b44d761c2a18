use vehicle_shadow::client::{parse_state_from_json, parse_value_from_json};
use vehicle_shadow::error::ClientError;
use vehicle_shadow::json::{Json, JsonNum};
use vehicle_shadow::signal::{Value, ValueType};
use vehicle_shadow::wire::WireKind;

fn num(i: i64) -> Json {
    Json::Num(JsonNum {
        int_val: Some(i),
        uint_val: if i >= 0 { Some(i as u64) } else { None },
        float_bits: (i as f32).to_bits(),
        double_bits: (i as f64).to_bits(),
    })
}

fn fractional(x: f64) -> Json {
    Json::Num(JsonNum {
        int_val: None,
        uint_val: None,
        float_bits: (x as f32).to_bits(),
        double_bits: x.to_bits(),
    })
}

#[test]
fn test_parse_simple_value() {
    let result = parse_value_from_json(&num(42)).unwrap();
    assert!(matches!(result.value, Some(WireKind::Int32Value(42))));
}

#[test]
fn test_parse_string_value() {
    let result = parse_value_from_json(&Json::Str("hello".to_string())).unwrap();
    assert!(matches!(result.value, Some(WireKind::StringValue(ref s)) if s == "hello"));
}

#[test]
fn test_parse_boolean_value() {
    let result = parse_value_from_json(&Json::Bool(true)).unwrap();
    assert!(matches!(result.value, Some(WireKind::BoolValue(true))));
}

#[test]
fn test_parse_array_value() {
    let result = parse_value_from_json(&Json::Arr(vec![num(1), num(2), num(3)])).unwrap();
    assert!(matches!(result.value, Some(WireKind::Int32ArrayValue(_))));
}

#[test]
fn test_parse_state_with_value() {
    let state = Json::Obj(vec![("value".to_string(), num(42))]);
    let result = parse_state_from_json(&state).unwrap();
    assert!(result.value.is_some());
    assert!(result.capability.is_none());
    assert!(result.availability.is_none());
}

#[test]
fn test_parse_state_with_all_fields() {
    let state = Json::Obj(vec![
        ("value".to_string(), num(42)),
        ("capability".to_string(), Json::Bool(true)),
        ("availability".to_string(), Json::Bool(false)),
        ("reserved".to_string(), Json::Str("test".to_string())),
    ]);
    let result = parse_state_from_json(&state).unwrap();
    assert!(result.value.is_some());
    assert_eq!(result.capability, Some(true));
    assert_eq!(result.availability, Some(false));
    assert_eq!(result.reserved, Some("test".to_string()));
}

#[test]
fn parse_wide_integer_becomes_int64() {
    let result = parse_value_from_json(&num(5000000000)).unwrap();
    assert!(matches!(result.value, Some(WireKind::Int64Value(5000000000))));
}

#[test]
fn parse_fractional_becomes_double() {
    let result = parse_value_from_json(&fractional(2.5)).unwrap();
    assert!(matches!(
        result.value,
        Some(WireKind::DoubleValue(bits)) if bits == 2.5f64.to_bits()
    ));
}

#[test]
fn parse_empty_array_is_invalid_input() {
    match parse_value_from_json(&Json::Arr(vec![])) {
        Err(ClientError::InvalidInput(m)) => {
            assert_eq!(m, "Empty arrays are not supported");
        }
        other => panic!("unexpected outcome: {:?}", other),
    }
}

#[test]
fn parse_null_is_invalid_input() {
    match parse_value_from_json(&Json::Null) {
        Err(ClientError::InvalidInput(_)) => (),
        other => panic!("unexpected outcome: {:?}", other),
    }
}

#[test]
fn parse_mixed_array_is_invalid_input() {
    match parse_value_from_json(&Json::Arr(vec![num(1), Json::Bool(true)])) {
        Err(ClientError::InvalidInput(_)) => (),
        other => panic!("unexpected outcome: {:?}", other),
    }
}

#[test]
fn build_value_honors_declared_type() {
    assert_eq!(ValueType::TypeInt8.build_value(&num(5)), Value::Int8(5));
    assert_eq!(ValueType::TypeUint16.build_value(&num(60000)), Value::Uint16(60000));
    assert_eq!(ValueType::TypeInt8.build_value(&num(200)), Value::NAN);
    assert_eq!(ValueType::TypeUint8.build_value(&num(-1)), Value::NAN);
    assert_eq!(
        ValueType::TypeString.build_value(&Json::Str("x".to_string())),
        Value::String("x".to_string())
    );
    assert_eq!(ValueType::TypeBool.build_value(&Json::Bool(true)), Value::Bool(true));
    assert_eq!(ValueType::TypeBool.build_value(&num(1)), Value::NAN);
    assert_eq!(ValueType::TypeNAN.build_value(&Json::Null), Value::NAN);
    assert_eq!(
        ValueType::TypeFloat.build_value(&fractional(1.5)),
        Value::Float(1.5f32.to_bits())
    );
    assert_eq!(
        ValueType::TypeDouble.build_value(&fractional(1.5)),
        Value::Double(1.5f64.to_bits())
    );
}

#[test]
fn build_value_arrays_check_every_element() {
    assert_eq!(
        ValueType::TypeInt8Array.build_value(&Json::Arr(vec![num(1), num(2)])),
        Value::Int8Array(vec![1, 2])
    );
    assert_eq!(
        ValueType::TypeInt8Array.build_value(&Json::Arr(vec![num(1), num(200)])),
        Value::NAN
    );
    assert_eq!(
        ValueType::TypeBoolArray.build_value(&Json::Arr(vec![Json::Bool(true), num(1)])),
        Value::NAN
    );
    assert_eq!(
        ValueType::TypeStringArray.build_value(&Json::Arr(vec![
            Json::Str("a".to_string()),
            Json::Str("b".to_string()),
        ])),
        Value::StringArray(vec!["a".to_string(), "b".to_string()])
    );
}
