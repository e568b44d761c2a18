use vehicle_shadow::error::VehicleShadowError;
use vehicle_shadow::json::{Json, JsonNum};
use vehicle_shadow::loader::load_vss_document;
use vehicle_shadow::service::SignalServiceImpl;
use vehicle_shadow::signal::{Config, LeafType, Signal, State, Value, ValueType};
use vehicle_shadow::store::VehicleShadow;
use vehicle_shadow::wire::{SetSignalRequest, WireKind, WireState, WireValue};
use vehicle_shadow::wire::apply_state_update;

fn make_signal(path: &str, value: Value) -> Signal {
    Signal {
        path: path.to_string(),
        state: State {
            value,
            capability: true,
            availability: true,
            lock_token: None,
            reserved: "reserved".to_string(),
        },
        config: Config {
            leaf_type: LeafType::Sensor,
            data_type: ValueType::TypeInt32,
            deprecation: None,
            unit: Some("degC".to_string()),
            min: None,
            max: None,
            description: Some("a test row".to_string()),
            comment: None,
            allowed: Some(vec![Value::Int32(1), Value::Int32(5)]),
            default: Some(Value::Int32(0)),
        },
    }
}

#[test]
fn store_set_then_get_returns_the_row() {
    let mut shadow = VehicleShadow::create().unwrap();
    let sig = make_signal("Vehicle.Speed", Value::Int32(7));
    shadow.set_signal(sig.clone(), &None).unwrap();
    let back = shadow.get_signal("Vehicle.Speed".to_string()).unwrap();
    assert_eq!(back, sig);
}

#[test]
fn store_round_trips_every_value_kind() {
    let mut shadow = VehicleShadow::create().unwrap();
    let values = vec![
        Value::NAN,
        Value::Bool(true),
        Value::String("text".to_string()),
        Value::Int8(-8),
        Value::Int16(-16),
        Value::Int32(-32),
        Value::Int64(-64),
        Value::Uint8(8),
        Value::Uint16(16),
        Value::Uint32(32),
        Value::Uint64(64),
        Value::Float(3.5f32.to_bits()),
        Value::Double(4.5f64.to_bits()),
        Value::BoolArray(vec![true, false]),
        Value::StringArray(vec!["x".to_string(), "y".to_string()]),
        Value::Int8Array(vec![-1, 1]),
        Value::Uint64Array(vec![0, 18000000000000000000]),
        Value::DoubleArray(vec![1.25f64.to_bits()]),
    ];
    for (k, v) in values.into_iter().enumerate() {
        let path = format!("Vehicle.Test{}", k);
        let sig = make_signal(&path, v);
        shadow.set_signal(sig.clone(), &None).unwrap();
        assert_eq!(shadow.get_signal(path).unwrap(), sig);
    }
}

#[test]
fn store_get_missing_is_not_found() {
    let shadow = VehicleShadow::create().unwrap();
    match shadow.get_signal("Vehicle.Nope".to_string()) {
        Err(VehicleShadowError::NotFound(m)) => {
            assert_eq!(m, "Signal not found: Vehicle.Nope");
        }
        other => panic!("unexpected outcome: {:?}", other),
    }
}

#[test]
fn store_set_twice_is_idempotent_in_storage() {
    let mut shadow = VehicleShadow::create().unwrap();
    let sig = make_signal("Vehicle.Speed", Value::Int32(7));
    shadow.set_signal(sig.clone(), &None).unwrap();
    let first = shadow.get_signal("Vehicle.Speed".to_string()).unwrap();
    shadow.set_signal(sig.clone(), &None).unwrap();
    let second = shadow.get_signal("Vehicle.Speed".to_string()).unwrap();
    assert_eq!(first, second);
    assert_eq!(second, sig);
}

#[test]
fn locking_sequence_follows_the_rules() {
    let mut shadow = VehicleShadow::create().unwrap();
    let p = "Vehicle.Door".to_string();
    let t1 = "token-1".to_string();
    let t2 = "token-2".to_string();
    shadow.set_signal(make_signal(&p, Value::Bool(false)), &None).unwrap();

    shadow.try_lock(p.clone(), &t1).unwrap();
    match shadow.try_lock(p.clone(), &t2) {
        Err(VehicleShadowError::Database(m)) => assert!(m.contains("already locked")),
        other => panic!("unexpected outcome: {:?}", other),
    }

    let mut attempt = make_signal(&p, Value::Bool(true));
    attempt.state.lock_token = Some(t1.clone());
    match shadow.set_signal(attempt.clone(), &Some(t2.clone())) {
        Err(VehicleShadowError::Database(m)) => assert!(m.contains("lock conflict")),
        other => panic!("unexpected outcome: {:?}", other),
    }

    shadow.set_signal(attempt, &Some(t1.clone())).unwrap();

    shadow.release_lock(&t1).unwrap();
    shadow.try_lock(p.clone(), &t2).unwrap();
}

#[test]
fn lock_is_not_reentrant() {
    let mut shadow = VehicleShadow::create().unwrap();
    let p = "Vehicle.Door".to_string();
    let t1 = "token-1".to_string();
    shadow.set_signal(make_signal(&p, Value::Bool(false)), &None).unwrap();
    shadow.try_lock(p.clone(), &t1).unwrap();
    assert!(shadow.try_lock(p.clone(), &t1).is_err());
}

#[test]
fn untokened_write_overrides_a_lock() {
    let mut shadow = VehicleShadow::create().unwrap();
    let p = "Vehicle.Door".to_string();
    shadow.set_signal(make_signal(&p, Value::Bool(false)), &None).unwrap();
    shadow.try_lock(p.clone(), &"holder".to_string()).unwrap();
    shadow.set_signal(make_signal(&p, Value::Bool(true)), &None).unwrap();
    let row = shadow.get_signal(p).unwrap();
    assert_eq!(row.state.value, Value::Bool(true));
}

#[test]
fn try_locks_fails_whole_batch_when_one_is_locked() {
    let mut shadow = VehicleShadow::create().unwrap();
    shadow.set_signal(make_signal("A", Value::Int32(1)), &None).unwrap();
    shadow.set_signal(make_signal("B", Value::Int32(2)), &None).unwrap();
    shadow.try_lock("B".to_string(), &"other".to_string()).unwrap();
    let r = shadow.try_locks(vec!["A".to_string(), "B".to_string()], &"mine".to_string());
    assert!(r.is_err());
    assert!(!shadow.is_locked("A".to_string()).unwrap());
}

#[test]
fn release_by_token_clears_only_that_token() {
    let mut shadow = VehicleShadow::create().unwrap();
    shadow.set_signal(make_signal("A", Value::Int32(1)), &None).unwrap();
    shadow.set_signal(make_signal("B", Value::Int32(2)), &None).unwrap();
    shadow.try_lock("A".to_string(), &"t1".to_string()).unwrap();
    shadow.try_lock("B".to_string(), &"t2".to_string()).unwrap();
    shadow.release_lock(&"t1".to_string()).unwrap();
    assert!(!shadow.is_locked("A".to_string()).unwrap());
    assert!(shadow.is_locked("B".to_string()).unwrap());
}

#[test]
fn list_delete_and_clear() {
    let mut shadow = VehicleShadow::create().unwrap();
    shadow.set_signal(make_signal("A", Value::Int32(1)), &None).unwrap();
    shadow.set_signal(make_signal("B", Value::Int32(2)), &None).unwrap();
    let paths = shadow.list_signals().unwrap();
    assert_eq!(paths, vec!["A".to_string(), "B".to_string()]);
    shadow.delete_signal("A").unwrap();
    assert!(shadow.get_signal("A".to_string()).is_err());
    shadow.clear().unwrap();
    assert_eq!(shadow.list_signals().unwrap().len(), 0);
}

#[test]
fn partial_update_overwrites_only_supplied_fields() {
    let mut state = State {
        value: Value::Int32(1),
        capability: true,
        availability: true,
        lock_token: None,
        reserved: "reserved".to_string(),
    };
    let overlay = WireState {
        value: Some(WireValue { value: Some(WireKind::Int32Value(5)) }),
        capability: None,
        availability: None,
        reserved: None,
    };
    apply_state_update(&mut state, &overlay);
    assert_eq!(state.value, Value::Int32(5));
    assert!(state.capability);
    assert!(state.availability);
    assert_eq!(state.reserved, "reserved");
}

#[test]
fn batch_get_returns_prefix_and_names_the_missing_path() {
    let mut shadow = VehicleShadow::create().unwrap();
    shadow.set_signal(make_signal("A", Value::Int32(1)), &None).unwrap();
    let service = SignalServiceImpl::new(shadow);
    let response = service.get(&vec!["A".to_string(), "B".to_string()]);
    assert_eq!(response.signals.len(), 1);
    assert_eq!(response.signals[0].path, "A");
    assert!(!response.success);
    assert!(response.error_message.contains("B"));
}

#[test]
fn batch_set_outcomes_are_independent() {
    let mut shadow = VehicleShadow::create().unwrap();
    shadow.set_signal(make_signal("B", Value::Int32(1)), &None).unwrap();
    let mut service = SignalServiceImpl::new(shadow);
    let requests = vec![
        SetSignalRequest { path: "A".to_string(), state: None },
        SetSignalRequest {
            path: "B".to_string(),
            state: Some(WireState {
                value: Some(WireValue { value: Some(WireKind::Int32Value(9)) }),
                capability: None,
                availability: None,
                reserved: None,
            }),
        },
    ];
    let response = service.set(requests, &None);
    assert_eq!(response.results.len(), 2);
    assert!(!response.results[0].success);
    assert!(response.results[1].success);
    assert!(!response.success);
}

#[test]
fn subscribe_yields_the_current_state_first() {
    let mut shadow = VehicleShadow::create().unwrap();
    shadow.set_signal(make_signal("A", Value::Int32(7)), &None).unwrap();
    let mut service = SignalServiceImpl::new(shadow);
    let (receivers, initial) = service.subscribe(&vec!["A".to_string()]);
    assert_eq!(receivers.len(), 1);
    assert_eq!(initial.len(), 1);
    assert_eq!(initial[0].error_message, "");
    let signal = initial[0].signal.as_ref().unwrap();
    assert_eq!(signal.path, "A");
    let state = signal.state.as_ref().unwrap();
    let value = state.value.as_ref().unwrap();
    assert_eq!(value, &WireValue { value: Some(WireKind::Int32Value(7)) });
}

#[test]
fn every_write_notifies_subscribers_once() {
    let mut shadow = VehicleShadow::create().unwrap();
    shadow.set_signal(make_signal("A", Value::Int32(1)), &None).unwrap();
    let mut service = SignalServiceImpl::new(shadow);
    let (mut receivers, _initial) = service.subscribe(&vec!["A".to_string()]);

    let request = |v: i32| SetSignalRequest {
        path: "A".to_string(),
        state: Some(WireState {
            value: Some(WireValue { value: Some(WireKind::Int32Value(v)) }),
            capability: None,
            availability: None,
            reserved: None,
        }),
    };
    assert!(service.set(vec![request(5)], &None).success);
    assert!(service.set(vec![request(5)], &None).success);

    let first = receivers[0].try_recv().ok().expect("first notification");
    let second = receivers[0].try_recv().ok().expect("second notification");
    assert_eq!(first, second);
    assert!(receivers[0].try_recv().ok().is_none());
}

#[test]
fn subscribing_to_an_absent_path_yields_an_error_message() {
    let shadow = VehicleShadow::create().unwrap();
    let mut service = SignalServiceImpl::new(shadow);
    let (receivers, initial) = service.subscribe(&vec!["Vehicle.Nope".to_string()]);
    assert_eq!(receivers.len(), 1);
    assert_eq!(initial.len(), 1);
    assert!(initial[0].signal.is_none());
    assert!(initial[0].error_message.contains("Vehicle.Nope"));
}

#[test]
fn unsubscribe_stops_notifications() {
    let mut shadow = VehicleShadow::create().unwrap();
    shadow.set_signal(make_signal("A", Value::Int32(1)), &None).unwrap();
    let mut service = SignalServiceImpl::new(shadow);
    let (mut receivers, _initial) = service.subscribe(&vec!["A".to_string()]);
    let response = service.unsubscribe(&vec!["A".to_string()]);
    assert!(response.success);
    let request = SetSignalRequest {
        path: "A".to_string(),
        state: Some(WireState {
            value: Some(WireValue { value: Some(WireKind::Int32Value(5)) }),
            capability: None,
            availability: None,
            reserved: None,
        }),
    };
    assert!(service.set(vec![request], &None).success);
    assert!(receivers[0].try_recv().ok().is_none());
}

#[test]
fn lock_calls_mint_distinct_tokens() {
    let mut shadow = VehicleShadow::create().unwrap();
    shadow.set_signal(make_signal("A", Value::Int32(1)), &None).unwrap();
    let mut service = SignalServiceImpl::new(shadow);
    let first = service.lock(vec!["A".to_string()]).unwrap().token;
    assert!(service.unlock(&first).success);
    let second = service.lock(vec!["A".to_string()]).unwrap().token;
    assert_ne!(first, second);
}

#[test]
fn service_lock_and_unlock_cover_the_store() {
    let mut shadow = VehicleShadow::create().unwrap();
    shadow.set_signal(make_signal("A", Value::Int32(1)), &None).unwrap();
    let mut service = SignalServiceImpl::new(shadow);
    let token = service.lock(vec!["A".to_string()]).unwrap().token;
    assert!(service.lock(vec!["A".to_string()]).is_err());
    assert!(service.unlock(&token).success);
    assert!(service.lock(vec!["A".to_string()]).is_ok());
}

fn leaf(datatype: &str, default: Option<Json>) -> Json {
    let mut members = vec![
        ("type".to_string(), Json::Str("sensor".to_string())),
        ("datatype".to_string(), Json::Str(datatype.to_string())),
    ];
    if let Some(d) = default {
        members.push(("default".to_string(), d));
    }
    Json::Obj(members)
}

#[test]
fn tree_flattening_stores_leaves_only() {
    let number = Json::Num(JsonNum {
        int_val: Some(4),
        uint_val: Some(4),
        float_bits: 4.0f32.to_bits(),
        double_bits: 4.0f64.to_bits(),
    });
    let branch = Json::Obj(vec![
        ("type".to_string(), Json::Str("branch".to_string())),
        (
            "children".to_string(),
            Json::Obj(vec![
                ("A".to_string(), leaf("int32", Some(number))),
                ("B".to_string(), leaf("boolean", None)),
            ]),
        ),
    ]);
    let doc = Json::Obj(vec![("Vehicle".to_string(), branch)]);
    let rows = load_vss_document(&doc).unwrap();
    assert_eq!(rows.len(), 2);
    assert_eq!(rows[0].path, "Vehicle.A");
    assert_eq!(rows[0].state.value, Value::Int32(4));
    assert_eq!(rows[0].config.data_type, ValueType::TypeInt32);
    assert_eq!(rows[1].path, "Vehicle.B");
    assert_eq!(rows[1].state.value, Value::NAN);
    for row in &rows {
        assert!(!matches!(row.config.leaf_type, LeafType::Branch));
    }
}

#[test]
fn loader_seeds_a_store() {
    let doc = Json::Obj(vec![(
        "Vehicle".to_string(),
        Json::Obj(vec![
            ("type".to_string(), Json::Str("branch".to_string())),
            (
                "children".to_string(),
                Json::Obj(vec![("Speed".to_string(), leaf("uint16", None))]),
            ),
        ]),
    )]);
    let rows = load_vss_document(&doc).unwrap();
    let mut shadow = VehicleShadow::create().unwrap();
    for row in rows {
        shadow.set_signal(row, &None).unwrap();
    }
    let row = shadow.get_signal("Vehicle.Speed".to_string()).unwrap();
    assert_eq!(row.config.data_type, ValueType::TypeUint16);
    assert!(!row.state.capability);
}
