use voltage_modbus::value::ModbusValue;

#[test]
fn value_test_register_count() {
    assert_eq!(ModbusValue::Bool(true).register_count(), 0);
    assert_eq!(ModbusValue::U16(0).register_count(), 1);
    assert_eq!(ModbusValue::I16(0).register_count(), 1);
    assert_eq!(ModbusValue::U32(0).register_count(), 2);
    assert_eq!(ModbusValue::I32(0).register_count(), 2);
    assert_eq!(ModbusValue::F32(0.0f32.to_bits()).register_count(), 2);
    assert_eq!(ModbusValue::U64(0).register_count(), 4);
    assert_eq!(ModbusValue::I64(0).register_count(), 4);
    assert_eq!(ModbusValue::F64(0.0f64.to_bits()).register_count(), 4);
}

#[test]
fn test_is_zero() {
    assert!(ModbusValue::Bool(false).is_zero());
    assert!(!ModbusValue::Bool(true).is_zero());
    assert!(ModbusValue::U16(0).is_zero());
    assert!(!ModbusValue::U16(1).is_zero());
    assert!(ModbusValue::F32(0.0f32.to_bits()).is_zero());
    assert!(!ModbusValue::F32(0.001f32.to_bits()).is_zero());
}

#[test]
fn test_is_zero_of_every_type() {
    assert!(ModbusValue::I16(0).is_zero());
    assert!(!ModbusValue::I16(-1).is_zero());
    assert!(ModbusValue::U32(0).is_zero());
    assert!(!ModbusValue::U32(0x8000_0000).is_zero());
    assert!(ModbusValue::I32(0).is_zero());
    assert!(!ModbusValue::I32(i32::MIN).is_zero());
    assert!(ModbusValue::U64(0).is_zero());
    assert!(!ModbusValue::U64(0x8000_0000_0000_0000).is_zero());
    assert!(ModbusValue::I64(0).is_zero());
    assert!(!ModbusValue::I64(i64::MIN).is_zero());
    assert!(ModbusValue::F32((-0.0f32).to_bits()).is_zero());
    assert!(!ModbusValue::F32(f32::MIN_POSITIVE.to_bits()).is_zero());
    assert!(!ModbusValue::F32(f32::NAN.to_bits()).is_zero());
    assert!(!ModbusValue::F32((-1.5f32).to_bits()).is_zero());
    assert!(ModbusValue::F64(0.0f64.to_bits()).is_zero());
    assert!(ModbusValue::F64((-0.0f64).to_bits()).is_zero());
    assert!(!ModbusValue::F64(1e-300f64.to_bits()).is_zero());
    assert!(!ModbusValue::F64(f64::INFINITY.to_bits()).is_zero());
}

#[test]
fn test_from_primitives() {
    let v: ModbusValue = true.into();
    assert_eq!(v, ModbusValue::Bool(true));
    let v: ModbusValue = 100u16.into();
    assert_eq!(v, ModbusValue::U16(100));
    let v: ModbusValue = (-50i16).into();
    assert_eq!(v, ModbusValue::I16(-50));
    let v: ModbusValue = 100000u32.into();
    assert_eq!(v, ModbusValue::U32(100000));
    let v: ModbusValue = (-100000i32).into();
    assert_eq!(v, ModbusValue::I32(-100000));
    let v: ModbusValue = 100000000u64.into();
    assert_eq!(v, ModbusValue::U64(100000000));
    let v: ModbusValue = (-100000000i64).into();
    assert_eq!(v, ModbusValue::I64(-100000000));
    let _ = ModbusValue::F32(3.14f32.to_bits());
    let _ = ModbusValue::F64(3.14159265359f64.to_bits());
}

#[test]
fn test_type_name() {
    assert_eq!(ModbusValue::Bool(true).type_label(), "bool");
    assert_eq!(ModbusValue::U16(0).type_label(), "u16");
    assert_eq!(ModbusValue::F32(0.0f32.to_bits()).type_label(), "f32");
}

#[test]
fn test_type_label_of_every_type() {
    assert_eq!(ModbusValue::I16(0).type_label(), "i16");
    assert_eq!(ModbusValue::U32(0).type_label(), "u32");
    assert_eq!(ModbusValue::I32(0).type_label(), "i32");
    assert_eq!(ModbusValue::U64(0).type_label(), "u64");
    assert_eq!(ModbusValue::I64(0).type_label(), "i64");
    assert_eq!(ModbusValue::F64(0).type_label(), "f64");
    assert_eq!(ModbusValue::default(), ModbusValue::U16(0));
}
