use voltage_modbus::bytes::ByteOrder;
use voltage_modbus::codec::{
    clamp_bounds, clamp_float, clamp_to_data_type, decode_as, decode_register_value, encode_value,
    parse_read_response, registers_for_type, unpack_bits, DataType, ModbusCodec,
};
use voltage_modbus::error::ModbusError;
use voltage_modbus::pdu::{pack_coils, ModbusPdu};
use voltage_modbus::value::ModbusValue;

const FOUR_ORDERS: [ByteOrder; 4] = [
    ByteOrder::BigEndian,
    ByteOrder::LittleEndian,
    ByteOrder::BigEndianSwap,
    ByteOrder::LittleEndianSwap,
];

const ALL_ORDERS: [ByteOrder; 6] = [
    ByteOrder::BigEndian,
    ByteOrder::LittleEndian,
    ByteOrder::BigEndianSwap,
    ByteOrder::LittleEndianSwap,
    ByteOrder::BigEndian16,
    ByteOrder::LittleEndian16,
];

#[test]
fn test_decode_uint16() {
    let registers = [0x1234];
    let value = decode_register_value(&registers, "uint16", 0, ByteOrder::BigEndian).unwrap();
    assert_eq!(value, ModbusValue::U16(0x1234));
}

#[test]
fn test_decode_int16() {
    let registers = [0xFFFF]; // -1 in two's complement
    let value = decode_register_value(&registers, "int16", 0, ByteOrder::BigEndian).unwrap();
    assert_eq!(value, ModbusValue::I16(-1));
}

#[test]
fn test_decode_uint32_big_endian() {
    let registers = [0x1234, 0x5678];
    let value = decode_register_value(&registers, "uint32", 0, ByteOrder::BigEndian).unwrap();
    assert_eq!(value, ModbusValue::U32(0x12345678));
}

#[test]
fn test_decode_uint32_big_endian_swap() {
    let registers = [0x5678, 0x1234];
    let value =
        decode_register_value(&registers, "uint32", 0, ByteOrder::BigEndianSwap).unwrap();
    assert_eq!(value, ModbusValue::U32(0x12345678));
}

#[test]
fn test_decode_float32() {
    // 25.0 in IEEE 754: 0x41C80000
    let registers = [0x41C8, 0x0000];
    let value = decode_register_value(&registers, "float32", 0, ByteOrder::BigEndian).unwrap();
    if let ModbusValue::F32(bits) = value {
        let f = f32::from_bits(bits);
        assert!((f - 25.0).abs() < f32::EPSILON);
        assert_eq!(f, 25.0);
    } else {
        panic!("Expected F32");
    }
}

#[test]
fn test_decode_bool_bit_extraction() {
    let registers = [0b0000_0100]; // Bit 2 is set
    let value = decode_register_value(&registers, "bool", 2, ByteOrder::BigEndian).unwrap();
    assert_eq!(value, ModbusValue::Bool(true));

    let value = decode_register_value(&registers, "bool", 0, ByteOrder::BigEndian).unwrap();
    assert_eq!(value, ModbusValue::Bool(false));
}

#[test]
fn test_decode_every_bit() {
    for position in 0..16u8 {
        let on = [1u16 << position];
        let off = [!(1u16 << position)];
        assert_eq!(
            decode_register_value(&on, "coil", position, ByteOrder::BigEndian),
            Ok(ModbusValue::Bool(true))
        );
        assert_eq!(
            decode_register_value(&off, "BOOLEAN", position, ByteOrder::LittleEndian),
            Ok(ModbusValue::Bool(false))
        );
    }
}

#[test]
fn test_decode_refusals() {
    assert_eq!(
        decode_register_value(&[1], "bool", 16, ByteOrder::BigEndian),
        Err(ModbusError::InvalidBitPosition { position: 16 })
    );
    assert_eq!(
        decode_register_value(&[], "bool", 16, ByteOrder::BigEndian),
        Err(ModbusError::InsufficientRegisters { required: 1, available: 0 })
    );
    assert_eq!(
        decode_register_value(&[], "uint16", 0, ByteOrder::BigEndian),
        Err(ModbusError::InsufficientRegisters { required: 1, available: 0 })
    );
    assert_eq!(
        decode_register_value(&[], "short", 0, ByteOrder::BigEndian),
        Err(ModbusError::InsufficientRegisters { required: 1, available: 0 })
    );
    for tag in ["uint32", "int32", "float32"] {
        assert_eq!(
            decode_register_value(&[1], tag, 0, ByteOrder::BigEndian),
            Err(ModbusError::InsufficientRegisters { required: 2, available: 1 })
        );
    }
    for tag in ["uint64", "int64", "float64"] {
        assert_eq!(
            decode_register_value(&[1, 2, 3], tag, 0, ByteOrder::BigEndian),
            Err(ModbusError::InsufficientRegisters { required: 4, available: 3 })
        );
    }
    for tag in ["", "uint8", "string", "uint16 ", "ｕ16", "u_16"] {
        assert_eq!(
            decode_register_value(&[1, 2, 3, 4], tag, 0, ByteOrder::BigEndian),
            Err(ModbusError::UnsupportedType)
        );
    }
    assert_eq!(
        decode_register_value(&[7], "uint16", 200, ByteOrder::BigEndian),
        Ok(ModbusValue::U16(7))
    );
}

#[test]
fn test_decode_wide_types() {
    let regs = [0x1234, 0x5678, 0x9ABC, 0xDEF0, 0xFFFF];
    assert_eq!(
        decode_register_value(&regs, "UINT64", 0, ByteOrder::BigEndian),
        Ok(ModbusValue::U64(0x1234_5678_9ABC_DEF0))
    );
    assert_eq!(
        decode_register_value(&regs, "qword", 0, ByteOrder::LittleEndian),
        Ok(ModbusValue::U64(0xF0DE_BC9A_7856_3412))
    );
    assert_eq!(
        decode_register_value(&[0xFFFF, 0xFFFF, 0xFFFF, 0xFFFF], "LongLong", 0, ByteOrder::BigEndian),
        Ok(ModbusValue::I64(-1))
    );
    assert_eq!(
        decode_register_value(&[0xFFFE, 0xFFFF], "long", 0, ByteOrder::BigEndianSwap),
        Ok(ModbusValue::I32(-2))
    );
    assert_eq!(
        decode_register_value(&regs, "dword", 0, ByteOrder::LittleEndianSwap),
        Ok(ModbusValue::U32(0x34127856))
    );
    assert_eq!(
        decode_register_value(&[0x4039, 0, 0, 0], "lreal", 0, ByteOrder::BigEndian),
        Ok(ModbusValue::F64(25.0f64.to_bits()))
    );
    assert_eq!(
        decode_register_value(&[0, 0x41C8], "Real", 0, ByteOrder::BigEndianSwap),
        Ok(ModbusValue::F32(25.0f32.to_bits()))
    );
    assert_eq!(
        decode_register_value(&[0x3412], "word", 0, ByteOrder::LittleEndian16),
        Ok(ModbusValue::U16(0x3412))
    );
}

#[test]
fn test_decode_as_matches_tags() {
    let regs = [0x8001, 0x0002, 0x0003, 0x0004];
    let pairs = [
        ("bool", DataType::Bool),
        ("u16", DataType::U16),
        ("i16", DataType::I16),
        ("u32", DataType::U32),
        ("i32", DataType::I32),
        ("f32", DataType::F32),
        ("u64", DataType::U64),
        ("i64", DataType::I64),
        ("f64", DataType::F64),
    ];
    for (tag, data_type) in pairs {
        assert_eq!(DataType::from_tag(tag), Some(data_type));
        for order in ALL_ORDERS {
            assert_eq!(
                decode_register_value(&regs, tag, 15, order),
                decode_as(&regs, data_type, 15, order)
            );
        }
    }
    assert_eq!(decode_as(&regs, DataType::Bool, 15, ByteOrder::BigEndian), Ok(ModbusValue::Bool(true)));
    assert_eq!(decode_as(&regs, DataType::I16, 0, ByteOrder::BigEndian), Ok(ModbusValue::I16(-32767)));
}

#[test]
fn test_encode_uint32_roundtrip() {
    let initial = ModbusValue::U32(0x12345678);
    for order in FOUR_ORDERS {
        let registers = encode_value(&initial, order).unwrap();
        let decoded = decode_register_value(&registers, "uint32", 0, order).unwrap();
        assert_eq!(decoded, initial, "Roundtrip failed for {:?}", order);
    }
}

#[test]
fn test_encode_float32_roundtrip() {
    let initial = ModbusValue::F32(123.456f32.to_bits());
    for order in FOUR_ORDERS {
        let registers = encode_value(&initial, order).unwrap();
        let decoded = decode_register_value(&registers, "float32", 0, order).unwrap();
        if let (ModbusValue::F32(first), ModbusValue::F32(second)) = (&initial, &decoded) {
            assert!(
                (f32::from_bits(*first) - f32::from_bits(*second)).abs() < 0.001,
                "Roundtrip failed for {:?}",
                order
            );
        } else {
            panic!("Type mismatch");
        }
    }
}

#[test]
fn test_encode_values() {
    let be = ByteOrder::BigEndian;
    assert_eq!(encode_value(&ModbusValue::Bool(true), be), Ok(vec![1]));
    assert_eq!(encode_value(&ModbusValue::Bool(false), be), Ok(vec![0]));
    assert_eq!(encode_value(&ModbusValue::U16(0xBEEF), ByteOrder::LittleEndian), Ok(vec![0xBEEF]));
    assert_eq!(encode_value(&ModbusValue::I16(-2), be), Ok(vec![0xFFFE]));
    assert_eq!(encode_value(&ModbusValue::U32(0x12345678), be), Ok(vec![0x1234, 0x5678]));
    assert_eq!(
        encode_value(&ModbusValue::U32(0x12345678), ByteOrder::BigEndianSwap),
        Ok(vec![0x5678, 0x1234])
    );
    assert_eq!(encode_value(&ModbusValue::I32(-1), be), Ok(vec![0xFFFF, 0xFFFF]));
    assert_eq!(
        encode_value(&ModbusValue::F32(25.0f32.to_bits()), be),
        Ok(vec![0x41C8, 0x0000])
    );
    assert_eq!(
        encode_value(&ModbusValue::U64(0x1234_5678_9ABC_DEF0), be),
        Ok(vec![0x1234, 0x5678, 0x9ABC, 0xDEF0])
    );
    assert_eq!(
        encode_value(&ModbusValue::I64(-2), ByteOrder::LittleEndianSwap),
        Ok(vec![0xFFFF, 0xFFFF, 0xFFFF, 0xFEFF])
    );
    assert_eq!(
        encode_value(&ModbusValue::F64(25.0f64.to_bits()), ByteOrder::LittleEndian),
        Ok(vec![0, 0, 0, 0x3940])
    );
}

#[test]
fn test_decode_of_encode_is_identity() {
    let values = [
        (ModbusValue::Bool(true), "bool"),
        (ModbusValue::Bool(false), "bool"),
        (ModbusValue::U16(0xABCD), "uint16"),
        (ModbusValue::I16(i16::MIN), "int16"),
        (ModbusValue::U32(0xDEADBEEF), "uint32"),
        (ModbusValue::I32(i32::MIN), "int32"),
        (ModbusValue::I32(-77), "i32"),
        (ModbusValue::F32((-0.15625f32).to_bits()), "float32"),
        (ModbusValue::F32(f32::NAN.to_bits()), "real"),
        (ModbusValue::U64(u64::MAX - 5), "uint64"),
        (ModbusValue::I64(i64::MIN + 1), "int64"),
        (ModbusValue::F64(6.02214076e23f64.to_bits()), "float64"),
    ];
    for (value, tag) in values {
        for order in ALL_ORDERS {
            let registers = encode_value(&value, order).unwrap();
            assert_eq!(registers.len().max(1), value.register_count().max(1));
            assert_eq!(decode_register_value(&registers, tag, 0, order), Ok(value));
        }
    }
}

#[test]
fn test_clamp_to_data_type() {
    assert_eq!(clamp_to_data_type(70000, "uint16"), 65535);
    assert_eq!(clamp_to_data_type(-100, "uint16"), 0);
    assert_eq!(clamp_to_data_type(40000, "int16"), 32767);
    assert_eq!(clamp_to_data_type(-40000, "int16"), -32768);
}

#[test]
fn test_clamp_ranges() {
    assert_eq!(clamp_to_data_type(123, "U16"), 123);
    assert_eq!(clamp_to_data_type(i128::MAX, "uint32"), 4294967295);
    assert_eq!(clamp_to_data_type(-1, "u32"), 0);
    assert_eq!(clamp_to_data_type(i128::MAX, "int32"), 2147483647);
    assert_eq!(clamp_to_data_type(i128::MIN, "i32"), -2147483648);
    assert_eq!(clamp_to_data_type(i128::MAX, "uint64"), u64::MAX as i128);
    assert_eq!(clamp_to_data_type(-5, "u64"), 0);
    assert_eq!(clamp_to_data_type(i128::MAX, "int64"), i64::MAX as i128);
    assert_eq!(clamp_to_data_type(i128::MIN, "I64"), i64::MIN as i128);
    for tag in ["bool", "boolean", "coil", "float32", "f64", "word", "short", "dword", "nothing", ""] {
        assert_eq!(clamp_to_data_type(70000, tag), 70000);
        assert_eq!(clamp_to_data_type(i128::MIN, tag), i128::MIN);
        assert_eq!(clamp_bounds(tag), None);
    }
    assert_eq!(clamp_float("float32"), Some(DataType::F32));
    assert_eq!(clamp_float("F32"), Some(DataType::F32));
    assert_eq!(clamp_float("Float64"), Some(DataType::F64));
    assert_eq!(clamp_float("f64"), Some(DataType::F64));
    for tag in ["float", "real", "double", "lreal", "uint16", "bool", ""] {
        assert_eq!(clamp_float(tag), None);
    }
    assert_eq!(clamp_bounds("uint16"), Some((0, 65535)));
    assert_eq!(clamp_bounds("i16"), Some((-32768, 32767)));
    assert_eq!(clamp_bounds("Int64"), Some((i64::MIN as i128, i64::MAX as i128)));
}

#[test]
fn test_registers_for_type() {
    assert_eq!(registers_for_type("bool"), 0);
    assert_eq!(registers_for_type("uint16"), 1);
    assert_eq!(registers_for_type("int32"), 2);
    assert_eq!(registers_for_type("float64"), 4);
}

#[test]
fn test_registers_for_every_tag() {
    for tag in ["bool", "boolean", "coil", "COIL"] {
        assert_eq!(registers_for_type(tag), 0, "{}", tag);
    }
    for tag in ["uint16", "u16", "word", "int16", "i16", "short", "Word", "unknown", "", "kelvin"] {
        assert_eq!(registers_for_type(tag), 1, "{}", tag);
    }
    for tag in ["uint32", "u32", "dword", "int32", "i32", "long", "float32", "f32", "float", "real"] {
        assert_eq!(registers_for_type(tag), 2, "{}", tag);
    }
    for tag in [
        "uint64", "u64", "qword", "int64", "i64", "longlong", "float64", "f64", "double", "lreal",
        "LREAL",
    ] {
        assert_eq!(registers_for_type(tag), 4, "{}", tag);
    }
    assert_eq!(DataType::from_tag("double"), Some(DataType::F64));
    assert_eq!(DataType::from_tag("doubles"), None);
    assert_eq!(DataType::F32.register_count(), 2);
    assert_eq!(DataType::Bool.register_count(), 0);
}

#[test]
fn test_build_fc05_pdu() {
    let pdu = ModbusCodec::build_fc05_pdu(0x0100, true).unwrap();
    assert_eq!(pdu.as_slice(), &[0x05, 0x01, 0x00, 0xFF, 0x00]);
}

#[test]
fn test_build_fc06_pdu() {
    let pdu = ModbusCodec::build_fc06_pdu(0x0100, 0x1234).unwrap();
    assert_eq!(pdu.as_slice(), &[0x06, 0x01, 0x00, 0x12, 0x34]);
}

#[test]
fn test_build_fc15_pdu() {
    let pdu = ModbusCodec::build_fc15_pdu(0x0100, &[true, false, true]).unwrap();
    // FC15: [FC, AddrH, AddrL, QtyH, QtyL, ByteCount, Data...]
    assert_eq!(pdu.as_slice(), &[0x0F, 0x01, 0x00, 0x00, 0x03, 0x01, 0b0000_0101]);
}

#[test]
fn test_build_fc16_pdu() {
    let pdu = ModbusCodec::build_fc16_pdu(0x0100, &[0x1234, 0x5678]).unwrap();
    assert_eq!(
        pdu.as_slice(),
        &[0x10, 0x01, 0x00, 0x00, 0x02, 0x04, 0x12, 0x34, 0x56, 0x78]
    );
}

#[test]
fn test_codec_builders_refuse_bad_counts() {
    assert_eq!(
        ModbusCodec::build_fc15_pdu(0, &[]).unwrap_err(),
        ModbusError::InvalidQuantity { quantity: 0, max: 1968 }
    );
    assert_eq!(
        ModbusCodec::build_fc15_pdu(0, &vec![false; 1969]).unwrap_err(),
        ModbusError::InvalidQuantity { quantity: 1969, max: 1968 }
    );
    assert_eq!(ModbusCodec::build_fc15_pdu(0, &vec![false; 1968]).unwrap().len(), 252);
    assert_eq!(
        ModbusCodec::build_fc16_pdu(0, &[]).unwrap_err(),
        ModbusError::InvalidQuantity { quantity: 0, max: 123 }
    );
    assert_eq!(
        ModbusCodec::build_fc16_pdu(0, &vec![0; 124]).unwrap_err(),
        ModbusError::InvalidQuantity { quantity: 124, max: 123 }
    );
    assert_eq!(ModbusCodec::build_fc16_pdu(0, &vec![0; 123]).unwrap().len(), 252);
    assert_eq!(
        ModbusCodec::build_fc05_pdu(0x0100, false).unwrap().as_slice(),
        &[0x05, 0x01, 0x00, 0x00, 0x00]
    );
}

#[test]
fn test_parse_write_response() {
    let ok = ModbusPdu::from_slice(&[0x06, 0x00, 0x01, 0x00, 0x03]).unwrap();
    assert_eq!(ModbusCodec::parse_write_response(&ok, 0x06), Ok(true));
    assert_eq!(
        ModbusCodec::parse_write_response(&ok, 0x10),
        Err(ModbusError::FunctionCodeMismatch { expected: 0x10, actual: 0x06 })
    );
    let empty = ModbusPdu::new();
    assert_eq!(
        ModbusCodec::parse_write_response(&empty, 0x06),
        Err(ModbusError::EmptyResponse)
    );
    let exception = ModbusPdu::from_slice(&[0x86, 0x02]).unwrap();
    assert_eq!(
        ModbusCodec::parse_write_response(&exception, 0x06),
        Err(ModbusError::Exception { function: 0x06, code: 0x02 })
    );
    let bare = ModbusPdu::from_slice(&[0x90]).unwrap();
    assert_eq!(
        ModbusCodec::parse_write_response(&bare, 0x90),
        Err(ModbusError::Exception { function: 0x10, code: 0 })
    );
}

#[test]
fn test_parse_read_response_registers() {
    let pdu = ModbusPdu::from_slice(&[0x03, 0x04, 0x12, 0x34, 0x56, 0x78]).unwrap();
    assert_eq!(parse_read_response(&pdu, 3, 2), Ok(vec![0x1234, 0x5678]));
    assert_eq!(parse_read_response(&pdu, 3, 0), Ok(vec![0x1234, 0x5678]));
    assert_eq!(
        parse_read_response(&pdu, 4, 2),
        Err(ModbusError::FunctionCodeMismatch { expected: 4, actual: 3 })
    );
    let pdu = ModbusPdu::from_slice(&[0x04, 0x02, 0x12, 0x34, 0x56, 0x78]).unwrap();
    assert_eq!(parse_read_response(&pdu, 4, 2), Ok(vec![0x1234]));
}

#[test]
fn test_parse_read_response_degrades() {
    let empty = ModbusPdu::new();
    assert_eq!(parse_read_response(&empty, 3, 2), Ok(vec![]));
    let one = ModbusPdu::from_slice(&[0x04]).unwrap();
    assert_eq!(parse_read_response(&one, 3, 2), Ok(vec![]));
    let short = ModbusPdu::from_slice(&[0x03, 0x06, 0x12, 0x34, 0x56]).unwrap();
    assert_eq!(parse_read_response(&short, 3, 3), Ok(vec![0x1234]));
    let odd = ModbusPdu::from_slice(&[0x03, 0x03, 0x12, 0x34, 0x56, 0x78]).unwrap();
    assert_eq!(parse_read_response(&odd, 3, 2), Ok(vec![0x1234]));
    let none = ModbusPdu::from_slice(&[0x03, 0x00, 0x12, 0x34]).unwrap();
    assert_eq!(parse_read_response(&none, 3, 2), Ok(vec![]));
    let bare = ModbusPdu::from_slice(&[0x03, 0xFF]).unwrap();
    assert_eq!(parse_read_response(&bare, 3, 2), Ok(vec![]));
}

#[test]
fn test_parse_read_response_coils() {
    let pdu = ModbusPdu::from_slice(&[0x01, 0x02, 0xCD, 0x01]).unwrap();
    assert_eq!(parse_read_response(&pdu, 1, 10), Ok(vec![0xCD, 0x01]));
    let pdu = ModbusPdu::from_slice(&[0x02, 0x05, 0xCD, 0x01, 0xFF]).unwrap();
    assert_eq!(parse_read_response(&pdu, 2, 10), Ok(vec![0xCD, 0x01, 0xFF]));
    let pdu = ModbusPdu::from_slice(&[0x02, 0x01, 0xCD, 0x01, 0xFF]).unwrap();
    assert_eq!(parse_read_response(&pdu, 2, 10), Ok(vec![0xCD]));
}

#[test]
fn test_parse_read_response_other_codes() {
    for fc in [0u8, 5, 6, 15, 16, 0x83] {
        let pdu = ModbusPdu::from_slice(&[fc, 0x02, 0x00, 0x01]).unwrap();
        assert_eq!(
            parse_read_response(&pdu, fc, 1),
            Err(ModbusError::UnsupportedFunctionCode { code: fc })
        );
    }
}

#[test]
fn test_unpack_bits() {
    assert_eq!(unpack_bits(&[], 10), Vec::<bool>::new());
    assert_eq!(unpack_bits(&[0xFF], 0), Vec::<bool>::new());
    assert_eq!(unpack_bits(&[0b0000_0101], 3), vec![true, false, true]);
    assert_eq!(
        unpack_bits(&[0xCD, 0x01], 10),
        vec![true, false, true, true, false, false, true, true, true, false]
    );
    assert_eq!(unpack_bits(&[0x80], 100), vec![false, false, false, false, false, false, false, true]);
    assert_eq!(unpack_bits(&[0xFF01], 8), vec![true, false, false, false, false, false, false, false]);
}

#[test]
fn test_unpack_of_pack_is_identity() {
    for n in [0usize, 1, 7, 8, 9, 15, 16, 17, 100, 1968] {
        let coils: Vec<bool> = (0..n).map(|i| (i * i + i / 3) % 3 == 0).collect();
        let bytes: Vec<u16> = pack_coils(&coils).iter().map(|b| u16::from(*b)).collect();
        assert_eq!(bytes.len(), (n + 7) / 8);
        assert_eq!(unpack_bits(&bytes, n), coils);
    }
}
