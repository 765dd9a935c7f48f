use voltage_modbus::error::ModbusError;
use voltage_modbus::frame::{
    crc16, mbap_frame, parse_mbap_header, parse_rtu_frame, rtu_frame, rtu_response_length,
    MbapHeader,
};
use voltage_modbus::pdu::ModbusPdu;

#[test]
fn test_crc16_known_values() {
    assert_eq!(crc16(&[]), 0xFFFF);
    assert_eq!(crc16(&[0]), 0x40BF);
    assert_eq!(crc16(b"123456789"), 0x4B37);
    assert_eq!(crc16(&[0x01, 0x03, 0x00, 0x00, 0x00, 0x0A]), 0xCDC5);
    assert_eq!(crc16(&[0x11, 0x03, 0x00, 0x6B, 0x00, 0x03]), 0x8776);
    assert_eq!(crc16(&[0x01, 0x83, 0x02]), 0xF1C0);
}

#[test]
fn test_rtu_frame() {
    let pdu = ModbusPdu::from_slice(&[0x03, 0x00, 0x00, 0x00, 0x0A]).unwrap();
    assert_eq!(rtu_frame(0x01, &pdu), vec![0x01, 0x03, 0x00, 0x00, 0x00, 0x0A, 0xC5, 0xCD]);
    let pdu = ModbusPdu::from_slice(&[0x03, 0x00, 0x6B, 0x00, 0x03]).unwrap();
    assert_eq!(rtu_frame(0x11, &pdu), vec![0x11, 0x03, 0x00, 0x6B, 0x00, 0x03, 0x76, 0x87]);
    assert_eq!(rtu_frame(9, &ModbusPdu::new()).len(), 3);
}

#[test]
fn test_parse_rtu_frame() {
    let (slave, pdu) = parse_rtu_frame(&[0x01, 0x03, 0x00, 0x00, 0x00, 0x0A, 0xC5, 0xCD]).unwrap();
    assert_eq!(slave, 1);
    assert_eq!(pdu.as_slice(), &[0x03, 0x00, 0x00, 0x00, 0x0A]);
    assert_eq!(
        parse_rtu_frame(&[0x01, 0x03, 0x00, 0x00, 0x00, 0x0A, 0xCD, 0xC5]).unwrap_err(),
        ModbusError::ChecksumMismatch { expected: 0xCDC5, actual: 0xC5CD }
    );
    assert_eq!(
        parse_rtu_frame(&[0x01, 0x03, 0x00, 0x00, 0x00, 0x0B, 0xC5, 0xCD]).unwrap_err().kind(),
        voltage_modbus::error::ErrorKind::Protocol
    );
    assert_eq!(parse_rtu_frame(&[]).unwrap_err(), ModbusError::MalformedFrame);
    assert_eq!(parse_rtu_frame(&[1, 0xC0, 0x80]).unwrap_err(), ModbusError::MalformedFrame);
    assert_eq!(parse_rtu_frame(&[0u8; 257]).unwrap_err(), ModbusError::MalformedFrame);
    let (slave, pdu) = parse_rtu_frame(&[0x01, 0x83, 0x02, 0xC0, 0xF1]).unwrap();
    assert_eq!(slave, 1);
    assert!(pdu.is_exception());
    assert_eq!(pdu.exception_code(), Some(2));
}

#[test]
fn test_rtu_frame_reads_back() {
    for len in [1usize, 2, 5, 100, 253] {
        let content: Vec<u8> = (0..len).map(|i| (i * 7 + 3) as u8).collect();
        let pdu = ModbusPdu::from_slice(&content).unwrap();
        let frame = rtu_frame(247, &pdu);
        assert_eq!(frame.len(), len + 3);
        let (slave, back) = parse_rtu_frame(&frame).unwrap();
        assert_eq!(slave, 247);
        assert_eq!(back.as_slice(), &content[..]);
        let mut broken = frame.clone();
        broken[len / 2] ^= 0x10;
        assert!(parse_rtu_frame(&broken).is_err());
    }
}

#[test]
fn test_mbap_frame() {
    let pdu = ModbusPdu::from_slice(&[0x03, 0x00, 0x6B, 0x00, 0x03]).unwrap();
    assert_eq!(
        mbap_frame(0x1234, 0x11, &pdu),
        vec![0x12, 0x34, 0x00, 0x00, 0x00, 0x06, 0x11, 0x03, 0x00, 0x6B, 0x00, 0x03]
    );
    let full = ModbusPdu::from_slice(&[0xAAu8; 253]).unwrap();
    let frame = mbap_frame(0, 255, &full);
    assert_eq!(frame.len(), 260);
    assert_eq!(&frame[..7], &[0, 0, 0, 0, 0, 254, 255]);
}

#[test]
fn test_parse_mbap_header() {
    assert_eq!(
        parse_mbap_header(&[0x12, 0x34, 0x00, 0x00, 0x00, 0x06, 0x11]),
        Ok(MbapHeader { transaction_id: 0x1234, pdu_len: 5, unit_id: 0x11 })
    );
    assert_eq!(
        parse_mbap_header(&[0, 1, 0, 0, 0, 254, 9]),
        Ok(MbapHeader { transaction_id: 1, pdu_len: 253, unit_id: 9 })
    );
    assert_eq!(
        parse_mbap_header(&[0, 1, 0, 0, 0, 2, 9]),
        Ok(MbapHeader { transaction_id: 1, pdu_len: 1, unit_id: 9 })
    );
    for bad in [
        vec![0u8, 1, 0, 0, 0, 255, 9],
        vec![0, 1, 0, 0, 1, 0, 9],
        vec![0, 1, 0, 0, 0, 1, 9],
        vec![0, 1, 0, 0, 0, 0, 9],
        vec![0, 1, 0, 1, 0, 6, 9],
        vec![0, 1, 1, 0, 0, 6, 9],
        vec![0, 1, 0, 0, 0, 6],
        vec![0, 1, 0, 0, 0, 6, 9, 3],
        vec![],
    ] {
        assert_eq!(parse_mbap_header(&bad), Err(ModbusError::MalformedFrame), "{:?}", bad);
    }
}

#[test]
fn test_mbap_header_reads_back() {
    for len in [1usize, 5, 253] {
        let pdu = ModbusPdu::from_slice(&vec![7u8; len]).unwrap();
        let frame = mbap_frame(0xBEEF, 42, &pdu);
        assert_eq!(
            parse_mbap_header(&frame[..7]),
            Ok(MbapHeader { transaction_id: 0xBEEF, pdu_len: len, unit_id: 42 })
        );
        assert_eq!(&frame[7..], pdu.as_slice());
    }
}

#[test]
fn test_rtu_response_length() {
    assert_eq!(rtu_response_length(0x83, 0x02), Some(5));
    assert_eq!(rtu_response_length(0x80, 0xFF), Some(5));
    assert_eq!(rtu_response_length(0x03, 4), Some(9));
    assert_eq!(rtu_response_length(0x01, 0), Some(5));
    assert_eq!(rtu_response_length(0x04, 250), Some(255));
    assert_eq!(rtu_response_length(0x02, 255), Some(260));
    for fc in [5u8, 6, 15, 16] {
        assert_eq!(rtu_response_length(fc, 77), Some(8));
    }
    for fc in [0u8, 7, 0x17, 0x7F] {
        assert_eq!(rtu_response_length(fc, 1), None);
    }
}
