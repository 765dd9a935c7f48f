use voltage_modbus::client::utils;
use voltage_modbus::client::{
    check_exception, read_bits_response, read_registers_response, read_request, ChunkAction,
    ChunkedRead,
};
use voltage_modbus::device_limits::DeviceLimits;
use voltage_modbus::error::ModbusError;
use voltage_modbus::pdu::ModbusPdu;

/// A device that answers from a queue and records what it was asked.
struct MockDevice<T> {
    requests: Vec<(u16, u16)>,
    delays: Vec<u64>,
    responses: Vec<Result<Vec<T>, ModbusError>>,
}

impl<T> MockDevice<T> {
    fn new(mut responses: Vec<Result<Vec<T>, ModbusError>>) -> Self {
        responses.reverse();
        MockDevice { requests: Vec::new(), delays: Vec::new(), responses }
    }

    fn read(&mut self, address: u16, count: u16) -> Result<Vec<T>, ModbusError> {
        self.requests.push((address, count));
        match self.responses.pop() {
            Some(response) => response,
            None => Err(ModbusError::Connection { message: String::from("No response prepared") }),
        }
    }
}

/// Runs a chunked read against the mock device, as a client does.
fn read_batch<T>(
    device: &mut MockDevice<T>,
    address: u16,
    quantity: u16,
    max_per_request: u16,
    delay_ms: u64,
) -> Result<Vec<T>, ModbusError> {
    let (mut state, mut action) = ChunkedRead::start(address, quantity, max_per_request, delay_ms);
    loop {
        match action {
            ChunkAction::Complete { data } => return Ok(data),
            ChunkAction::Abort { error } => return Err(error),
            ChunkAction::Read { delay_ms, address, count } => {
                device.delays.push(delay_ms);
                let outcome = device.read(address, count);
                let next = state.on_response(outcome);
                state = next.0;
                action = next.1;
            }
        }
    }
}

#[test]
fn test_register_conversion() {
    let registers = vec![0x1234, 0x5678, 0xABCD, 0xEF01];
    let u32_values = utils::registers_to_u32_be(&registers);
    assert_eq!(u32_values, vec![0x12345678, 0xABCDEF01]);

    let back_to_registers = utils::u32_to_registers_be(&u32_values);
    assert_eq!(back_to_registers, registers);
}

#[test]
fn test_register_conversion_edges() {
    assert_eq!(utils::registers_to_u32_be(&[]), Vec::<u32>::new());
    assert_eq!(utils::registers_to_u32_be(&[0x1234]), Vec::<u32>::new());
    assert_eq!(utils::registers_to_u32_be(&[1, 2, 3]), vec![0x0001_0002]);
    assert_eq!(utils::registers_to_i32_be(&[0xFFFF, 0xFFFE, 0x7FFF]), vec![-2]);
    assert_eq!(
        utils::registers_to_i32_be(&[0x8000, 0, 0x7FFF, 0xFFFF]),
        vec![i32::MIN, i32::MAX]
    );
    assert_eq!(utils::u32_to_registers_be(&[]), Vec::<u16>::new());
    assert_eq!(utils::u32_to_registers_be(&[0xFFFF_0000, 1]), vec![0xFFFF, 0, 0, 1]);
}

#[test]
fn test_float_conversion() {
    let float_values = vec![1.5f32, -2.75f32];
    let bits: Vec<u32> = float_values.iter().map(|v| v.to_bits()).collect();
    let registers = utils::u32_to_registers_be(&bits);
    let back_to_floats: Vec<f32> =
        utils::registers_to_u32_be(&registers).into_iter().map(f32::from_bits).collect();

    for (wanted, converted) in float_values.iter().zip(back_to_floats.iter()) {
        assert!((wanted - converted).abs() < f32::EPSILON);
    }
}

#[test]
fn test_read_03_batch_single_chunk() {
    let values: Vec<u16> = (1..=10).collect();
    let mut device = MockDevice::new(vec![Ok(values.clone())]);
    let limits = DeviceLimits::new().with_max_read_registers(50);

    let result = read_batch(&mut device, 0, 10, limits.max_read_registers, 0).unwrap();

    assert_eq!(result, values);
    assert_eq!(device.requests.len(), 1);
    assert_eq!(device.requests[0], (0, 10));
}

#[test]
fn test_read_03_batch_multiple_chunks() {
    let chunk1: Vec<u16> = (1..=50).collect();
    let chunk2: Vec<u16> = (51..=100).collect();
    let chunk3: Vec<u16> = (101..=120).collect();
    let mut device = MockDevice::new(vec![Ok(chunk1), Ok(chunk2), Ok(chunk3)]);
    let limits = DeviceLimits::new().with_max_read_registers(50);

    let result = read_batch(&mut device, 0, 120, limits.max_read_registers, 0).unwrap();

    let expected: Vec<u16> = (1..=120).collect();
    assert_eq!(result, expected);

    assert_eq!(device.requests.len(), 3);
    assert_eq!(device.requests[0], (0, 50));
    assert_eq!(device.requests[1], (50, 50));
    assert_eq!(device.requests[2], (100, 20));
    assert_eq!(device.requests.len(), limits.read_request_count(120) as usize);
}

#[test]
fn test_read_03_batch_exact_boundary() {
    let values: Vec<u16> = (1..=50).collect();
    let mut device = MockDevice::new(vec![Ok(values.clone())]);
    let limits = DeviceLimits::new().with_max_read_registers(50);

    let result = read_batch(&mut device, 100, 50, limits.max_read_registers, 0).unwrap();

    assert_eq!(result, values);
    assert_eq!(device.requests.len(), 1);
    assert_eq!(device.requests[0], (100, 50));
}

#[test]
fn test_read_03_batch_empty() {
    let mut device: MockDevice<u16> = MockDevice::new(vec![]);
    let limits = DeviceLimits::new();

    let result = read_batch(&mut device, 0, 0, limits.max_read_registers, 5).unwrap();

    assert!(result.is_empty());
    assert_eq!(device.requests.len(), 0);
}

#[test]
fn test_read_03_batch_error_propagation() {
    let chunk1: Vec<u16> = (1..=50).collect();
    let timeout =
        ModbusError::Timeout { operation: String::from("Simulated timeout"), timeout_ms: 1000 };
    let mut device = MockDevice::new(vec![Ok(chunk1), Err(timeout.clone())]);
    let limits = DeviceLimits::new().with_max_read_registers(50);

    let result = read_batch(&mut device, 0, 100, limits.max_read_registers, 0);

    assert!(result.is_err());
    assert_eq!(result, Err(timeout));
    assert_eq!(device.requests.len(), 2);
}

#[test]
fn test_second_of_three_chunks_fails() {
    let chunk1: Vec<u16> = (1..=50).collect();
    let chunk3: Vec<u16> = (101..=120).collect();
    let failure = ModbusError::Exception { function: 3, code: 4 };
    let mut device = MockDevice::new(vec![Ok(chunk1), Err(failure.clone()), Ok(chunk3)]);

    let result = read_batch(&mut device, 0, 120, 50, 0);

    assert_eq!(result, Err(failure));
    assert_eq!(device.requests, vec![(0, 50), (50, 50)]);
    assert_eq!(device.responses.len(), 1);
}

#[test]
fn test_read_01_batch_coils() {
    let chunk1: Vec<bool> = (0..500).map(|i| i % 2 == 0).collect();
    let chunk2: Vec<bool> = (0..100).map(|i| i % 3 == 0).collect();
    let mut expected = chunk1.clone();
    expected.extend_from_slice(&chunk2);
    let mut device = MockDevice::new(vec![Ok(chunk1), Ok(chunk2)]);
    let limits = DeviceLimits::new().with_max_read_coils(500);

    let result = read_batch(&mut device, 0, 600, limits.max_read_coils, 0).unwrap();

    assert_eq!(result.len(), 600);
    assert_eq!(result, expected);
    assert_eq!(device.requests.len(), 2);
    assert_eq!(device.requests[0].1, 500);
    assert_eq!(device.requests[1].1, 100);
}

#[test]
fn test_batch_delay_only_between_chunks() {
    let mut device = MockDevice::new(vec![Ok(vec![1u16; 50]), Ok(vec![2; 50]), Ok(vec![3; 20])]);
    let result = read_batch(&mut device, 10, 120, 50, 7).unwrap();
    assert_eq!(result.len(), 120);
    assert_eq!(device.delays, vec![0, 7, 7]);
    assert_eq!(device.requests, vec![(10, 50), (60, 50), (110, 20)]);
}

#[test]
fn test_batch_address_saturates() {
    let mut device = MockDevice::new(vec![Ok(vec![1u16; 100]), Ok(vec![2; 100]), Ok(vec![3; 50])]);
    let result = read_batch(&mut device, 65500, 250, 100, 0).unwrap();
    assert_eq!(result.len(), 250);
    assert_eq!(device.requests, vec![(65500, 100), (65535, 100), (65535, 50)]);
}

#[test]
fn test_batch_keeps_what_the_device_gives() {
    let mut device = MockDevice::new(vec![Ok(vec![1u16, 2]), Ok(vec![]), Ok(vec![3, 4, 5])]);
    let result = read_batch(&mut device, 0, 5, 2, 0).unwrap();
    assert_eq!(result, vec![1, 2, 3, 4, 5]);
    assert_eq!(device.requests, vec![(0, 2), (2, 2), (4, 1)]);
}

#[test]
fn test_batch_without_room_asks_for_nothing() {
    let (_state, action): (ChunkedRead<u16>, _) = ChunkedRead::start(5, 9, 0, 0);
    match action {
        ChunkAction::Read { delay_ms, address, count } => {
            assert_eq!((delay_ms, address, count), (0, 5, 0));
        }
        _ => panic!("Expected a read"),
    }
}

#[test]
fn test_read_request() {
    assert_eq!(read_request(3, 0x006B, 3).unwrap().as_slice(), &[0x03, 0x00, 0x6B, 0x00, 0x03]);
    assert_eq!(read_request(1, 0x0013, 2000).unwrap().as_slice(), &[0x01, 0x00, 0x13, 0x07, 0xD0]);
    assert_eq!(read_request(4, 0, 125).unwrap().as_slice(), &[0x04, 0, 0, 0, 125]);
    assert_eq!(
        read_request(3, 0, 0).unwrap_err(),
        ModbusError::InvalidQuantity { quantity: 0, max: 125 }
    );
    assert_eq!(
        read_request(2, 0, 0).unwrap_err(),
        ModbusError::InvalidQuantity { quantity: 0, max: 2000 }
    );
    assert_eq!(
        read_request(3, 0, 126).unwrap_err(),
        ModbusError::InvalidQuantity { quantity: 126, max: 125 }
    );
    assert_eq!(
        read_request(2, 0, 2001).unwrap_err(),
        ModbusError::InvalidQuantity { quantity: 2001, max: 2000 }
    );
    assert_eq!(read_request(5, 0, 1).unwrap_err(), ModbusError::InvalidFunction { code: 5 });
    assert_eq!(read_request(0, 0, 0).unwrap_err(), ModbusError::InvalidFunction { code: 0 });
}

#[test]
fn test_read_responses() {
    let registers = ModbusPdu::from_slice(&[0x03, 0x04, 0x12, 0x34, 0x56, 0x78]).unwrap();
    assert_eq!(read_registers_response(&registers, 3), Ok(vec![0x1234, 0x5678]));
    assert_eq!(
        read_registers_response(&registers, 4),
        Err(ModbusError::FunctionCodeMismatch { expected: 4, actual: 3 })
    );
    let coils = ModbusPdu::from_slice(&[0x01, 0x02, 0xCD, 0x01]).unwrap();
    assert_eq!(
        read_bits_response(&coils, 1, 10),
        Ok(vec![true, false, true, true, false, false, true, true, true, false])
    );
    assert_eq!(read_bits_response(&coils, 1, 3), Ok(vec![true, false, true]));
    assert_eq!(read_bits_response(&coils, 1, 2000).unwrap().len(), 16);
    assert_eq!(
        read_bits_response(&coils, 2, 10),
        Err(ModbusError::FunctionCodeMismatch { expected: 2, actual: 1 })
    );
    let exception = ModbusPdu::from_slice(&[0x83, 0x02]).unwrap();
    assert_eq!(
        read_registers_response(&exception, 3),
        Err(ModbusError::Exception { function: 3, code: 2 })
    );
    assert_eq!(
        read_bits_response(&exception, 1, 8),
        Err(ModbusError::Exception { function: 3, code: 2 })
    );
    assert_eq!(check_exception(&exception), Err(ModbusError::Exception { function: 3, code: 2 }));
    let bare = ModbusPdu::from_slice(&[0x81]).unwrap();
    assert_eq!(check_exception(&bare), Err(ModbusError::Exception { function: 1, code: 0 }));
    assert_eq!(check_exception(&registers), Ok(()));
    assert_eq!(check_exception(&ModbusPdu::new()), Ok(()));
    assert_eq!(read_registers_response(&ModbusPdu::new(), 3), Ok(vec![]));
    assert_eq!(read_bits_response(&ModbusPdu::new(), 1, 8), Ok(vec![]));
}
