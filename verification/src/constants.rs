//! Protocol constants of the Modbus application layer.

use vstd::prelude::*;

verus! {

/// Length of the MBAP header that precedes the unit identifier on TCP.
pub const MBAP_HEADER_LEN: usize = 6;

/// Largest PDU the protocol allows: a 256-byte serial frame less one
/// address byte and two CRC bytes.
pub const MAX_PDU_SIZE: usize = 253;

/// Largest value of the MBAP length field (unit identifier plus PDU).
pub const MAX_MBAP_LENGTH: usize = 1 + MAX_PDU_SIZE;

/// Size of the buffer used to receive a framed response.
pub const MODBUS_RESPONSE_BUFFER_SIZE: usize = 512;

/// Most registers one read request may ask for.
pub const MAX_READ_REGISTERS: usize = 125;

/// Most registers one write request may carry.
pub const MAX_WRITE_REGISTERS: usize = 123;

/// Most coils one read request may ask for.
pub const MAX_READ_COILS: usize = 2000;

/// Most coils one write request may carry.
pub const MAX_WRITE_COILS: usize = 1968;

/// Read Coils.
pub const FC_READ_COILS: u8 = 0x01;

/// Read Discrete Inputs.
pub const FC_READ_DISCRETE_INPUTS: u8 = 0x02;

/// Read Holding Registers.
pub const FC_READ_HOLDING_REGISTERS: u8 = 0x03;

/// Read Input Registers.
pub const FC_READ_INPUT_REGISTERS: u8 = 0x04;

/// Write Single Coil.
pub const FC_WRITE_SINGLE_COIL: u8 = 0x05;

/// Write Single Register.
pub const FC_WRITE_SINGLE_REGISTER: u8 = 0x06;

/// Write Multiple Coils.
pub const FC_WRITE_MULTIPLE_COILS: u8 = 0x0F;

/// Write Multiple Registers.
pub const FC_WRITE_MULTIPLE_REGISTERS: u8 = 0x10;

/// Illegal Function.
pub const EXCEPTION_ILLEGAL_FUNCTION: u8 = 0x01;

/// Illegal Data Address.
pub const EXCEPTION_ILLEGAL_DATA_ADDRESS: u8 = 0x02;

/// Illegal Data Value.
pub const EXCEPTION_ILLEGAL_DATA_VALUE: u8 = 0x03;

/// Server Device Failure.
pub const EXCEPTION_SERVER_DEVICE_FAILURE: u8 = 0x04;

/// Acknowledge.
pub const EXCEPTION_ACKNOWLEDGE: u8 = 0x05;

/// Server Device Busy.
pub const EXCEPTION_SERVER_DEVICE_BUSY: u8 = 0x06;

/// Memory Parity Error.
pub const EXCEPTION_MEMORY_PARITY_ERROR: u8 = 0x08;

/// Gateway Path Unavailable.
pub const EXCEPTION_GATEWAY_PATH_UNAVAILABLE: u8 = 0x0A;

/// Gateway Target Device Failed to Respond.
pub const EXCEPTION_GATEWAY_TARGET_FAILED: u8 = 0x0B;

} // verus!
