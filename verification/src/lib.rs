//! Client-side Modbus protocol core: PDU construction and parsing,
//! byte-order-aware value encoding, request chunking and write batching.
//!
//! | Code | Function |
//! |------|----------|
//! | 0x01 | Read Coils |
//! | 0x02 | Read Discrete Inputs |
//! | 0x03 | Read Holding Registers |
//! | 0x04 | Read Input Registers |
//! | 0x05 | Write Single Coil |
//! | 0x06 | Write Single Register |
//! | 0x0F | Write Multiple Coils |
//! | 0x10 | Write Multiple Registers |

use vstd::prelude::*;
use vstd::string::StringExecFns;

pub mod constants;
pub mod error;
pub mod bytes;
pub mod pdu;
pub mod frame;
pub mod value;
pub mod codec;
pub mod device_limits;
pub mod client;
pub mod batcher;

pub use batcher::{BatchCommand, CommandBatcher, CommandGroups};
pub use batcher::{DEFAULT_BATCH_WINDOW_MS, DEFAULT_MAX_BATCH_SIZE};
pub use bytes::{regs_to_bytes_4, regs_to_bytes_8, regs_to_i32, regs_to_u32, ByteOrder};
pub use client::{ChunkAction, ChunkedRead};
pub use codec::{
    clamp_to_data_type, decode_register_value, encode_value, parse_read_response,
    registers_for_type, DataType, ModbusCodec,
};
pub use constants::{
    MAX_PDU_SIZE, MAX_READ_COILS, MAX_READ_REGISTERS, MAX_WRITE_COILS, MAX_WRITE_REGISTERS,
};
pub use device_limits::DeviceLimits;
pub use device_limits::{
    DEFAULT_INTER_REQUEST_DELAY_MS, DEFAULT_MAX_READ_COILS, DEFAULT_MAX_READ_REGISTERS,
    DEFAULT_MAX_WRITE_COILS, DEFAULT_MAX_WRITE_REGISTERS,
};
pub use error::{ErrorKind, ModbusError, ModbusResult};
pub use pdu::{ModbusPdu, PduBuilder};
pub use value::ModbusValue;

verus! {

/// Default timeout for operations, in milliseconds.
pub const DEFAULT_TIMEOUT_MS: u64 = 5000;

/// Default Modbus TCP port.
pub const DEFAULT_TCP_PORT: u16 = 502;

/// Version of the library.
pub const VERSION: &'static str = "0.4.2";

/// What `info` says, given the version.
pub open spec fn info_text(version: Seq<char>) -> Seq<char> {
    "Voltage Modbus v"@ + version
        + " - High-performance industrial Modbus library by Evan Liu"@
}

/// One line that names the library and its version.
pub fn info() -> (text: String)
    ensures
        text@ == info_text(VERSION@),
{
    String::from_str("Voltage Modbus v").concat(VERSION).concat(
        " - High-performance industrial Modbus library by Evan Liu",
    )
}

} // verus!
