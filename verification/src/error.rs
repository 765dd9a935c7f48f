//! Error type shared by every fallible operation of the library.

use vstd::prelude::*;

verus! {

/// Why an operation was refused or a frame rejected.
#[derive(Debug, Clone, PartialEq, Eq)]
pub enum ModbusError {
    /// A PDU already holds the protocol maximum and cannot take more.
    BufferFull,
    /// Appending `additional` bytes to a PDU of `len` bytes would pass the
    /// protocol maximum.
    WouldExceedCapacity { len: usize, additional: usize },
    /// A byte slice of `len` bytes is longer than any PDU may be.
    TooLarge { len: usize },
    /// A response PDU holds no bytes at all.
    EmptyResponse,
    /// A frame is too short or too long, or its header is not that of
    /// the protocol.
    MalformedFrame,
    /// The checksum of a serial frame is not the one its bytes give.
    ChecksumMismatch { expected: u16, actual: u16 },
    /// A response carries another function code than the request.
    FunctionCodeMismatch { expected: u8, actual: u8 },
    /// A response was to be read as a function code that has no read layout.
    UnsupportedFunctionCode { code: u8 },
    /// A request names a function code that the operation does not serve.
    InvalidFunction { code: u8 },
    /// A request asks for `quantity` items where at least one and at most
    /// `max` are allowed.
    InvalidQuantity { quantity: usize, max: usize },
    /// A bit position past the last bit of a register.
    InvalidBitPosition { position: u8 },
    /// Fewer registers were supplied than the data type takes.
    InsufficientRegisters { required: usize, available: usize },
    /// A data type tag that names no known type.
    UnsupportedType,
    /// The device answered with an exception response.
    Exception { function: u8, code: u8 },
    /// The transport could not reach the device.
    Connection { message: String },
    /// The device did not answer in time.
    Timeout { operation: String, timeout_ms: u64 },
    /// The client was set up with unusable parameters.
    Configuration { message: String },
}

/// Result of a fallible library operation.
pub type ModbusResult<T> = Result<T, ModbusError>;

/// The broad class an error belongs to.
#[derive(Debug, Clone, Copy, PartialEq, Eq, Structural)]
pub enum ErrorKind {
    /// Malformed frame, function code mismatch, buffer capacity violation.
    Protocol,
    /// Out-of-range quantity, unusable bit position, too few registers,
    /// unknown type tag.
    InvalidData,
    /// Function code that the operation does not serve.
    InvalidFunction,
    /// Exception response of the device.
    Exception,
    /// Transport could not reach the device.
    Connection,
    /// No answer in time.
    Timeout,
    /// Unusable client parameters.
    Configuration,
}

impl ModbusError {
    /// The class of `self`.
    pub open spec fn spec_kind(&self) -> ErrorKind {
        match self {
            ModbusError::BufferFull => ErrorKind::Protocol,
            ModbusError::WouldExceedCapacity { .. } => ErrorKind::Protocol,
            ModbusError::TooLarge { .. } => ErrorKind::Protocol,
            ModbusError::EmptyResponse => ErrorKind::Protocol,
            ModbusError::MalformedFrame => ErrorKind::Protocol,
            ModbusError::ChecksumMismatch { .. } => ErrorKind::Protocol,
            ModbusError::FunctionCodeMismatch { .. } => ErrorKind::Protocol,
            ModbusError::UnsupportedFunctionCode { .. } => ErrorKind::Protocol,
            ModbusError::InvalidFunction { .. } => ErrorKind::InvalidFunction,
            ModbusError::InvalidQuantity { .. } => ErrorKind::InvalidData,
            ModbusError::InvalidBitPosition { .. } => ErrorKind::InvalidData,
            ModbusError::InsufficientRegisters { .. } => ErrorKind::InvalidData,
            ModbusError::UnsupportedType => ErrorKind::InvalidData,
            ModbusError::Exception { .. } => ErrorKind::Exception,
            ModbusError::Connection { .. } => ErrorKind::Connection,
            ModbusError::Timeout { .. } => ErrorKind::Timeout,
            ModbusError::Configuration { .. } => ErrorKind::Configuration,
        }
    }

    /// Classifies the error.
    #[verifier::when_used_as_spec(spec_kind)]
    pub fn kind(&self) -> (k: ErrorKind)
        ensures
            k == self.spec_kind(),
    {
        match self {
            ModbusError::BufferFull => ErrorKind::Protocol,
            ModbusError::WouldExceedCapacity { .. } => ErrorKind::Protocol,
            ModbusError::TooLarge { .. } => ErrorKind::Protocol,
            ModbusError::EmptyResponse => ErrorKind::Protocol,
            ModbusError::MalformedFrame => ErrorKind::Protocol,
            ModbusError::ChecksumMismatch { .. } => ErrorKind::Protocol,
            ModbusError::FunctionCodeMismatch { .. } => ErrorKind::Protocol,
            ModbusError::UnsupportedFunctionCode { .. } => ErrorKind::Protocol,
            ModbusError::InvalidFunction { .. } => ErrorKind::InvalidFunction,
            ModbusError::InvalidQuantity { .. } => ErrorKind::InvalidData,
            ModbusError::InvalidBitPosition { .. } => ErrorKind::InvalidData,
            ModbusError::InsufficientRegisters { .. } => ErrorKind::InvalidData,
            ModbusError::UnsupportedType => ErrorKind::InvalidData,
            ModbusError::Exception { .. } => ErrorKind::Exception,
            ModbusError::Connection { .. } => ErrorKind::Connection,
            ModbusError::Timeout { .. } => ErrorKind::Timeout,
            ModbusError::Configuration { .. } => ErrorKind::Configuration,
        }
    }
}

} // verus!
