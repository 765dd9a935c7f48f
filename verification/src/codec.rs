//! Conversion between registers and typed values, and the layouts of
//! read responses and write requests.
//!
//! A data type is named by a tag. Tags are compared without regard to the
//! case of ASCII letters; each type has several:
//!
//! | type | registers | tags |
//! |------|-----------|------|
//! | bit | 0 | bool, boolean, coil |
//! | u16 | 1 | uint16, u16, word |
//! | i16 | 1 | int16, i16, short |
//! | u32 | 2 | uint32, u32, dword |
//! | i32 | 2 | int32, i32, long |
//! | f32 | 2 | float32, f32, float, real |
//! | u64 | 4 | uint64, u64, qword |
//! | i64 | 4 | int64, i64, longlong |
//! | f64 | 4 | float64, f64, double, lreal |

use vstd::prelude::*;

use crate::bytes::{
    as_signed, as_unsigned, be_registers, bytes_4_to_regs, bytes_8_to_regs, chars_equal,
    join_register, registers_value_32, registers_value_64, regs_to_i32, regs_to_i64, regs_to_u32,
    regs_to_u64, i32_to_regs, i64_to_regs, u32_to_regs, u64_to_regs, value_registers_32,
    value_registers_64, lemma_u32_roundtrip, lemma_u64_roundtrip, ByteOrder,
};
use crate::constants::{MAX_PDU_SIZE, MAX_WRITE_COILS, MAX_WRITE_REGISTERS};
use crate::error::{ModbusError, ModbusResult};
use crate::pdu::{
    coil_bit, coil_bits, coil_word, packed_coils, five_byte_request, is_exception_code, write_coils_request,
    write_registers_request, ModbusPdu, PduBuilder,
};
use crate::value::ModbusValue;

verus! {

/// The types a tag can name.
#[derive(Debug, Clone, Copy, PartialEq, Eq, Structural)]
pub enum DataType {
    /// A single bit of a register.
    Bool,
    /// Unsigned 16-bit integer.
    U16,
    /// Signed 16-bit integer.
    I16,
    /// Unsigned 32-bit integer.
    U32,
    /// Signed 32-bit integer.
    I32,
    /// 32-bit float.
    F32,
    /// Unsigned 64-bit integer.
    U64,
    /// Signed 64-bit integer.
    I64,
    /// 64-bit float.
    F64,
}

/// Lower-case form of an ASCII letter; any other character is itself.
pub open spec fn ascii_lower(c: char) -> char {
    if 'A' <= c && c <= 'Z' {
        ((c as u8) + 32) as char
    } else {
        c
    }
}

/// A tag as it is compared: ASCII letters in lower case.
pub open spec fn lowered(tag: Seq<char>) -> Seq<char> {
    tag.map_values(|c: char| ascii_lower(c))
}

/// The type that a lower-case tag names.
pub open spec fn type_of_tag(tag: Seq<char>) -> Option<DataType> {
    if tag == "bool"@ || tag == "boolean"@ || tag == "coil"@ {
        Some(DataType::Bool)
    } else if tag == "uint16"@ || tag == "u16"@ || tag == "word"@ {
        Some(DataType::U16)
    } else if tag == "int16"@ || tag == "i16"@ || tag == "short"@ {
        Some(DataType::I16)
    } else if tag == "uint32"@ || tag == "u32"@ || tag == "dword"@ {
        Some(DataType::U32)
    } else if tag == "int32"@ || tag == "i32"@ || tag == "long"@ {
        Some(DataType::I32)
    } else if tag == "float32"@ || tag == "f32"@ || tag == "float"@ || tag == "real"@ {
        Some(DataType::F32)
    } else if tag == "uint64"@ || tag == "u64"@ || tag == "qword"@ {
        Some(DataType::U64)
    } else if tag == "int64"@ || tag == "i64"@ || tag == "longlong"@ {
        Some(DataType::I64)
    } else if tag == "float64"@ || tag == "f64"@ || tag == "double"@ || tag == "lreal"@ {
        Some(DataType::F64)
    } else {
        None
    }
}

/// The type that a tag names, whatever the case of its letters.
pub open spec fn data_type_of(tag: Seq<char>) -> Option<DataType> {
    type_of_tag(lowered(tag))
}

/// The value of bit `position` of a register, bit 0 being the least
/// significant.
pub open spec fn place_value(position: u8) -> int {
    if position == 0 {
        0x1
    } else if position == 1 {
        0x2
    } else if position == 2 {
        0x4
    } else if position == 3 {
        0x8
    } else if position == 4 {
        0x10
    } else if position == 5 {
        0x20
    } else if position == 6 {
        0x40
    } else if position == 7 {
        0x80
    } else if position == 8 {
        0x100
    } else if position == 9 {
        0x200
    } else if position == 10 {
        0x400
    } else if position == 11 {
        0x800
    } else if position == 12 {
        0x1000
    } else if position == 13 {
        0x2000
    } else if position == 14 {
        0x4000
    } else {
        0x8000
    }
}

/// Whether bit `position` of a register is set.
pub open spec fn register_bit(reg: u16, position: u8) -> bool {
    reg as int / place_value(position) % 2 == 1
}

impl DataType {
    /// Number of registers a value of the type takes.
    pub open spec fn spec_register_count(&self) -> usize {
        match self {
            DataType::Bool => 0,
            DataType::U16 | DataType::I16 => 1,
            DataType::U32 | DataType::I32 | DataType::F32 => 2,
            DataType::U64 | DataType::I64 | DataType::F64 => 4,
        }
    }

    /// Number of registers that decoding a value of the type reads: a bit
    /// is taken from one register.
    pub open spec fn registers_read(&self) -> usize {
        match self {
            DataType::Bool => 1,
            _ => self.spec_register_count(),
        }
    }

    /// Number of registers a value of the type takes.
    #[verifier::when_used_as_spec(spec_register_count)]
    pub fn register_count(&self) -> (n: usize)
        ensures
            n == self.spec_register_count(),
    {
        match self {
            DataType::Bool => 0,
            DataType::U16 | DataType::I16 => 1,
            DataType::U32 | DataType::I32 | DataType::F32 => 2,
            DataType::U64 | DataType::I64 | DataType::F64 => 4,
        }
    }

    /// The type that a tag names, or `None` for an unknown tag.
    pub fn from_tag(tag: &str) -> (data_type: Option<DataType>)
        ensures
            data_type == data_type_of(tag@),
    {
        let t = lower_case(tag);
        if chars_equal(&t, "bool") || chars_equal(&t, "boolean") || chars_equal(&t, "coil") {
            Some(DataType::Bool)
        } else if chars_equal(&t, "uint16") || chars_equal(&t, "u16") || chars_equal(&t, "word") {
            Some(DataType::U16)
        } else if chars_equal(&t, "int16") || chars_equal(&t, "i16") || chars_equal(&t, "short") {
            Some(DataType::I16)
        } else if chars_equal(&t, "uint32") || chars_equal(&t, "u32") || chars_equal(&t, "dword") {
            Some(DataType::U32)
        } else if chars_equal(&t, "int32") || chars_equal(&t, "i32") || chars_equal(&t, "long") {
            Some(DataType::I32)
        } else if chars_equal(&t, "float32") || chars_equal(&t, "f32") || chars_equal(&t, "float")
            || chars_equal(&t, "real") {
            Some(DataType::F32)
        } else if chars_equal(&t, "uint64") || chars_equal(&t, "u64") || chars_equal(&t, "qword") {
            Some(DataType::U64)
        } else if chars_equal(&t, "int64") || chars_equal(&t, "i64") || chars_equal(
            &t,
            "longlong",
        ) {
            Some(DataType::I64)
        } else if chars_equal(&t, "float64") || chars_equal(&t, "f64") || chars_equal(&t, "double")
            || chars_equal(&t, "lreal") {
            Some(DataType::F64)
        } else {
            None
        }
    }
}

/// The characters of a tag with ASCII letters in lower case.
fn lower_case(tag: &str) -> (chars: Vec<char>)
    ensures
        chars@ == lowered(tag@),
{
    let mut chars: Vec<char> = Vec::new();
    for c in it: tag.chars()
        invariant
            it.seq() == tag@,
            chars@ == lowered(tag@.take(it.index() as int)),
    {
        proof {
            let prefix = tag@.take(it.index() as int);
            let next = tag@.take(it.index() + 1);
            assert(next =~= prefix.push(c));
            assert(lowered(next) =~= lowered(prefix).push(ascii_lower(c)));
        }
        let lower = if 'A' <= c && c <= 'Z' {
            ((c as u8) + 32) as char
        } else {
            c
        };
        chars.push(lower);
    }
    assert(tag@.take(tag@.len() as int) =~= tag@);
    chars
}

/// Number of registers that a value of the tagged type takes; an unknown
/// tag counts as one register.
pub fn registers_for_type(data_type: &str) -> (n: usize)
    ensures
        n == match data_type_of(data_type@) {
            Some(t) => t.spec_register_count(),
            None => 1,
        },
{
    match DataType::from_tag(data_type) {
        Some(t) => t.register_count(),
        None => 1,
    }
}

/// The type of a value.
pub open spec fn value_data_type(value: ModbusValue) -> DataType {
    match value {
        ModbusValue::Bool(_) => DataType::Bool,
        ModbusValue::U16(_) => DataType::U16,
        ModbusValue::I16(_) => DataType::I16,
        ModbusValue::U32(_) => DataType::U32,
        ModbusValue::I32(_) => DataType::I32,
        ModbusValue::F32(_) => DataType::F32,
        ModbusValue::U64(_) => DataType::U64,
        ModbusValue::I64(_) => DataType::I64,
        ModbusValue::F64(_) => DataType::F64,
    }
}

/// What decoding registers as a type gives. Too few registers are
/// refused first, then a bit position past 15. A 16-bit value is the
/// first register as it stands; a wider value is read from the first two
/// or four registers under the byte order.
pub open spec fn decoded_as(
    registers: Seq<u16>,
    data_type: DataType,
    bit_position: u8,
    order: ByteOrder,
) -> ModbusResult<ModbusValue> {
    if registers.len() < data_type.registers_read() {
        Err(
            ModbusError::InsufficientRegisters {
                required: data_type.registers_read(),
                available: registers.len() as usize,
            },
        )
    } else {
        match data_type {
            DataType::Bool => if bit_position > 15 {
                Err(ModbusError::InvalidBitPosition { position: bit_position })
            } else {
                Ok(ModbusValue::Bool(register_bit(registers[0], bit_position)))
            },
            DataType::U16 => Ok(ModbusValue::U16(registers[0])),
            DataType::I16 => Ok(ModbusValue::I16(as_signed(registers[0] as int, 0x1_0000) as i16)),
            DataType::U32 => Ok(
                ModbusValue::U32(registers_value_32(registers.take(2), order) as u32),
            ),
            DataType::I32 => Ok(
                ModbusValue::I32(
                    as_signed(registers_value_32(registers.take(2), order), 0x1_0000_0000) as i32,
                ),
            ),
            DataType::F32 => Ok(
                ModbusValue::F32(registers_value_32(registers.take(2), order) as u32),
            ),
            DataType::U64 => Ok(
                ModbusValue::U64(registers_value_64(registers.take(4), order) as u64),
            ),
            DataType::I64 => Ok(
                ModbusValue::I64(
                    as_signed(
                        registers_value_64(registers.take(4), order),
                        0x1_0000_0000_0000_0000,
                    ) as i64,
                ),
            ),
            DataType::F64 => Ok(
                ModbusValue::F64(registers_value_64(registers.take(4), order) as u64),
            ),
        }
    }
}

/// What decoding registers under a tag gives: an unknown tag is refused.
pub open spec fn decoded(
    registers: Seq<u16>,
    tag: Seq<char>,
    bit_position: u8,
    order: ByteOrder,
) -> ModbusResult<ModbusValue> {
    match data_type_of(tag) {
        Some(t) => decoded_as(registers, t, bit_position, order),
        None => Err(ModbusError::UnsupportedType),
    }
}

/// The registers that hold a value. A bit takes one register, 1 or 0; a
/// 16-bit value is its register; a wider value is laid out under the
/// byte order.
pub open spec fn encoded(value: ModbusValue, order: ByteOrder) -> Seq<u16> {
    match value {
        ModbusValue::Bool(b) => seq![if b { 1u16 } else { 0u16 }],
        ModbusValue::U16(v) => seq![v],
        ModbusValue::I16(v) => seq![as_unsigned(v as int, 0x1_0000) as u16],
        ModbusValue::U32(v) => value_registers_32(v, order),
        ModbusValue::I32(v) => value_registers_32(
            as_unsigned(v as int, 0x1_0000_0000) as u32,
            order,
        ),
        ModbusValue::F32(bits) => value_registers_32(bits, order),
        ModbusValue::U64(v) => value_registers_64(v, order),
        ModbusValue::I64(v) => value_registers_64(
            as_unsigned(v as int, 0x1_0000_0000_0000_0000) as u64,
            order,
        ),
        ModbusValue::F64(bits) => value_registers_64(bits, order),
    }
}

/// Whether bit `position` of a register is set.
fn bit_is_set(reg: u16, position: u8) -> (b: bool)
    requires
        position <= 15,
    ensures
        b == register_bit(reg, position),
{
    let shifted: u16 = reg >> position;
    let place: u16 = 1u16 << position;
    assert(place == place_value(position) && shifted == reg / place) by (bit_vector)
        requires
            position <= 15,
            shifted == reg >> position,
            place == 1u16 << position,
    ;
    let bit: u16 = shifted & 0x01;
    assert(bit == shifted % 2) by (bit_vector)
        requires
            bit == shifted & 0x01,
    ;
    bit != 0
}

/// Decodes registers as a value of a given type.
pub fn decode_as(registers: &[u16], data_type: DataType, bit_position: u8, byte_order: ByteOrder)
    -> (r: ModbusResult<ModbusValue>)
    ensures
        r == decoded_as(registers@, data_type, bit_position, byte_order),
{
    let needed: usize = match data_type {
        DataType::Bool => 1,
        _ => data_type.register_count(),
    };
    if registers.len() < needed {
        return Err(
            ModbusError::InsufficientRegisters { required: needed, available: registers.len() },
        );
    }
    match data_type {
        DataType::Bool => {
            if bit_position > 15 {
                return Err(ModbusError::InvalidBitPosition { position: bit_position });
            }
            Ok(ModbusValue::Bool(bit_is_set(registers[0], bit_position)))
        },
        DataType::U16 => Ok(ModbusValue::U16(registers[0])),
        DataType::I16 => {
            let raw = registers[0];
            let value = #[verifier::truncate]
            (raw as i16);
            assert(value == as_signed(raw as int, 0x1_0000)) by (bit_vector)
                requires
                    value == raw as i16,
            ;
            Ok(ModbusValue::I16(value))
        },
        DataType::U32 => {
            let regs = first_two(registers);
            Ok(ModbusValue::U32(regs_to_u32(&regs, byte_order)))
        },
        DataType::I32 => {
            let regs = first_two(registers);
            Ok(ModbusValue::I32(regs_to_i32(&regs, byte_order)))
        },
        DataType::F32 => {
            let regs = first_two(registers);
            Ok(ModbusValue::F32(regs_to_u32(&regs, byte_order)))
        },
        DataType::U64 => {
            let regs = first_four(registers);
            Ok(ModbusValue::U64(regs_to_u64(&regs, byte_order)))
        },
        DataType::I64 => {
            let regs = first_four(registers);
            Ok(ModbusValue::I64(regs_to_i64(&regs, byte_order)))
        },
        DataType::F64 => {
            let regs = first_four(registers);
            Ok(ModbusValue::F64(regs_to_u64(&regs, byte_order)))
        },
    }
}

fn first_two(registers: &[u16]) -> (regs: [u16; 2])
    requires
        registers@.len() >= 2,
    ensures
        regs@ == registers@.take(2),
{
    let regs = [registers[0], registers[1]];
    assert(regs@ =~= registers@.take(2));
    regs
}

fn first_four(registers: &[u16]) -> (regs: [u16; 4])
    requires
        registers@.len() >= 4,
    ensures
        regs@ == registers@.take(4),
{
    let regs = [registers[0], registers[1], registers[2], registers[3]];
    assert(regs@ =~= registers@.take(4));
    regs
}

/// Decodes registers as a value of the type that a tag names.
///
/// `bit_position` counts only for a bit: which bit of the first register
/// to take, 0 being the least significant. `byte_order` counts only for
/// types of more than one register.
pub fn decode_register_value(
    registers: &[u16],
    data_type: &str,
    bit_position: u8,
    byte_order: ByteOrder,
) -> (r: ModbusResult<ModbusValue>)
    ensures
        r == decoded(registers@, data_type@, bit_position, byte_order),
{
    match DataType::from_tag(data_type) {
        Some(t) => decode_as(registers, t, bit_position, byte_order),
        None => Err(ModbusError::UnsupportedType),
    }
}

/// Lays a value out in registers. Never fails.
pub fn encode_value(value: &ModbusValue, byte_order: ByteOrder) -> (r: ModbusResult<Vec<u16>>)
    ensures
        r is Ok,
        r->Ok_0@ == encoded(*value, byte_order),
{
    let registers: Vec<u16> = match value {
        ModbusValue::Bool(b) => vec![if *b { 1u16 } else { 0u16 }],
        ModbusValue::U16(v) => vec![*v],
        ModbusValue::I16(v) => {
            let signed: i16 = *v;
            let raw = #[verifier::truncate]
            (signed as u16);
            assert(raw == as_unsigned(signed as int, 0x1_0000)) by (bit_vector)
                requires
                    raw == signed as u16,
            ;
            vec![raw]
        },
        ModbusValue::U32(v) => pair_to_vec(u32_to_regs(*v, byte_order)),
        ModbusValue::I32(v) => pair_to_vec(i32_to_regs(*v, byte_order)),
        ModbusValue::F32(bits) => pair_to_vec(u32_to_regs(*bits, byte_order)),
        ModbusValue::U64(v) => quad_to_vec(u64_to_regs(*v, byte_order)),
        ModbusValue::I64(v) => quad_to_vec(i64_to_regs(*v, byte_order)),
        ModbusValue::F64(bits) => quad_to_vec(u64_to_regs(*bits, byte_order)),
    };
    assert(registers@ =~= encoded(*value, byte_order));
    Ok(registers)
}

fn pair_to_vec(regs: [u16; 2]) -> (v: Vec<u16>)
    ensures
        v@ == regs@,
{
    let v = vec![regs[0], regs[1]];
    assert(v@ =~= regs@);
    v
}

fn quad_to_vec(regs: [u16; 4]) -> (v: Vec<u16>)
    ensures
        v@ == regs@,
{
    let v = vec![regs[0], regs[1], regs[2], regs[3]];
    assert(v@ =~= regs@);
    v
}

/// The data bytes of a read response: as many as its byte count names,
/// or as many as are there where the response is shorter.
pub open spec fn read_payload(pdu: Seq<u8>) -> Seq<u8> {
    let count = if pdu[1] <= pdu.len() - 2 {
        pdu[1] as int
    } else {
        pdu.len() - 2
    };
    pdu.subrange(2, 2 + count)
}

/// Bytes widened to 16 bits, one element for each byte.
pub open spec fn widened(bytes: Seq<u8>) -> Seq<u16> {
    bytes.map_values(|b: u8| b as u16)
}

/// What a read response holds when read as the response to function
/// code `function_code`.
pub open spec fn parsed_read_response(pdu: Seq<u8>, function_code: u8) -> Result<
    Seq<u16>,
    ModbusError,
> {
    if pdu.len() < 2 {
        Ok(Seq::empty())
    } else if pdu[0] != function_code {
        Err(ModbusError::FunctionCodeMismatch { expected: function_code, actual: pdu[0] })
    } else if function_code == 1 || function_code == 2 {
        Ok(widened(read_payload(pdu)))
    } else if function_code == 3 || function_code == 4 {
        Ok(be_registers(read_payload(pdu)))
    } else {
        Err(ModbusError::UnsupportedFunctionCode { code: function_code })
    }
}

/// Reads the data of a read response.
///
/// A PDU of fewer than two bytes gives an empty result, whatever it
/// holds. Otherwise the function code must be the expected one. For
/// coils and discrete inputs (1, 2) every data byte becomes one element,
/// not split into bits; for registers (3, 4) every complete pair of data
/// bytes becomes one register and a trailing odd byte is dropped. A byte
/// count that promises more than the PDU holds is cut down to what is
/// there. `expected_count` does not change the result.
pub fn parse_read_response(pdu: &ModbusPdu, function_code: u8, expected_count: u16) -> (r:
    ModbusResult<Vec<u16>>)
    ensures
        match parsed_read_response(pdu@, function_code) {
            Ok(registers) => r is Ok && r->Ok_0@ == registers,
            Err(e) => r == Err::<Vec<u16>, ModbusError>(e),
        },
{
    let data = pdu.as_slice();
    let total = pdu.len();
    if total < 2 {
        return Ok(Vec::new());
    }
    let actual = data[0];
    if actual != function_code {
        return Err(ModbusError::FunctionCodeMismatch { expected: function_code, actual });
    }
    let byte_count = data[1] as usize;
    let available = total - 2;
    let count = if byte_count <= available {
        byte_count
    } else {
        available
    };
    let ghost payload = read_payload(pdu@);
    match function_code {
        1 | 2 => {
            let mut registers: Vec<u16> = Vec::new();
            let mut i: usize = 0;
            while i < count
                invariant
                    i <= count,
                    2 + count <= data@.len() <= MAX_PDU_SIZE,
                    payload == data@.subrange(2, 2 + count),
                    registers@.len() == i,
                    forall|k: int| 0 <= k < i ==> registers@[k] == payload[k] as u16,
                decreases count - i,
            {
                registers.push(data[2 + i] as u16);
                i += 1;
            }
            assert(registers@ =~= widened(payload));
            Ok(registers)
        },
        3 | 4 => {
            let mut registers: Vec<u16> = Vec::new();
            let pairs = count / 2;
            let mut i: usize = 0;
            while i < pairs
                invariant
                    i <= pairs,
                    pairs == count / 2,
                    2 + count <= data@.len() <= MAX_PDU_SIZE,
                    payload == data@.subrange(2, 2 + count),
                    registers@.len() == i,
                    forall|k: int| 0 <= k < i ==> registers@[k] == be_registers(payload)[k],
                decreases pairs - i,
            {
                let offset = 2 + i * 2;
                registers.push(join_register(data[offset], data[offset + 1]));
                i += 1;
            }
            assert(registers@ =~= be_registers(payload));
            Ok(registers)
        },
        _ => Err(ModbusError::UnsupportedFunctionCode { code: function_code }),
    }
}

/// Builders for write requests and the check of write responses.
pub struct ModbusCodec;

impl ModbusCodec {
    /// A Write Single Coil request.
    pub fn build_fc05_pdu(address: u16, value: bool) -> (r: ModbusResult<ModbusPdu>)
        ensures
            r is Ok,
            r->Ok_0@ == five_byte_request(0x05, address, coil_word(value)),
    {
        PduBuilder::build_write_single_coil(address, value)
    }

    /// A Write Single Register request.
    pub fn build_fc06_pdu(address: u16, value: u16) -> (r: ModbusResult<ModbusPdu>)
        ensures
            r is Ok,
            r->Ok_0@ == five_byte_request(0x06, address, value),
    {
        PduBuilder::build_write_single_register(address, value)
    }

    /// A Write Multiple Coils request for at least one coil and at most
    /// as many as the protocol allows.
    pub fn build_fc15_pdu(start_address: u16, values: &[bool]) -> (r: ModbusResult<ModbusPdu>)
        ensures
            1 <= values@.len() <= MAX_WRITE_COILS ==> r is Ok && r->Ok_0@ == write_coils_request(
                start_address,
                values@,
            ),
            !(1 <= values@.len() <= MAX_WRITE_COILS) ==> r == Err::<ModbusPdu, ModbusError>(
                ModbusError::InvalidQuantity {
                    quantity: values@.len() as usize,
                    max: MAX_WRITE_COILS,
                },
            ),
    {
        if values.len() == 0 || values.len() > MAX_WRITE_COILS {
            return Err(
                ModbusError::InvalidQuantity { quantity: values.len(), max: MAX_WRITE_COILS },
            );
        }
        PduBuilder::build_write_multiple_coils(start_address, values)
    }

    /// A Write Multiple Registers request for at least one register and
    /// at most as many as the protocol allows.
    pub fn build_fc16_pdu(start_address: u16, values: &[u16]) -> (r: ModbusResult<ModbusPdu>)
        ensures
            1 <= values@.len() <= MAX_WRITE_REGISTERS ==> r is Ok && r->Ok_0@
                == write_registers_request(start_address, values@),
            !(1 <= values@.len() <= MAX_WRITE_REGISTERS) ==> r == Err::<ModbusPdu, ModbusError>(
                ModbusError::InvalidQuantity {
                    quantity: values@.len() as usize,
                    max: MAX_WRITE_REGISTERS,
                },
            ),
    {
        if values.len() == 0 || values.len() > MAX_WRITE_REGISTERS {
            return Err(
                ModbusError::InvalidQuantity { quantity: values.len(), max: MAX_WRITE_REGISTERS },
            );
        }
        PduBuilder::build_write_multiple_registers(start_address, values)
    }

    /// Checks the response to a write request. An empty PDU is refused;
    /// an exception response gives the exception with the function code
    /// less its exception bit and the exception code, 0 where the PDU has
    /// none; another function code than the expected one is a mismatch.
    pub fn parse_write_response(pdu: &ModbusPdu, expected_fc: u8) -> (r: ModbusResult<bool>)
        ensures
            pdu@.len() == 0 ==> r == Err::<bool, ModbusError>(ModbusError::EmptyResponse),
            pdu@.len() > 0 && is_exception_code(pdu@[0]) ==> r == Err::<bool, ModbusError>(
                ModbusError::Exception {
                    function: (pdu@[0] - 0x80) as u8,
                    code: if pdu@.len() > 1 {
                        pdu@[1]
                    } else {
                        0
                    },
                },
            ),
            pdu@.len() > 0 && !is_exception_code(pdu@[0]) && pdu@[0] != expected_fc ==> r == Err::<
                bool,
                ModbusError,
            >(ModbusError::FunctionCodeMismatch { expected: expected_fc, actual: pdu@[0] }),
            pdu@.len() > 0 && !is_exception_code(pdu@[0]) && pdu@[0] == expected_fc ==> r == Ok::<
                bool,
                ModbusError,
            >(true),
    {
        let data = pdu.as_slice();
        if data.len() == 0 {
            return Err(ModbusError::EmptyResponse);
        }
        let fc = data[0];
        if fc >= 0x80 {
            let code = if data.len() > 1 {
                data[1]
            } else {
                0
            };
            return Err(ModbusError::Exception { function: fc - 0x80, code });
        }
        if fc != expected_fc {
            return Err(ModbusError::FunctionCodeMismatch { expected: expected_fc, actual: fc });
        }
        Ok(true)
    }
}

/// The range of whole numbers that a lower-case tag clamps to. Only the
/// integer types have one, and only under their two plain tags.
pub open spec fn clamp_range(tag: Seq<char>) -> Option<(int, int)> {
    if tag == "uint16"@ || tag == "u16"@ {
        Some((0int, 0xFFFFint))
    } else if tag == "int16"@ || tag == "i16"@ {
        Some((-0x8000int, 0x7FFFint))
    } else if tag == "uint32"@ || tag == "u32"@ {
        Some((0int, 0xFFFF_FFFFint))
    } else if tag == "int32"@ || tag == "i32"@ {
        Some((-0x8000_0000int, 0x7FFF_FFFFint))
    } else if tag == "uint64"@ || tag == "u64"@ {
        Some((0int, 0xFFFF_FFFF_FFFF_FFFFint))
    } else if tag == "int64"@ || tag == "i64"@ {
        Some((-0x8000_0000_0000_0000int, 0x7FFF_FFFF_FFFF_FFFFint))
    } else {
        None
    }
}

/// The float type whose range a lower-case tag clamps to. Only the two
/// float types have one, and only under their two plain tags.
pub open spec fn clamp_float_type(tag: Seq<char>) -> Option<DataType> {
    if tag == "float32"@ || tag == "f32"@ {
        Some(DataType::F32)
    } else if tag == "float64"@ || tag == "f64"@ {
        Some(DataType::F64)
    } else {
        None
    }
}

/// A number brought into a range, or left alone where there is none.
pub open spec fn clamped(value: int, range: Option<(int, int)>) -> int {
    match range {
        Some((low, high)) => if value < low {
            low
        } else if value > high {
            high
        } else {
            value
        },
        None => value,
    }
}

/// The least and the greatest whole number of the integer type that a
/// tag names. The bit tags, the float tags and unknown tags have no
/// bounds.
pub fn clamp_bounds(data_type: &str) -> (bounds: Option<(i128, i128)>)
    ensures
        match clamp_range(lowered(data_type@)) {
            Some((low, high)) => bounds == Some((low as i128, high as i128)),
            None => bounds is None,
        },
{
    let t = lower_case(data_type);
    if chars_equal(&t, "uint16") || chars_equal(&t, "u16") {
        Some((0, 0xFFFF))
    } else if chars_equal(&t, "int16") || chars_equal(&t, "i16") {
        Some((-0x8000, 0x7FFF))
    } else if chars_equal(&t, "uint32") || chars_equal(&t, "u32") {
        Some((0, 0xFFFF_FFFF))
    } else if chars_equal(&t, "int32") || chars_equal(&t, "i32") {
        Some((-0x8000_0000, 0x7FFF_FFFF))
    } else if chars_equal(&t, "uint64") || chars_equal(&t, "u64") {
        Some((0, 0xFFFF_FFFF_FFFF_FFFF))
    } else if chars_equal(&t, "int64") || chars_equal(&t, "i64") {
        Some((-0x8000_0000_0000_0000, 0x7FFF_FFFF_FFFF_FFFF))
    } else {
        None
    }
}

/// The float type to whose finite range a number is clamped under a
/// tag: `F32` or `F64` under their plain tags, none under any other.
pub fn clamp_float(data_type: &str) -> (float_type: Option<DataType>)
    ensures
        float_type == clamp_float_type(lowered(data_type@)),
{
    let t = lower_case(data_type);
    if chars_equal(&t, "float32") || chars_equal(&t, "f32") {
        Some(DataType::F32)
    } else if chars_equal(&t, "float64") || chars_equal(&t, "f64") {
        Some(DataType::F64)
    } else {
        None
    }
}

/// Brings a whole number into the range of the integer type that a tag
/// names, so that writing it cannot overflow the target. Under a bit
/// tag, a float tag or an unknown tag the number comes back unchanged.
pub fn clamp_to_data_type(value: i128, data_type: &str) -> (r: i128)
    ensures
        r == clamped(value as int, clamp_range(lowered(data_type@))),
{
    match clamp_bounds(data_type) {
        Some((low, high)) => {
            if value < low {
                low
            } else if value > high {
                high
            } else {
                value
            }
        },
        None => value,
    }
}

/// A value laid out in registers takes as many registers as decoding
/// its type reads, and decoded as its own type, under the same byte
/// order and from bit 0, it is the same value.
pub proof fn lemma_decode_encode(value: ModbusValue, order: ByteOrder)
    ensures
        encoded(value, order).len() == value_data_type(value).registers_read(),
        decoded_as(encoded(value, order), value_data_type(value), 0, order) == Ok::<
            ModbusValue,
            ModbusError,
        >(value),
{
    let regs = encoded(value, order);
    match value {
        ModbusValue::Bool(b) => {},
        ModbusValue::U16(v) => {},
        ModbusValue::I16(v) => {},
        ModbusValue::U32(v) => {
            lemma_u32_roundtrip(v, order);
            assert(regs.take(2) =~= regs);
        },
        ModbusValue::I32(v) => {
            lemma_u32_roundtrip(as_unsigned(v as int, 0x1_0000_0000) as u32, order);
            assert(regs.take(2) =~= regs);
        },
        ModbusValue::F32(bits) => {
            lemma_u32_roundtrip(bits, order);
            assert(regs.take(2) =~= regs);
        },
        ModbusValue::U64(v) => {
            lemma_u64_roundtrip(v, order);
            assert(regs.take(4) =~= regs);
        },
        ModbusValue::I64(v) => {
            lemma_u64_roundtrip(as_unsigned(v as int, 0x1_0000_0000_0000_0000) as u64, order);
            assert(regs.take(4) =~= regs);
        },
        ModbusValue::F64(bits) => {
            lemma_u64_roundtrip(bits, order);
            assert(regs.take(4) =~= regs);
        },
    }
}

/// The first `quantity` bits of a run of bytes, each byte given as one
/// element and read from its least significant bit on; fewer where the
/// bytes run out.
pub open spec fn unpacked_bits(bytes: Seq<u16>, quantity: int) -> Seq<bool> {
    let count = if quantity <= 8 * bytes.len() {
        quantity
    } else {
        8 * bytes.len() as int
    };
    Seq::new(count as nat, |k: int| register_bit(bytes[k / 8], (k % 8) as u8))
}

/// Splits the data of a coil or discrete input response into bits.
/// `bytes` holds one data byte in each element, as `parse_read_response`
/// gives them; the result holds `quantity` bits, or as many as the bytes
/// have.
pub fn unpack_bits(bytes: &[u16], quantity: usize) -> (bits: Vec<bool>)
    ensures
        bits@ == unpacked_bits(bytes@, quantity as int),
{
    let n = bytes.len();
    let mut bits: Vec<bool> = Vec::new();
    let mut i: usize = 0;
    let mut k: usize = 0;
    while i < n && k < quantity
        invariant
            n == bytes@.len(),
            i <= n,
            k == 8 * i || (k == quantity && k < 8 * i),
            k <= quantity,
            bits@.len() == k,
            forall|j: int| 0 <= j < k ==> bits@[j] == register_bit(bytes@[j / 8], (j % 8) as u8),
        decreases n - i,
    {
        let byte = bytes[i];
        let mut position: u8 = 0;
        while position < 8 && k < quantity
            invariant
                n == bytes@.len(),
                i < n,
                byte == bytes@[i as int],
                position <= 8,
                k == 8 * i + position,
                k <= quantity,
                bits@.len() == k,
                forall|j: int|
                    0 <= j < k ==> bits@[j] == register_bit(bytes@[j / 8], (j % 8) as u8),
            decreases 8 - position,
        {
            bits.push(bit_is_set(byte, position));
            position += 1;
            k += 1;
        }
        i += 1;
    }
    assert(bits@ =~= unpacked_bits(bytes@, quantity as int));
    bits
}

/// Coils packed into bytes and split into bits again are the same coils.
pub proof fn lemma_unpack_packed(values: Seq<bool>)
    ensures
        unpacked_bits(widened(packed_coils(values)), values.len() as int) == values,
{
    let bytes = widened(packed_coils(values));
    let bits = unpacked_bits(bytes, values.len() as int);
    assert forall|k: int| 0 <= k < values.len() implies #[trigger] bits[k] == values[k] by {
        let i = k / 8;
        let j = k % 8;
        let b0 = coil_bit(values, 8 * i);
        let b1 = coil_bit(values, 8 * i + 1);
        let b2 = coil_bit(values, 8 * i + 2);
        let b3 = coil_bit(values, 8 * i + 3);
        let b4 = coil_bit(values, 8 * i + 4);
        let b5 = coil_bit(values, 8 * i + 5);
        let b6 = coil_bit(values, 8 * i + 6);
        let b7 = coil_bit(values, 8 * i + 7);
        let sum = b0 + 2 * b1 + 4 * b2 + 8 * b3 + 16 * b4 + 32 * b5 + 64 * b6 + 128 * b7;
        assert(coil_bits(values, 8 * i, 8) == sum);
        assert(0 <= sum < 256);
        assert(bytes[i] == sum);
        assert(coil_bit(values, k) == if values[k] {
            1int
        } else {
            0int
        });
        assert(sum / place_value(j as u8) % 2 == coil_bit(values, 8 * i + j));
    }
    assert(bits =~= values);
}

/// What the plain tags name, and what they clamp to.
pub proof fn lemma_plain_tags()
    ensures
        data_type_of("bool"@) == Some(DataType::Bool),
        data_type_of("uint16"@) == Some(DataType::U16),
        data_type_of("int16"@) == Some(DataType::I16),
        data_type_of("uint32"@) == Some(DataType::U32),
        data_type_of("int32"@) == Some(DataType::I32),
        data_type_of("float32"@) == Some(DataType::F32),
        data_type_of("uint64"@) == Some(DataType::U64),
        data_type_of("int64"@) == Some(DataType::I64),
        data_type_of("float64"@) == Some(DataType::F64),
        clamp_range(lowered("uint16"@)) == Some((0int, 0xFFFFint)),
        clamp_range(lowered("int16"@)) == Some((-0x8000int, 0x7FFFint)),
{
    reveal_strlit("bool");
    reveal_strlit("boolean");
    reveal_strlit("coil");
    reveal_strlit("uint16");
    reveal_strlit("u16");
    reveal_strlit("word");
    reveal_strlit("int16");
    reveal_strlit("i16");
    reveal_strlit("short");
    reveal_strlit("uint32");
    reveal_strlit("u32");
    reveal_strlit("dword");
    reveal_strlit("int32");
    reveal_strlit("i32");
    reveal_strlit("long");
    reveal_strlit("float32");
    reveal_strlit("f32");
    reveal_strlit("float");
    reveal_strlit("real");
    reveal_strlit("uint64");
    reveal_strlit("u64");
    reveal_strlit("qword");
    reveal_strlit("int64");
    reveal_strlit("i64");
    reveal_strlit("longlong");
    reveal_strlit("float64");
    assert(lowered("bool"@) =~= "bool"@);
    assert(lowered("uint16"@) =~= "uint16"@);
    assert(lowered("int16"@) =~= "int16"@);
    assert(lowered("uint32"@) =~= "uint32"@);
    assert(lowered("int32"@) =~= "int32"@);
    assert(lowered("float32"@) =~= "float32"@);
    assert(lowered("uint64"@) =~= "uint64"@);
    assert(lowered("int64"@) =~= "int64"@);
    assert(lowered("float64"@) =~= "float64"@);
    assert("bool"@.len() == 4 && "coil"@.len() == 4 && "word"@.len() == 4 && "long"@.len() == 4
        && "real"@.len() == 4);
    assert("boolean"@.len() == 7 && "float32"@.len() == 7 && "float64"@.len() == 7);
    assert("uint16"@.len() == 6 && "uint32"@.len() == 6 && "uint64"@.len() == 6);
    assert("int16"@.len() == 5 && "int32"@.len() == 5 && "int64"@.len() == 5 && "short"@.len() == 5
        && "dword"@.len() == 5 && "float"@.len() == 5 && "qword"@.len() == 5);
    assert("u16"@.len() == 3 && "i16"@.len() == 3 && "u32"@.len() == 3 && "i32"@.len() == 3
        && "f32"@.len() == 3 && "u64"@.len() == 3 && "i64"@.len() == 3);
    assert("longlong"@.len() == 8);
    assert("boolean"@[0] == 'b' && "float32"@[0] == 'f' && "float64"@[5] == '6' && "float32"@[5]
        == '3');
    assert("uint16"@[4] == '1' && "uint32"@[4] == '3' && "uint64"@[4] == '6');
    assert("int16"@[0] == 'i' && "int16"@[3] == '1' && "int32"@[3] == '3' && "int64"@[3] == '6'
        && "short"@[0] == 's' && "dword"@[0] == 'd' && "float"@[0] == 'f' && "qword"@[0] == 'q');
}

} // verus!
