//! The protocol data unit: a byte buffer that never grows past the
//! protocol maximum, and a builder for the request layouts.

use vstd::prelude::*;

use crate::bytes::{be_bytes_u16, registers_be_bytes, split_register};
use crate::constants::{
    MAX_PDU_SIZE, MAX_READ_COILS, MAX_READ_REGISTERS, MAX_WRITE_COILS, MAX_WRITE_REGISTERS,
};
use crate::error::{ModbusError, ModbusResult};

verus! {

/// A PDU held in a fixed array; only the first `len` bytes are content.
#[derive(Debug)]
pub struct ModbusPdu {
    data: [u8; MAX_PDU_SIZE],
    len: usize,
}

impl View for ModbusPdu {
    type V = Seq<u8>;

    /// The content: the valid prefix of the buffer.
    closed spec fn view(&self) -> Seq<u8> {
        self.data@.subrange(0, self.len as int)
    }
}

/// Whether a function code marks an exception response (high bit set).
pub open spec fn is_exception_code(fc: u8) -> bool {
    fc >= 0x80
}

/// The name of a function code, by its low seven bits.
pub open spec fn function_code_name(fc: u8) -> Seq<char> {
    let code = fc % 0x80;
    if code == 0x01 {
        "Read Coils"@
    } else if code == 0x02 {
        "Read Discrete Inputs"@
    } else if code == 0x03 {
        "Read Holding Registers"@
    } else if code == 0x04 {
        "Read Input Registers"@
    } else if code == 0x05 {
        "Write Single Coil"@
    } else if code == 0x06 {
        "Write Single Register"@
    } else if code == 0x0F {
        "Write Multiple Coils"@
    } else if code == 0x10 {
        "Write Multiple Registers"@
    } else if code == 0x17 {
        "Read/Write Multiple Registers"@
    } else {
        "Unknown Function"@
    }
}

impl Clone for ModbusPdu {
    fn clone(&self) -> (pdu: Self)
        ensures
            pdu@ == self@,
    {
        proof {
            use_type_invariant(self);
        }
        ModbusPdu { data: self.data, len: self.len }
    }
}

impl Default for ModbusPdu {
    fn default() -> (pdu: Self)
        ensures
            pdu@ == Seq::<u8>::empty(),
    {
        ModbusPdu::new()
    }
}

impl ModbusPdu {
    #[verifier::type_invariant]
    spec fn inv(&self) -> bool {
        self.len <= MAX_PDU_SIZE
    }

    /// An empty PDU.
    pub fn new() -> (pdu: Self)
        ensures
            pdu@ == Seq::<u8>::empty(),
    {
        let pdu = ModbusPdu { data: [0; MAX_PDU_SIZE], len: 0 };
        assert(pdu@ =~= Seq::<u8>::empty());
        pdu
    }

    /// A PDU with the content of `data`, or `TooLarge` where `data` is
    /// longer than a PDU may be.
    pub fn from_slice(data: &[u8]) -> (r: ModbusResult<Self>)
        ensures
            data@.len() <= MAX_PDU_SIZE ==> r is Ok && r->Ok_0@ == data@,
            data@.len() > MAX_PDU_SIZE ==> r == Err::<Self, ModbusError>(
                ModbusError::TooLarge { len: data@.len() as usize },
            ),
    {
        if data.len() > MAX_PDU_SIZE {
            return Err(ModbusError::TooLarge { len: data.len() });
        }
        let mut pdu = ModbusPdu::new();
        pdu.copy_in(data);
        Ok(pdu)
    }

    /// Copies `data` behind the content; the caller has checked the room.
    fn copy_in(&mut self, data: &[u8])
        requires
            old(self)@.len() + data@.len() <= MAX_PDU_SIZE,
        ensures
            final(self)@ == old(self)@ + data@,
    {
        proof {
            use_type_invariant(&*self);
        }
        let n = data.len();
        let mut i: usize = 0;
        while i < n
            invariant
                n == data@.len(),
                i <= n,
                old(self).len + n <= MAX_PDU_SIZE,
                self.len == old(self).len + i,
                self@ == old(self)@ + data@.subrange(0, i as int),
            decreases n - i,
        {
            let ghost before = self@;
            self.data[self.len] = data[i];
            self.len += 1;
            i += 1;
            assert(self@ =~= before.push(data@[i - 1]));
            assert(data@.subrange(0, i as int) =~= data@.subrange(0, i - 1).push(data@[i - 1]));
            assert(self@ =~= old(self)@ + data@.subrange(0, i as int));
        }
        assert(data@.subrange(0, n as int) =~= data@);
    }

    /// Appends one byte, or reports `BufferFull` and changes nothing.
    pub fn push(&mut self, byte: u8) -> (r: ModbusResult<()>)
        ensures
            final(self)@.len() <= MAX_PDU_SIZE,
            old(self)@.len() < MAX_PDU_SIZE ==> r is Ok && final(self)@ == old(self)@.push(byte),
            old(self)@.len() >= MAX_PDU_SIZE ==> r == Err::<(), ModbusError>(
                ModbusError::BufferFull,
            ) && final(self)@ == old(self)@,
    {
        proof {
            use_type_invariant(&*self);
        }
        if self.len >= MAX_PDU_SIZE {
            return Err(ModbusError::BufferFull);
        }
        self.data[self.len] = byte;
        self.len += 1;
        assert(self@ =~= old(self)@.push(byte));
        Ok(())
    }

    /// Appends a 16-bit value, most significant byte first. Both bytes go
    /// in or neither does.
    pub fn push_u16(&mut self, value: u16) -> (r: ModbusResult<()>)
        ensures
            final(self)@.len() <= MAX_PDU_SIZE,
            old(self)@.len() + 2 <= MAX_PDU_SIZE ==> r is Ok && final(self)@ == old(self)@
                + be_bytes_u16(value),
            old(self)@.len() + 2 > MAX_PDU_SIZE ==> r == Err::<(), ModbusError>(
                ModbusError::BufferFull,
            ) && final(self)@ == old(self)@,
    {
        proof {
            use_type_invariant(&*self);
        }
        if self.len + 2 > MAX_PDU_SIZE {
            return Err(ModbusError::BufferFull);
        }
        let (high, low) = split_register(value);
        self.data[self.len] = high;
        self.data[self.len + 1] = low;
        self.len += 2;
        assert(self@ =~= old(self)@ + be_bytes_u16(value));
        Ok(())
    }

    /// Appends `data`, or reports `WouldExceedCapacity` and changes
    /// nothing.
    pub fn extend(&mut self, data: &[u8]) -> (r: ModbusResult<()>)
        ensures
            final(self)@.len() <= MAX_PDU_SIZE,
            old(self)@.len() + data@.len() <= MAX_PDU_SIZE ==> r is Ok && final(self)@ == old(
                self,
            )@ + data@,
            old(self)@.len() + data@.len() > MAX_PDU_SIZE ==> r == Err::<(), ModbusError>(
                ModbusError::WouldExceedCapacity {
                    len: old(self)@.len() as usize,
                    additional: data@.len() as usize,
                },
            ) && final(self)@ == old(self)@,
    {
        proof {
            use_type_invariant(&*self);
        }
        if data.len() > MAX_PDU_SIZE - self.len {
            return Err(ModbusError::WouldExceedCapacity { len: self.len, additional: data.len() });
        }
        self.copy_in(data);
        Ok(())
    }

    /// The content as a slice; never the unused tail of the buffer.
    pub fn as_slice(&self) -> (s: &[u8])
        ensures
            s@ == self@,
    {
        proof {
            use_type_invariant(self);
        }
        let s = &self.data[0..self.len];
        s
    }

    /// The content as a mutable slice: bytes may be overwritten in place.
    /// What the slice holds when the borrow ends is the new content.
    pub fn as_mut_slice(&mut self) -> (s: &mut [u8])
        ensures
            s@ == old(self)@,
            final(s)@.len() == s@.len() ==> final(self)@ == final(s)@,
    {
        proof {
            use_type_invariant(&*self);
        }
        let len = self.len;
        let whole: &mut [u8] = &mut self.data;
        let (content, rest) = whole.split_at_mut(len);
        assert(final(content)@.len() == len ==> (final(content)@ + rest@).subrange(0, len as int)
            =~= final(content)@);
        content
    }

    /// Number of content bytes.
    pub fn len(&self) -> (n: usize)
        ensures
            n == self@.len(),
            n <= MAX_PDU_SIZE,
    {
        proof {
            use_type_invariant(self);
        }
        self.len
    }

    /// Whether the PDU holds no byte.
    pub fn is_empty(&self) -> (b: bool)
        ensures
            b == (self@.len() == 0),
    {
        proof {
            use_type_invariant(self);
        }
        self.len == 0
    }

    /// Drops the content.
    pub fn clear(&mut self)
        ensures
            final(self)@ == Seq::<u8>::empty(),
    {
        self.len = 0;
        assert(self@ =~= Seq::<u8>::empty());
    }

    /// The function code: the first byte, if there is one.
    pub fn function_code(&self) -> (fc: Option<u8>)
        ensures
            fc == if self@.len() > 0 {
                Some(self@[0])
            } else {
                None
            },
    {
        proof {
            use_type_invariant(self);
        }
        if self.len > 0 {
            Some(self.data[0])
        } else {
            None
        }
    }

    /// Whether the PDU is an exception response: it has a function code,
    /// and that code has its high bit set.
    pub fn is_exception(&self) -> (b: bool)
        ensures
            b == (self@.len() > 0 && is_exception_code(self@[0])),
    {
        match self.function_code() {
            Some(fc) => {
                assert((fc & 0x80 != 0) == (fc >= 0x80)) by (bit_vector);
                fc & 0x80 != 0
            },
            None => false,
        }
    }

    /// The exception code: the second byte of an exception response.
    pub fn exception_code(&self) -> (code: Option<u8>)
        ensures
            code == if self@.len() > 1 && is_exception_code(self@[0]) {
                Some(self@[1])
            } else {
                None
            },
    {
        proof {
            use_type_invariant(self);
        }
        if self.is_exception() && self.len > 1 {
            Some(self.data[1])
        } else {
            None
        }
    }

    /// Human-readable name of a function code, for diagnostics. The
    /// exception bit is ignored; an unknown code gives "Unknown Function".
    pub fn function_code_description(fc: u8) -> (name: &'static str)
        ensures
            name@ == function_code_name(fc),
    {
        let code: u8 = fc & 0x7F;
        assert(code == fc % 0x80) by (bit_vector)
            requires
                code == fc & 0x7F,
        ;
        match code {
            0x01 => "Read Coils",
            0x02 => "Read Discrete Inputs",
            0x03 => "Read Holding Registers",
            0x04 => "Read Input Registers",
            0x05 => "Write Single Coil",
            0x06 => "Write Single Register",
            0x0F => "Write Multiple Coils",
            0x10 => "Write Multiple Registers",
            0x17 => "Read/Write Multiple Registers",
            _ => "Unknown Function",
        }
    }
}

/// Bit `k` of a coil sequence as a number: 1 where the coil exists and is
/// on, else 0.
pub open spec fn coil_bit(values: Seq<bool>, k: int) -> int {
    if 0 <= k < values.len() && values[k] {
        1
    } else {
        0
    }
}

/// The first `count` coils from `base` on, packed into one number with
/// the first coil in the least significant bit.
pub open spec fn coil_bits(values: Seq<bool>, base: int, count: int) -> int {
    (if count > 0 { coil_bit(values, base) } else { 0 })
    + (if count > 1 { 2 * coil_bit(values, base + 1) } else { 0 })
    + (if count > 2 { 4 * coil_bit(values, base + 2) } else { 0 })
    + (if count > 3 { 8 * coil_bit(values, base + 3) } else { 0 })
    + (if count > 4 { 16 * coil_bit(values, base + 4) } else { 0 })
    + (if count > 5 { 32 * coil_bit(values, base + 5) } else { 0 })
    + (if count > 6 { 64 * coil_bit(values, base + 6) } else { 0 })
    + (if count > 7 { 128 * coil_bit(values, base + 7) } else { 0 })
}

/// Byte `i` of the packed form of a coil sequence: coils `8 * i` to
/// `8 * i + 7`, least significant bit first, missing coils as 0.
pub open spec fn coil_byte(values: Seq<bool>, i: int) -> u8 {
    coil_bits(values, 8 * i, 8) as u8
}

/// A coil sequence packed into `ceil(n / 8)` bytes.
pub open spec fn packed_coils(values: Seq<bool>) -> Seq<u8> {
    Seq::new(((values.len() + 7) / 8) as nat, |i: int| coil_byte(values, i))
}

/// Most items a read request of function code `fc` may ask for.
pub open spec fn read_ceiling(fc: u8) -> int {
    if fc == 0x01 || fc == 0x02 {
        2000
    } else {
        125
    }
}

/// Layout of a request of five bytes: function code, address, and a
/// 16-bit quantity or value.
pub open spec fn five_byte_request(fc: u8, address: u16, word: u16) -> Seq<u8> {
    seq![fc] + be_bytes_u16(address) + be_bytes_u16(word)
}

/// The value field of a Write Single Coil request.
pub open spec fn coil_word(value: bool) -> u16 {
    if value {
        0xFF00
    } else {
        0x0000
    }
}

/// Layout of a Write Multiple Coils request.
pub open spec fn write_coils_request(address: u16, values: Seq<bool>) -> Seq<u8> {
    seq![0x0Fu8] + be_bytes_u16(address) + be_bytes_u16(values.len() as u16) + seq![
        ((values.len() + 7) / 8) as u8,
    ] + packed_coils(values)
}

/// Layout of a Write Multiple Registers request.
pub open spec fn write_registers_request(address: u16, values: Seq<u16>) -> Seq<u8> {
    seq![0x10u8] + be_bytes_u16(address) + be_bytes_u16(values.len() as u16) + seq![
        (2 * values.len()) as u8,
    ] + registers_be_bytes(values)
}

/// Packs coils into bytes, eight to a byte, the first coil of each byte
/// in its least significant bit.
pub fn pack_coils(values: &[bool]) -> (bytes: Vec<u8>)
    ensures
        bytes@ == packed_coils(values@),
{
    let n = values.len();
    let mut bytes: Vec<u8> = Vec::new();
    let mut current: u8 = 0;
    let mut bit_index: u8 = 0;
    let mut i: usize = 0;
    while i < n
        invariant
            n == values@.len(),
            i <= n,
            bit_index == i % 8,
            bytes@.len() == i / 8,
            forall|k: int| 0 <= k < bytes@.len() ==> bytes@[k] == coil_byte(values@, k),
            current == coil_bits(values@, 8 * (i / 8), bit_index as int),
        decreases n - i,
    {
        if values[i] {
            let mask: u8 = 1u8 << bit_index;
            assert(mask == if bit_index == 0 {
                1u8
            } else if bit_index == 1 {
                2u8
            } else if bit_index == 2 {
                4u8
            } else if bit_index == 3 {
                8u8
            } else if bit_index == 4 {
                16u8
            } else if bit_index == 5 {
                32u8
            } else if bit_index == 6 {
                64u8
            } else {
                128u8
            }) by (bit_vector)
                requires
                    mask == 1u8 << bit_index,
                    bit_index < 8,
            ;
            assert(current | mask == current + mask) by (bit_vector)
                requires
                    mask == 1u8 << bit_index,
                    bit_index < 8,
                    current < mask,
            ;
            current |= mask;
        }
        bit_index += 1;
        i += 1;
        if bit_index == 8 {
            bytes.push(current);
            current = 0;
            bit_index = 0;
        }
    }
    if bit_index > 0 {
        bytes.push(current);
    }
    assert(bytes@ =~= packed_coils(values@));
    bytes
}

/// Lays registers out as bytes, every register most significant byte
/// first.
pub fn registers_to_be_bytes(values: &[u16]) -> (bytes: Vec<u8>)
    ensures
        bytes@ == registers_be_bytes(values@),
{
    let n = values.len();
    let mut bytes: Vec<u8> = Vec::new();
    let mut i: usize = 0;
    while i < n
        invariant
            n == values@.len(),
            i <= n,
            bytes@.len() == 2 * i,
            forall|k: int| 0 <= k < bytes@.len() ==> bytes@[k] == registers_be_bytes(values@)[k],
        decreases n - i,
    {
        let value = values[i];
        let (high, low) = split_register(value);
        bytes.push(high);
        bytes.push(low);
        i += 1;
    }
    assert(bytes@ =~= registers_be_bytes(values@));
    bytes
}

/// Builds a PDU step by step; each step fails where the buffer has no
/// room, and the failure ends the chain.
pub struct PduBuilder {
    pdu: ModbusPdu,
}

impl View for PduBuilder {
    type V = Seq<u8>;

    /// The bytes appended so far.
    closed spec fn view(&self) -> Seq<u8> {
        self.pdu@
    }
}

impl Default for PduBuilder {
    fn default() -> (builder: Self)
        ensures
            builder@ == Seq::<u8>::empty(),
    {
        PduBuilder::new()
    }
}

impl PduBuilder {
    /// A builder with nothing appended.
    pub fn new() -> (builder: Self)
        ensures
            builder@ == Seq::<u8>::empty(),
    {
        PduBuilder { pdu: ModbusPdu::new() }
    }

    /// Appends the function code.
    pub fn function_code(self, fc: u8) -> (r: ModbusResult<Self>)
        ensures
            self@.len() < MAX_PDU_SIZE ==> r is Ok && r->Ok_0@ == self@.push(fc),
            self@.len() >= MAX_PDU_SIZE ==> r == Err::<Self, ModbusError>(ModbusError::BufferFull),
    {
        self.byte(fc)
    }

    /// Appends an address, most significant byte first.
    pub fn address(self, addr: u16) -> (r: ModbusResult<Self>)
        ensures
            self@.len() + 2 <= MAX_PDU_SIZE ==> r is Ok && r->Ok_0@ == self@ + be_bytes_u16(addr),
            self@.len() + 2 > MAX_PDU_SIZE ==> r == Err::<Self, ModbusError>(
                ModbusError::BufferFull,
            ),
    {
        self.quantity(addr)
    }

    /// Appends a quantity or a 16-bit value, most significant byte first.
    pub fn quantity(self, qty: u16) -> (r: ModbusResult<Self>)
        ensures
            self@.len() + 2 <= MAX_PDU_SIZE ==> r is Ok && r->Ok_0@ == self@ + be_bytes_u16(qty),
            self@.len() + 2 > MAX_PDU_SIZE ==> r == Err::<Self, ModbusError>(
                ModbusError::BufferFull,
            ),
    {
        let mut builder = self;
        match builder.pdu.push_u16(qty) {
            Ok(()) => Ok(builder),
            Err(e) => Err(e),
        }
    }

    /// Appends one byte.
    pub fn byte(self, b: u8) -> (r: ModbusResult<Self>)
        ensures
            self@.len() < MAX_PDU_SIZE ==> r is Ok && r->Ok_0@ == self@.push(b),
            self@.len() >= MAX_PDU_SIZE ==> r == Err::<Self, ModbusError>(ModbusError::BufferFull),
    {
        let mut builder = self;
        match builder.pdu.push(b) {
            Ok(()) => Ok(builder),
            Err(e) => Err(e),
        }
    }

    /// Appends a run of bytes.
    pub fn data(self, data: &[u8]) -> (r: ModbusResult<Self>)
        ensures
            self@.len() + data@.len() <= MAX_PDU_SIZE ==> r is Ok && r->Ok_0@ == self@ + data@,
            self@.len() + data@.len() > MAX_PDU_SIZE ==> r == Err::<Self, ModbusError>(
                ModbusError::WouldExceedCapacity {
                    len: self@.len() as usize,
                    additional: data@.len() as usize,
                },
            ),
    {
        let mut builder = self;
        match builder.pdu.extend(data) {
            Ok(()) => Ok(builder),
            Err(e) => Err(e),
        }
    }

    /// Hands the finished PDU out.
    pub fn build(self) -> (pdu: ModbusPdu)
        ensures
            pdu@ == self@,
    {
        self.pdu
    }

    /// A read request for coils, discrete inputs, holding registers or
    /// input registers (function codes 1 to 4). Another function code is
    /// refused, and so is a quantity above the protocol ceiling for the
    /// function.
    pub fn build_read_request(fc: u8, start_address: u16, quantity: u16) -> (r: ModbusResult<
        ModbusPdu,
    >)
        ensures
            !(1 <= fc <= 4) ==> r == Err::<ModbusPdu, ModbusError>(
                ModbusError::InvalidFunction { code: fc },
            ),
            1 <= fc <= 4 && quantity > read_ceiling(fc) ==> r == Err::<ModbusPdu, ModbusError>(
                ModbusError::InvalidQuantity {
                    quantity: quantity as usize,
                    max: read_ceiling(fc) as usize,
                },
            ),
            1 <= fc <= 4 && quantity <= read_ceiling(fc) ==> r is Ok && r->Ok_0@
                == five_byte_request(fc, start_address, quantity),
    {
        if fc < 0x01 || fc > 0x04 {
            return Err(ModbusError::InvalidFunction { code: fc });
        }
        let max: usize = if fc <= 0x02 {
            MAX_READ_COILS
        } else {
            MAX_READ_REGISTERS
        };
        if quantity as usize > max {
            return Err(ModbusError::InvalidQuantity { quantity: quantity as usize, max });
        }
        let pdu = PduBuilder::new().function_code(fc)?.address(start_address)?.quantity(
            quantity,
        )?.build();
        assert(pdu@ =~= five_byte_request(fc, start_address, quantity));
        Ok(pdu)
    }

    /// A Write Single Coil request: the value field is 0xFF00 for on and
    /// 0x0000 for off.
    pub fn build_write_single_coil(address: u16, value: bool) -> (r: ModbusResult<ModbusPdu>)
        ensures
            r is Ok,
            r->Ok_0@ == five_byte_request(0x05, address, coil_word(value)),
    {
        let word: u16 = if value {
            0xFF00
        } else {
            0x0000
        };
        let pdu = PduBuilder::new().function_code(0x05)?.address(address)?.quantity(word)?.build();
        assert(pdu@ =~= five_byte_request(0x05, address, coil_word(value)));
        Ok(pdu)
    }

    /// A Write Single Register request.
    pub fn build_write_single_register(address: u16, value: u16) -> (r: ModbusResult<ModbusPdu>)
        ensures
            r is Ok,
            r->Ok_0@ == five_byte_request(0x06, address, value),
    {
        let pdu = PduBuilder::new().function_code(0x06)?.address(address)?.quantity(value)?.build();
        assert(pdu@ =~= five_byte_request(0x06, address, value));
        Ok(pdu)
    }

    /// A Write Multiple Coils request: quantity, byte count, then the
    /// coils packed least significant bit first. More coils than the
    /// protocol allows in one request are refused.
    pub fn build_write_multiple_coils(address: u16, values: &[bool]) -> (r: ModbusResult<
        ModbusPdu,
    >)
        ensures
            values@.len() > MAX_WRITE_COILS ==> r == Err::<ModbusPdu, ModbusError>(
                ModbusError::InvalidQuantity {
                    quantity: values@.len() as usize,
                    max: MAX_WRITE_COILS,
                },
            ),
            values@.len() <= MAX_WRITE_COILS ==> r is Ok && r->Ok_0@ == write_coils_request(
                address,
                values@,
            ),
    {
        if values.len() > MAX_WRITE_COILS {
            return Err(
                ModbusError::InvalidQuantity { quantity: values.len(), max: MAX_WRITE_COILS },
            );
        }
        let quantity = values.len() as u16;
        let byte_count = (values.len() + 7) / 8;
        let coil_bytes = pack_coils(values);
        let pdu = PduBuilder::new().function_code(0x0F)?.address(address)?.quantity(quantity)?.byte(
            byte_count as u8,
        )?.data(coil_bytes.as_slice())?.build();
        assert(pdu@ =~= write_coils_request(address, values@));
        Ok(pdu)
    }

    /// A Write Multiple Registers request: quantity, byte count, then
    /// every register most significant byte first. More registers than
    /// the protocol allows in one request are refused.
    pub fn build_write_multiple_registers(address: u16, values: &[u16]) -> (r: ModbusResult<
        ModbusPdu,
    >)
        ensures
            values@.len() > MAX_WRITE_REGISTERS ==> r == Err::<ModbusPdu, ModbusError>(
                ModbusError::InvalidQuantity {
                    quantity: values@.len() as usize,
                    max: MAX_WRITE_REGISTERS,
                },
            ),
            values@.len() <= MAX_WRITE_REGISTERS ==> r is Ok && r->Ok_0@
                == write_registers_request(address, values@),
    {
        if values.len() > MAX_WRITE_REGISTERS {
            return Err(
                ModbusError::InvalidQuantity { quantity: values.len(), max: MAX_WRITE_REGISTERS },
            );
        }
        let quantity = values.len() as u16;
        let byte_count = (values.len() * 2) as u8;
        let register_bytes = registers_to_be_bytes(values);
        let pdu = PduBuilder::new().function_code(0x10)?.address(address)?.quantity(quantity)?.byte(
            byte_count,
        )?.data(register_bytes.as_slice())?.build();
        assert(pdu@ =~= write_registers_request(address, values@));
        Ok(pdu)
    }
}

} // verus!
