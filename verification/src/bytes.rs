//! Byte and word order of multi-register values.
//!
//! A register travels as two bytes, most significant first. A 32-bit or
//! 64-bit value spans two or four registers, and devices disagree on how
//! its bytes are spread over them. With A the most significant byte of
//! the value, the four arrangements are ABCD, DCBA, CDAB and BADC.

use vstd::prelude::*;

verus! {

/// How the bytes of a value are arranged in its registers.
#[derive(Debug, Clone, Copy, PartialEq, Eq, Hash, Structural)]
pub enum ByteOrder {
    /// ABCD: most significant byte first.
    BigEndian,
    /// DCBA: least significant byte first.
    LittleEndian,
    /// CDAB: words swapped, bytes of each word most significant first.
    BigEndianSwap,
    /// BADC: words in place, bytes of each word swapped.
    LittleEndianSwap,
    /// AB: for 16-bit values; on wider values it acts as `BigEndian`.
    BigEndian16,
    /// BA: for 16-bit values; on wider values it acts as `LittleEndian`.
    LittleEndian16,
}

/// Upper-case form of an ASCII letter; any other character is itself.
pub open spec fn ascii_upper(c: char) -> char {
    if 'a' <= c && c <= 'z' {
        ((c as u8) - 32) as char
    } else {
        c
    }
}

/// Whether a character counts in the name of a byte order: hyphens and
/// underscores do not.
pub open spec fn is_name_char(c: char) -> bool {
    c != '-' && c != '_'
}

/// The name of a byte order as it is compared: separators dropped,
/// letters in upper case.
pub open spec fn normalized_name(s: Seq<char>) -> Seq<char> {
    s.filter(|c: char| is_name_char(c)).map_values(|c: char| ascii_upper(c))
}

/// The byte order that a normalized name stands for.
pub open spec fn order_of_name(name: Seq<char>) -> Option<ByteOrder> {
    if name == "ABCD"@ || name == "BE"@ || name == "BIGENDIAN"@ || name == "ABCDEFGH"@ {
        Some(ByteOrder::BigEndian)
    } else if name == "DCBA"@ || name == "LE"@ || name == "LITTLEENDIAN"@ || name == "HGFEDCBA"@ {
        Some(ByteOrder::LittleEndian)
    } else if name == "CDAB"@ || name == "BIGENDIANSWAP"@ {
        Some(ByteOrder::BigEndianSwap)
    } else if name == "BADC"@ || name == "LITTLEENDIANSWAP"@ {
        Some(ByteOrder::LittleEndianSwap)
    } else if name == "AB"@ {
        Some(ByteOrder::BigEndian16)
    } else if name == "BA"@ {
        Some(ByteOrder::LittleEndian16)
    } else {
        None
    }
}

/// The descriptive name of a byte order.
pub open spec fn order_description(order: ByteOrder) -> Seq<char> {
    match order {
        ByteOrder::BigEndian => "ABCD (Big-Endian)"@,
        ByteOrder::LittleEndian => "DCBA (Little-Endian)"@,
        ByteOrder::BigEndianSwap => "CDAB (Big-Endian Swap)"@,
        ByteOrder::LittleEndianSwap => "BADC (Little-Endian Swap)"@,
        ByteOrder::BigEndian16 => "AB (Big-Endian 16)"@,
        ByteOrder::LittleEndian16 => "BA (Little-Endian 16)"@,
    }
}

/// Where byte `i` of an arranged sequence of `len` bytes comes from in
/// the big-endian sequence.
pub open spec fn source_index(order: ByteOrder, len: int, i: int) -> int {
    match order {
        ByteOrder::BigEndian | ByteOrder::BigEndian16 => i,
        ByteOrder::LittleEndian | ByteOrder::LittleEndian16 => len - 1 - i,
        ByteOrder::BigEndianSwap => len - 2 - 2 * (i / 2) + i % 2,
        ByteOrder::LittleEndianSwap => 2 * (i / 2) + 1 - i % 2,
    }
}

/// A byte sequence rearranged for a byte order. Every arrangement is its
/// own inverse, so the same function leads from the big-endian bytes of a
/// value to the bytes of its registers and back.
pub open spec fn arranged(bytes: Seq<u8>, order: ByteOrder) -> Seq<u8> {
    Seq::new(bytes.len(), |i: int| bytes[source_index(order, bytes.len() as int, i)])
}

/// The two bytes of a 16-bit value, most significant first.
pub open spec fn be_bytes_u16(value: u16) -> Seq<u8> {
    seq![(value / 256) as u8, (value % 256) as u8]
}

/// The four bytes of a 32-bit value, most significant first.
pub open spec fn be_bytes_u32(value: u32) -> Seq<u8> {
    seq![
        (value / 0x100_0000) as u8,
        (value / 0x1_0000 % 256) as u8,
        (value / 0x100 % 256) as u8,
        (value % 256) as u8,
    ]
}

/// The eight bytes of a 64-bit value, most significant first.
pub open spec fn be_bytes_u64(value: u64) -> Seq<u8> {
    seq![
        (value / 0x100_0000_0000_0000) as u8,
        (value / 0x1_0000_0000_0000 % 256) as u8,
        (value / 0x100_0000_0000 % 256) as u8,
        (value / 0x1_0000_0000 % 256) as u8,
        (value / 0x100_0000 % 256) as u8,
        (value / 0x1_0000 % 256) as u8,
        (value / 0x100 % 256) as u8,
        (value % 256) as u8,
    ]
}

/// The number that four bytes spell, most significant first.
pub open spec fn be_value_4(bytes: Seq<u8>) -> int {
    bytes[0] * 0x100_0000 + bytes[1] * 0x1_0000 + bytes[2] * 0x100 + bytes[3]
}

/// The number that eight bytes spell, most significant first.
pub open spec fn be_value_8(bytes: Seq<u8>) -> int {
    bytes[0] * 0x100_0000_0000_0000 + bytes[1] * 0x1_0000_0000_0000 + bytes[2] * 0x100_0000_0000
        + bytes[3] * 0x1_0000_0000 + bytes[4] * 0x100_0000 + bytes[5] * 0x1_0000 + bytes[6] * 0x100
        + bytes[7]
}

/// A number below `2^bits` read as a two's complement value of that
/// width.
pub open spec fn as_signed(value: int, modulus: int) -> int {
    if 2 * value >= modulus {
        value - modulus
    } else {
        value
    }
}

/// The number below `modulus` that stands for a two's complement value.
pub open spec fn as_unsigned(value: int, modulus: int) -> int {
    if value < 0 {
        value + modulus
    } else {
        value
    }
}

/// A register sequence as bytes, every register most significant byte
/// first.
pub open spec fn registers_be_bytes(values: Seq<u16>) -> Seq<u8> {
    Seq::new(
        2 * values.len(),
        |i: int|
            if i % 2 == 0 {
                (values[i / 2] / 256) as u8
            } else {
                (values[i / 2] % 256) as u8
            },
    )
}

/// The registers that a byte sequence spells, two bytes to a register,
/// most significant byte first; a trailing odd byte is left out.
pub open spec fn be_registers(bytes: Seq<u8>) -> Seq<u16> {
    Seq::new(
        (bytes.len() / 2) as nat,
        |i: int| (bytes[2 * i] * 256 + bytes[2 * i + 1]) as u16,
    )
}

/// The value of a single register under a byte order: only
/// `LittleEndian16` swaps its bytes.
pub open spec fn register_value(reg: u16, order: ByteOrder) -> u16 {
    if order == ByteOrder::LittleEndian16 {
        (reg % 256 * 256 + reg / 256) as u16
    } else {
        reg
    }
}

/// The bytes of a single register under a byte order: least significant
/// first for `LittleEndian16`, most significant first for every other.
pub open spec fn register_bytes(reg: u16, order: ByteOrder) -> Seq<u8> {
    if order == ByteOrder::LittleEndian16 {
        seq![(reg % 256) as u8, (reg / 256) as u8]
    } else {
        be_bytes_u16(reg)
    }
}

/// The 32-bit number that two registers hold under a byte order.
pub open spec fn registers_value_32(regs: Seq<u16>, order: ByteOrder) -> int {
    be_value_4(arranged(registers_be_bytes(regs), order))
}

/// The 64-bit number that four registers hold under a byte order.
pub open spec fn registers_value_64(regs: Seq<u16>, order: ByteOrder) -> int {
    be_value_8(arranged(registers_be_bytes(regs), order))
}

/// The two registers that hold a 32-bit number under a byte order.
pub open spec fn value_registers_32(value: u32, order: ByteOrder) -> Seq<u16> {
    be_registers(arranged(be_bytes_u32(value), order))
}

/// The four registers that hold a 64-bit number under a byte order.
pub open spec fn value_registers_64(value: u64, order: ByteOrder) -> Seq<u16> {
    be_registers(arranged(be_bytes_u64(value), order))
}

impl Default for ByteOrder {
    /// Big-endian, the network byte order.
    fn default() -> (order: Self)
        ensures
            order == ByteOrder::BigEndian,
    {
        ByteOrder::BigEndian
    }
}

fn to_ascii_upper(c: char) -> (u: char)
    ensures
        u == ascii_upper(c),
{
    if 'a' <= c && c <= 'z' {
        ((c as u8) - 32) as char
    } else {
        c
    }
}

/// Whether a run of characters spells a string.
pub(crate) fn chars_equal(chars: &Vec<char>, text: &str) -> (b: bool)
    ensures
        b == (chars@ == text@),
{
    let n = text.unicode_len();
    if chars.len() != n {
        return false;
    }
    let mut i: usize = 0;
    while i < n
        invariant
            n == text@.len(),
            n == chars@.len(),
            i <= n,
            forall|k: int| 0 <= k < i ==> chars@[k] == text@[k],
        decreases n - i,
    {
        if chars[i] != text.get_char(i) {
            return false;
        }
        i += 1;
    }
    assert(chars@ =~= text@);
    true
}

impl ByteOrder {
    /// Reads a byte order from its name. Case, hyphens and underscores do
    /// not count: "AB-CD", "abcd" and "ABCD" name the same order. Known
    /// names are the letter patterns (ABCD, DCBA, CDAB, BADC, AB, BA,
    /// ABCDEFGH, HGFEDCBA) and BE, LE, BIGENDIAN, LITTLEENDIAN,
    /// BIGENDIANSWAP, LITTLEENDIANSWAP.
    pub fn from_str(s: &str) -> (order: Option<Self>)
        ensures
            order == order_of_name(normalized_name(s@)),
    {
        let mut name: Vec<char> = Vec::new();
        for c in it: s.chars()
            invariant
                it.seq() == s@,
                name@ == normalized_name(s@.take(it.index() as int)),
        {
            proof {
                let prefix = s@.take(it.index() as int);
                let next = s@.take(it.index() + 1);
                assert(next =~= prefix.push(c));
                assert(next.drop_last() =~= prefix);
                reveal(Seq::filter);
            }
            if c != '-' && c != '_' {
                name.push(to_ascii_upper(c));
            }
        }
        assert(s@.take(s@.len() as int) =~= s@);
        if chars_equal(&name, "ABCD") || chars_equal(&name, "BE") || chars_equal(
            &name,
            "BIGENDIAN",
        ) || chars_equal(&name, "ABCDEFGH") {
            Some(ByteOrder::BigEndian)
        } else if chars_equal(&name, "DCBA") || chars_equal(&name, "LE") || chars_equal(
            &name,
            "LITTLEENDIAN",
        ) || chars_equal(&name, "HGFEDCBA") {
            Some(ByteOrder::LittleEndian)
        } else if chars_equal(&name, "CDAB") || chars_equal(&name, "BIGENDIANSWAP") {
            Some(ByteOrder::BigEndianSwap)
        } else if chars_equal(&name, "BADC") || chars_equal(&name, "LITTLEENDIANSWAP") {
            Some(ByteOrder::LittleEndianSwap)
        } else if chars_equal(&name, "AB") {
            Some(ByteOrder::BigEndian16)
        } else if chars_equal(&name, "BA") {
            Some(ByteOrder::LittleEndian16)
        } else {
            None
        }
    }

    /// The descriptive name of the order.
    pub fn as_str(&self) -> (name: &'static str)
        ensures
            name@ == order_description(*self),
    {
        match self {
            ByteOrder::BigEndian => "ABCD (Big-Endian)",
            ByteOrder::LittleEndian => "DCBA (Little-Endian)",
            ByteOrder::BigEndianSwap => "CDAB (Big-Endian Swap)",
            ByteOrder::LittleEndianSwap => "BADC (Little-Endian Swap)",
            ByteOrder::BigEndian16 => "AB (Big-Endian 16)",
            ByteOrder::LittleEndian16 => "BA (Little-Endian 16)",
        }
    }

    /// Whether the order is meant for 16-bit values only.
    pub fn is_16bit_only(&self) -> (b: bool)
        ensures
            b == (*self == ByteOrder::BigEndian16 || *self == ByteOrder::LittleEndian16),
    {
        matches!(self, ByteOrder::BigEndian16 | ByteOrder::LittleEndian16)
    }

    /// Whether the bytes of each word are most significant first.
    pub fn is_big_endian(&self) -> (b: bool)
        ensures
            b == (*self == ByteOrder::BigEndian || *self == ByteOrder::BigEndianSwap || *self
                == ByteOrder::BigEndian16),
    {
        matches!(self, ByteOrder::BigEndian | ByteOrder::BigEndianSwap | ByteOrder::BigEndian16)
    }

    /// Whether the bytes of each word are least significant first.
    pub fn is_little_endian(&self) -> (b: bool)
        ensures
            b == (*self == ByteOrder::LittleEndian || *self == ByteOrder::LittleEndianSwap || *self
                == ByteOrder::LittleEndian16),
    {
        matches!(
            self,
            ByteOrder::LittleEndian | ByteOrder::LittleEndianSwap | ByteOrder::LittleEndian16
        )
    }

    /// Whether the order is one of the two swapped arrangements.
    pub fn has_word_swap(&self) -> (b: bool)
        ensures
            b == (*self == ByteOrder::BigEndianSwap || *self == ByteOrder::LittleEndianSwap),
    {
        matches!(self, ByteOrder::BigEndianSwap | ByteOrder::LittleEndianSwap)
    }
}

/// The high and the low byte of a register.
pub(crate) fn split_register(reg: u16) -> (bytes: (u8, u8))
    ensures
        bytes.0 == (reg / 256) as u8,
        bytes.1 == (reg % 256) as u8,
        bytes.0 == reg / 256,
        bytes.1 == reg % 256,
{
    let high: u8 = (reg >> 8) as u8;
    let low: u8 = (reg & 0xFF) as u8;
    assert(high == reg / 256 && low == reg % 256) by (bit_vector)
        requires
            high == (reg >> 8) as u8,
            low == (reg & 0xFF) as u8,
    ;
    (high, low)
}

/// The register that a high and a low byte spell.
pub(crate) fn join_register(high: u8, low: u8) -> (reg: u16)
    ensures
        reg == high * 256 + low,
{
    let reg: u16 = ((high as u16) << 8) | (low as u16);
    assert(reg == high * 256 + low) by (bit_vector)
        requires
            reg == ((high as u16) << 8) | (low as u16),
    ;
    reg
}

/// Arranges the four bytes of two registers for a byte order.
pub fn regs_to_bytes_4(regs: &[u16; 2], order: ByteOrder) -> (bytes: [u8; 4])
    ensures
        bytes@ == arranged(registers_be_bytes(regs@), order),
{
    let (a, b) = split_register(regs[0]);
    let (c, d) = split_register(regs[1]);
    let bytes = match order {
        ByteOrder::BigEndian | ByteOrder::BigEndian16 => [a, b, c, d],
        ByteOrder::LittleEndian | ByteOrder::LittleEndian16 => [d, c, b, a],
        ByteOrder::BigEndianSwap => [c, d, a, b],
        ByteOrder::LittleEndianSwap => [b, a, d, c],
    };
    assert(bytes@ =~= arranged(registers_be_bytes(regs@), order));
    bytes
}

/// Arranges the eight bytes of four registers for a byte order.
pub fn regs_to_bytes_8(regs: &[u16; 4], order: ByteOrder) -> (bytes: [u8; 8])
    ensures
        bytes@ == arranged(registers_be_bytes(regs@), order),
{
    let (a, b) = split_register(regs[0]);
    let (c, d) = split_register(regs[1]);
    let (e, f) = split_register(regs[2]);
    let (g, h) = split_register(regs[3]);
    let bytes = match order {
        ByteOrder::BigEndian | ByteOrder::BigEndian16 => [a, b, c, d, e, f, g, h],
        ByteOrder::LittleEndian | ByteOrder::LittleEndian16 => [h, g, f, e, d, c, b, a],
        ByteOrder::BigEndianSwap => [g, h, e, f, c, d, a, b],
        ByteOrder::LittleEndianSwap => [b, a, d, c, f, e, h, g],
    };
    assert(bytes@ =~= arranged(registers_be_bytes(regs@), order));
    bytes
}

/// The two bytes of a single register. Only `LittleEndian16` puts the
/// least significant byte first; every other order gives the big-endian
/// bytes.
pub fn reg_to_bytes_2(reg: u16, order: ByteOrder) -> (bytes: [u8; 2])
    ensures
        bytes@ == register_bytes(reg, order),
{
    let (high, low) = split_register(reg);
    let bytes = match order {
        ByteOrder::LittleEndian16 => [low, high],
        _ => [high, low],
    };
    assert(bytes@ =~= register_bytes(reg, order));
    bytes
}

/// The value of a single register: its bytes swapped for
/// `LittleEndian16`, unchanged for every other order.
pub fn reg_to_u16(reg: u16, order: ByteOrder) -> (value: u16)
    ensures
        value == register_value(reg, order),
{
    match order {
        ByteOrder::LittleEndian16 => {
            let (high, low) = split_register(reg);
            join_register(low, high)
        },
        _ => reg,
    }
}

/// The value of a single register, read as two's complement.
pub fn reg_to_i16(reg: u16, order: ByteOrder) -> (value: i16)
    ensures
        value == as_signed(register_value(reg, order) as int, 0x1_0000),
{
    let raw = reg_to_u16(reg, order);
    let value = #[verifier::truncate]
    (raw as i16);
    assert(value == as_signed(raw as int, 0x1_0000)) by (bit_vector)
        requires
            value == raw as i16,
    ;
    value
}

/// The number that four bytes spell, most significant first.
fn u32_from_be_bytes(bytes: &[u8; 4]) -> (value: u32)
    ensures
        value == be_value_4(bytes@),
{
    let b0 = bytes[0];
    let b1 = bytes[1];
    let b2 = bytes[2];
    let b3 = bytes[3];
    let value: u32 = (b0 as u32) << 24 | (b1 as u32) << 16 | (b2 as u32) << 8 | (b3 as u32);
    proof {
        lemma_pack_4(b0, b1, b2, b3, value);
    }
    value
}

/// The four bytes of a number, most significant first.
fn u32_to_be_bytes(value: u32) -> (bytes: [u8; 4])
    ensures
        bytes@ == be_bytes_u32(value),
{
    let b0: u8 = (value >> 24) as u8;
    let b1: u8 = ((value >> 16) & 0xFF) as u8;
    let b2: u8 = ((value >> 8) & 0xFF) as u8;
    let b3: u8 = (value & 0xFF) as u8;
    assert(b0 == value / 0x100_0000 && b1 == value / 0x1_0000 % 256 && b2 == value / 0x100 % 256
        && b3 == value % 256) by (bit_vector)
        requires
            b0 == (value >> 24) as u8,
            b1 == ((value >> 16) & 0xFF) as u8,
            b2 == ((value >> 8) & 0xFF) as u8,
            b3 == (value & 0xFF) as u8,
    ;
    let bytes = [b0, b1, b2, b3];
    assert(bytes@ =~= be_bytes_u32(value));
    bytes
}

/// The number that eight bytes spell, most significant first.
fn u64_from_be_bytes(bytes: &[u8; 8]) -> (value: u64)
    ensures
        value == be_value_8(bytes@),
{
    let high = u32_from_be_bytes(&[bytes[0], bytes[1], bytes[2], bytes[3]]);
    let low = u32_from_be_bytes(&[bytes[4], bytes[5], bytes[6], bytes[7]]);
    let value: u64 = (high as u64) << 32 | (low as u64);
    assert(value == high * 0x1_0000_0000 + low) by (bit_vector)
        requires
            value == (high as u64) << 32 | (low as u64),
    ;
    value
}

/// The eight bytes of a number, most significant first.
fn u64_to_be_bytes(value: u64) -> (bytes: [u8; 8])
    ensures
        bytes@ == be_bytes_u64(value),
{
    let b0: u8 = (value >> 56) as u8;
    let b1: u8 = ((value >> 48) & 0xFF) as u8;
    let b2: u8 = ((value >> 40) & 0xFF) as u8;
    let b3: u8 = ((value >> 32) & 0xFF) as u8;
    let b4: u8 = ((value >> 24) & 0xFF) as u8;
    let b5: u8 = ((value >> 16) & 0xFF) as u8;
    let b6: u8 = ((value >> 8) & 0xFF) as u8;
    let b7: u8 = (value & 0xFF) as u8;
    assert(b0 == value / 0x100_0000_0000_0000 && b1 == value / 0x1_0000_0000_0000 % 256 && b2
        == value / 0x100_0000_0000 % 256 && b3 == value / 0x1_0000_0000 % 256 && b4 == value
        / 0x100_0000 % 256 && b5 == value / 0x1_0000 % 256 && b6 == value / 0x100 % 256 && b7
        == value % 256) by (bit_vector)
        requires
            b0 == (value >> 56) as u8,
            b1 == ((value >> 48) & 0xFF) as u8,
            b2 == ((value >> 40) & 0xFF) as u8,
            b3 == ((value >> 32) & 0xFF) as u8,
            b4 == ((value >> 24) & 0xFF) as u8,
            b5 == ((value >> 16) & 0xFF) as u8,
            b6 == ((value >> 8) & 0xFF) as u8,
            b7 == (value & 0xFF) as u8,
    ;
    let bytes = [b0, b1, b2, b3, b4, b5, b6, b7];
    assert(bytes@ =~= be_bytes_u64(value));
    bytes
}

/// The unsigned 32-bit value that two registers hold.
pub fn regs_to_u32(regs: &[u16; 2], order: ByteOrder) -> (value: u32)
    ensures
        value == registers_value_32(regs@, order),
{
    let bytes = regs_to_bytes_4(regs, order);
    u32_from_be_bytes(&bytes)
}

/// The signed 32-bit value that two registers hold.
pub fn regs_to_i32(regs: &[u16; 2], order: ByteOrder) -> (value: i32)
    ensures
        value == as_signed(registers_value_32(regs@, order), 0x1_0000_0000),
{
    let raw = regs_to_u32(regs, order);
    let value = #[verifier::truncate]
    (raw as i32);
    assert(value == as_signed(raw as int, 0x1_0000_0000)) by (bit_vector)
        requires
            value == raw as i32,
    ;
    value
}

/// The unsigned 64-bit value that four registers hold.
pub fn regs_to_u64(regs: &[u16; 4], order: ByteOrder) -> (value: u64)
    ensures
        value == registers_value_64(regs@, order),
{
    let bytes = regs_to_bytes_8(regs, order);
    u64_from_be_bytes(&bytes)
}

/// The signed 64-bit value that four registers hold.
pub fn regs_to_i64(regs: &[u16; 4], order: ByteOrder) -> (value: i64)
    ensures
        value == as_signed(registers_value_64(regs@, order), 0x1_0000_0000_0000_0000),
{
    let raw = regs_to_u64(regs, order);
    let value = #[verifier::truncate]
    (raw as i64);
    assert(value == as_signed(raw as int, 0x1_0000_0000_0000_0000)) by (bit_vector)
        requires
            value == raw as i64,
    ;
    value
}

/// The two registers that hold an unsigned 32-bit value.
pub fn u32_to_regs(value: u32, order: ByteOrder) -> (regs: [u16; 2])
    ensures
        regs@ == value_registers_32(value, order),
{
    let bytes = u32_to_be_bytes(value);
    bytes_4_to_regs(&bytes, order)
}

/// The two registers that hold a signed 32-bit value.
pub fn i32_to_regs(value: i32, order: ByteOrder) -> (regs: [u16; 2])
    ensures
        regs@ == value_registers_32(as_unsigned(value as int, 0x1_0000_0000) as u32, order),
{
    let raw = #[verifier::truncate]
    (value as u32);
    assert(raw == as_unsigned(value as int, 0x1_0000_0000)) by (bit_vector)
        requires
            raw == value as u32,
    ;
    u32_to_regs(raw, order)
}

/// The four registers that hold an unsigned 64-bit value.
pub fn u64_to_regs(value: u64, order: ByteOrder) -> (regs: [u16; 4])
    ensures
        regs@ == value_registers_64(value, order),
{
    let bytes = u64_to_be_bytes(value);
    bytes_8_to_regs(&bytes, order)
}

/// The four registers that hold a signed 64-bit value.
pub fn i64_to_regs(value: i64, order: ByteOrder) -> (regs: [u16; 4])
    ensures
        regs@ == value_registers_64(
            as_unsigned(value as int, 0x1_0000_0000_0000_0000) as u64,
            order,
        ),
{
    let raw = #[verifier::truncate]
    (value as u64);
    assert(raw == as_unsigned(value as int, 0x1_0000_0000_0000_0000)) by (bit_vector)
        requires
            raw == value as u64,
    ;
    u64_to_regs(raw, order)
}

/// The two registers whose bytes are the given big-endian bytes of a
/// value, arranged for a byte order.
pub fn bytes_4_to_regs(bytes: &[u8; 4], order: ByteOrder) -> (regs: [u16; 2])
    ensures
        regs@ == be_registers(arranged(bytes@, order)),
{
    let regs = match order {
        ByteOrder::BigEndian | ByteOrder::BigEndian16 => [
            join_register(bytes[0], bytes[1]),
            join_register(bytes[2], bytes[3]),
        ],
        ByteOrder::LittleEndian | ByteOrder::LittleEndian16 => [
            join_register(bytes[3], bytes[2]),
            join_register(bytes[1], bytes[0]),
        ],
        ByteOrder::BigEndianSwap => [
            join_register(bytes[2], bytes[3]),
            join_register(bytes[0], bytes[1]),
        ],
        ByteOrder::LittleEndianSwap => [
            join_register(bytes[1], bytes[0]),
            join_register(bytes[3], bytes[2]),
        ],
    };
    assert(regs@ =~= be_registers(arranged(bytes@, order)));
    regs
}

/// The four registers whose bytes are the given big-endian bytes of a
/// value, arranged for a byte order.
pub fn bytes_8_to_regs(bytes: &[u8; 8], order: ByteOrder) -> (regs: [u16; 4])
    ensures
        regs@ == be_registers(arranged(bytes@, order)),
{
    let regs = match order {
        ByteOrder::BigEndian | ByteOrder::BigEndian16 => [
            join_register(bytes[0], bytes[1]),
            join_register(bytes[2], bytes[3]),
            join_register(bytes[4], bytes[5]),
            join_register(bytes[6], bytes[7]),
        ],
        ByteOrder::LittleEndian | ByteOrder::LittleEndian16 => [
            join_register(bytes[7], bytes[6]),
            join_register(bytes[5], bytes[4]),
            join_register(bytes[3], bytes[2]),
            join_register(bytes[1], bytes[0]),
        ],
        ByteOrder::BigEndianSwap => [
            join_register(bytes[6], bytes[7]),
            join_register(bytes[4], bytes[5]),
            join_register(bytes[2], bytes[3]),
            join_register(bytes[0], bytes[1]),
        ],
        ByteOrder::LittleEndianSwap => [
            join_register(bytes[1], bytes[0]),
            join_register(bytes[3], bytes[2]),
            join_register(bytes[5], bytes[4]),
            join_register(bytes[7], bytes[6]),
        ],
    };
    assert(regs@ =~= be_registers(arranged(bytes@, order)));
    regs
}

/// Every arrangement is its own inverse on a whole number of words.
pub proof fn lemma_arranged_twice(bytes: Seq<u8>, order: ByteOrder)
    requires
        bytes.len() % 2 == 0,
    ensures
        arranged(arranged(bytes, order), order) == bytes,
{
    let len = bytes.len() as int;
    assert forall|i: int| 0 <= i < len implies 0 <= #[trigger] source_index(order, len, i) < len
        && source_index(order, len, source_index(order, len, i)) == i by {}
    assert(arranged(arranged(bytes, order), order) =~= bytes);
}

/// Registers spelled out as bytes and read back are the same registers.
pub proof fn lemma_registers_of_their_bytes(regs: Seq<u16>)
    ensures
        be_registers(registers_be_bytes(regs)) == regs,
{
    let bytes = registers_be_bytes(regs);
    assert forall|i: int| 0 <= i < regs.len() implies #[trigger] be_registers(bytes)[i]
        == regs[i] by {
        assert(bytes[2 * i] == regs[i] / 256);
        assert(bytes[2 * i + 1] == regs[i] % 256);
    }
    assert(be_registers(bytes) =~= regs);
}

/// A whole number of words read as registers and spelled out again are
/// the same bytes.
pub proof fn lemma_bytes_of_their_registers(bytes: Seq<u8>)
    requires
        bytes.len() % 2 == 0,
    ensures
        registers_be_bytes(be_registers(bytes)) == bytes,
{
    let regs = be_registers(bytes);
    assert forall|i: int| 0 <= i < bytes.len() implies #[trigger] registers_be_bytes(regs)[i]
        == bytes[i] by {
        let w = i / 2;
        assert(regs[w] == bytes[2 * w] * 256 + bytes[2 * w + 1]);
    }
    assert(registers_be_bytes(regs) =~= bytes);
}

proof fn lemma_pack_4(b0: u8, b1: u8, b2: u8, b3: u8, v: u32)
    by (bit_vector)
    requires
        v == (b0 as u32) << 24 | (b1 as u32) << 16 | (b2 as u32) << 8 | (b3 as u32),
    ensures
        v == b0 * 0x100_0000 + b1 * 0x1_0000 + b2 * 0x100 + b3,
        v / 0x100_0000 == b0,
        v / 0x1_0000 % 256 == b1,
        v / 0x100 % 256 == b2,
        v % 256 == b3,
{
}

proof fn lemma_unpack_4(v: u32)
    by (bit_vector)
    ensures
        v == (v / 0x100_0000) * 0x100_0000 + (v / 0x1_0000 % 256) * 0x1_0000 + (v / 0x100 % 256)
            * 0x100 + v % 256,
        v / 0x100_0000 < 256,
{
}

proof fn lemma_pack_8(b0: u8, b1: u8, b2: u8, b3: u8, b4: u8, b5: u8, b6: u8, b7: u8, v: u64)
    by (bit_vector)
    requires
        v == (b0 as u64) << 56 | (b1 as u64) << 48 | (b2 as u64) << 40 | (b3 as u64) << 32 | (
        b4 as u64) << 24 | (b5 as u64) << 16 | (b6 as u64) << 8 | (b7 as u64),
    ensures
        v == b0 * 0x100_0000_0000_0000 + b1 * 0x1_0000_0000_0000 + b2 * 0x100_0000_0000 + b3
            * 0x1_0000_0000 + b4 * 0x100_0000 + b5 * 0x1_0000 + b6 * 0x100 + b7,
        v / 0x100_0000_0000_0000 == b0,
        v / 0x1_0000_0000_0000 % 256 == b1,
        v / 0x100_0000_0000 % 256 == b2,
        v / 0x1_0000_0000 % 256 == b3,
        v / 0x100_0000 % 256 == b4,
        v / 0x1_0000 % 256 == b5,
        v / 0x100 % 256 == b6,
        v % 256 == b7,
{
}

proof fn lemma_unpack_8(v: u64)
    by (bit_vector)
    ensures
        v == (v / 0x100_0000_0000_0000) * 0x100_0000_0000_0000 + (v / 0x1_0000_0000_0000 % 256)
            * 0x1_0000_0000_0000 + (v / 0x100_0000_0000 % 256) * 0x100_0000_0000 + (v
            / 0x1_0000_0000 % 256) * 0x1_0000_0000 + (v / 0x100_0000 % 256) * 0x100_0000 + (v
            / 0x1_0000 % 256) * 0x1_0000 + (v / 0x100 % 256) * 0x100 + v % 256,
        v / 0x100_0000_0000_0000 < 256,
{
}

/// The big-endian bytes of a 32-bit value spell that value.
pub proof fn lemma_value_of_bytes_4(value: u32)
    ensures
        be_value_4(be_bytes_u32(value)) == value,
{
    lemma_unpack_4(value);
}

/// The number that four bytes spell fits 32 bits, and its big-endian
/// bytes are those four.
pub proof fn lemma_bytes_of_value_4(bytes: Seq<u8>)
    requires
        bytes.len() == 4,
    ensures
        0 <= be_value_4(bytes) <= u32::MAX,
        be_bytes_u32(be_value_4(bytes) as u32) == bytes,
{
    let v: u32 = (bytes[0] as u32) << 24 | (bytes[1] as u32) << 16 | (bytes[2] as u32) << 8 | (
    bytes[3] as u32);
    lemma_pack_4(bytes[0], bytes[1], bytes[2], bytes[3], v);
    assert(be_bytes_u32(v) =~= bytes);
}

/// The big-endian bytes of a 64-bit value spell that value.
pub proof fn lemma_value_of_bytes_8(value: u64)
    ensures
        be_value_8(be_bytes_u64(value)) == value,
{
    lemma_unpack_8(value);
}

/// The number that eight bytes spell fits 64 bits, and its big-endian
/// bytes are those eight.
pub proof fn lemma_bytes_of_value_8(bytes: Seq<u8>)
    requires
        bytes.len() == 8,
    ensures
        0 <= be_value_8(bytes) <= u64::MAX,
        be_bytes_u64(be_value_8(bytes) as u64) == bytes,
{
    let v: u64 = (bytes[0] as u64) << 56 | (bytes[1] as u64) << 48 | (bytes[2] as u64) << 40 | (
    bytes[3] as u64) << 32 | (bytes[4] as u64) << 24 | (bytes[5] as u64) << 16 | (bytes[6] as u64)
        << 8 | (bytes[7] as u64);
    lemma_pack_8(
        bytes[0],
        bytes[1],
        bytes[2],
        bytes[3],
        bytes[4],
        bytes[5],
        bytes[6],
        bytes[7],
        v,
    );
    assert(be_bytes_u64(v) =~= bytes);
}

/// A 32-bit value laid out in registers and read back under the same
/// byte order is the same value.
pub proof fn lemma_u32_roundtrip(value: u32, order: ByteOrder)
    ensures
        registers_value_32(value_registers_32(value, order), order) == value,
{
    let bytes = be_bytes_u32(value);
    let placed = arranged(bytes, order);
    lemma_bytes_of_their_registers(placed);
    lemma_arranged_twice(bytes, order);
    lemma_value_of_bytes_4(value);
}

/// Two registers read as a 32-bit value and laid out again under the
/// same byte order are the same registers.
pub proof fn lemma_regs_32_roundtrip(regs: Seq<u16>, order: ByteOrder)
    requires
        regs.len() == 2,
    ensures
        0 <= registers_value_32(regs, order) <= u32::MAX,
        value_registers_32(registers_value_32(regs, order) as u32, order) == regs,
{
    let bytes = registers_be_bytes(regs);
    let placed = arranged(bytes, order);
    lemma_bytes_of_value_4(placed);
    lemma_arranged_twice(bytes, order);
    lemma_registers_of_their_bytes(regs);
}

/// A 64-bit value laid out in registers and read back under the same
/// byte order is the same value.
pub proof fn lemma_u64_roundtrip(value: u64, order: ByteOrder)
    ensures
        registers_value_64(value_registers_64(value, order), order) == value,
{
    let bytes = be_bytes_u64(value);
    let placed = arranged(bytes, order);
    lemma_bytes_of_their_registers(placed);
    lemma_arranged_twice(bytes, order);
    lemma_value_of_bytes_8(value);
}

/// Four registers read as a 64-bit value and laid out again under the
/// same byte order are the same registers.
pub proof fn lemma_regs_64_roundtrip(regs: Seq<u16>, order: ByteOrder)
    requires
        regs.len() == 4,
    ensures
        0 <= registers_value_64(regs, order) <= u64::MAX,
        value_registers_64(registers_value_64(regs, order) as u64, order) == regs,
{
    let bytes = registers_be_bytes(regs);
    let placed = arranged(bytes, order);
    lemma_bytes_of_value_8(placed);
    lemma_arranged_twice(bytes, order);
    lemma_registers_of_their_bytes(regs);
}

/// A signed 32-bit value laid out in registers and read back under the
/// same byte order is the same value.
pub proof fn lemma_i32_roundtrip(value: i32, order: ByteOrder)
    ensures
        as_signed(
            registers_value_32(
                value_registers_32(as_unsigned(value as int, 0x1_0000_0000) as u32, order),
                order,
            ),
            0x1_0000_0000,
        ) == value,
{
    lemma_u32_roundtrip(as_unsigned(value as int, 0x1_0000_0000) as u32, order);
}

/// A signed 64-bit value laid out in registers and read back under the
/// same byte order is the same value.
pub proof fn lemma_i64_roundtrip(value: i64, order: ByteOrder)
    ensures
        as_signed(
            registers_value_64(
                value_registers_64(
                    as_unsigned(value as int, 0x1_0000_0000_0000_0000) as u64,
                    order,
                ),
                order,
            ),
            0x1_0000_0000_0000_0000,
        ) == value,
{
    lemma_u64_roundtrip(as_unsigned(value as int, 0x1_0000_0000_0000_0000) as u64, order);
}

/// A signed value taken as its unsigned bit pattern and read back as
/// two's complement is the same value.
pub proof fn lemma_signed_roundtrip(value: int, modulus: int)
    requires
        modulus > 0,
        modulus % 2 == 0,
        -modulus <= 2 * value < modulus,
    ensures
        0 <= as_unsigned(value, modulus) < modulus,
        as_signed(as_unsigned(value, modulus), modulus) == value,
{
}

} // verus!
