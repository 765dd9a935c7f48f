//! Conversions between register sequences and 32-bit values, most
//! significant register first.

use vstd::prelude::*;

use crate::bytes::as_signed;

verus! {

/// The 32-bit values that a register sequence spells, two registers to a
/// value, most significant register first; a trailing odd register is
/// left out.
pub open spec fn be_values_32(registers: Seq<u16>) -> Seq<u32> {
    Seq::new(
        (registers.len() / 2) as nat,
        |i: int| (registers[2 * i] * 0x1_0000 + registers[2 * i + 1]) as u32,
    )
}

/// 32-bit values as registers, the most significant register of each
/// value first.
pub open spec fn be_register_pairs(values: Seq<u32>) -> Seq<u16> {
    Seq::new(
        2 * values.len(),
        |i: int|
            if i % 2 == 0 {
                (values[i / 2] / 0x1_0000) as u16
            } else {
                (values[i / 2] % 0x1_0000) as u16
            },
    )
}

/// The 32-bit value that two registers spell, most significant first.
fn join_pair(high: u16, low: u16) -> (value: u32)
    ensures
        value == high * 0x1_0000 + low,
{
    let value: u32 = ((high as u32) << 16) | (low as u32);
    assert(value == high * 0x1_0000 + low) by (bit_vector)
        requires
            value == ((high as u32) << 16) | (low as u32),
    ;
    value
}

/// Reads registers as unsigned 32-bit values, two registers to a value.
pub fn registers_to_u32_be(registers: &[u16]) -> (values: Vec<u32>)
    ensures
        values@ == be_values_32(registers@),
{
    let n = registers.len();
    let pairs = n / 2;
    let mut values: Vec<u32> = Vec::new();
    let mut i: usize = 0;
    while i < pairs
        invariant
            n == registers@.len(),
            pairs == n / 2,
            i <= pairs,
            values@.len() == i,
            forall|k: int| 0 <= k < i ==> values@[k] == be_values_32(registers@)[k],
        decreases pairs - i,
    {
        values.push(join_pair(registers[2 * i], registers[2 * i + 1]));
        i += 1;
    }
    assert(values@ =~= be_values_32(registers@));
    values
}

/// Reads registers as signed 32-bit values, two registers to a value.
pub fn registers_to_i32_be(registers: &[u16]) -> (values: Vec<i32>)
    ensures
        values@.len() == registers@.len() / 2,
        forall|k: int|
            0 <= k < values@.len() ==> values@[k] == as_signed(
                be_values_32(registers@)[k] as int,
                0x1_0000_0000,
            ),
{
    let raw = registers_to_u32_be(registers);
    let n = raw.len();
    let mut values: Vec<i32> = Vec::new();
    let mut i: usize = 0;
    while i < n
        invariant
            n == raw@.len(),
            i <= n,
            values@.len() == i,
            forall|k: int| 0 <= k < i ==> values@[k] == as_signed(raw@[k] as int, 0x1_0000_0000),
        decreases n - i,
    {
        let unsigned = raw[i];
        let signed = #[verifier::truncate]
        (unsigned as i32);
        assert(signed == as_signed(unsigned as int, 0x1_0000_0000)) by (bit_vector)
            requires
                signed == unsigned as i32,
        ;
        values.push(signed);
        i += 1;
    }
    values
}

/// Lays 32-bit values out as registers, the most significant register of
/// each value first.
pub fn u32_to_registers_be(values: &[u32]) -> (registers: Vec<u16>)
    ensures
        registers@ == be_register_pairs(values@),
{
    let n = values.len();
    let mut registers: Vec<u16> = Vec::new();
    let mut i: usize = 0;
    while i < n
        invariant
            n == values@.len(),
            i <= n,
            registers@.len() == 2 * i,
            forall|k: int| 0 <= k < 2 * i ==> registers@[k] == be_register_pairs(values@)[k],
        decreases n - i,
    {
        let value = values[i];
        let high: u16 = (value >> 16) as u16;
        let low: u16 = (value & 0xFFFF) as u16;
        assert(high == value / 0x1_0000 && low == value % 0x1_0000) by (bit_vector)
            requires
                high == (value >> 16) as u16,
                low == (value & 0xFFFF) as u16,
        ;
        registers.push(high);
        registers.push(low);
        i += 1;
    }
    assert(registers@ =~= be_register_pairs(values@));
    registers
}

/// Values laid out as registers and read back are the same values.
pub proof fn lemma_values_of_their_registers(values: Seq<u32>)
    ensures
        be_values_32(be_register_pairs(values)) == values,
{
    let registers = be_register_pairs(values);
    assert forall|i: int| 0 <= i < values.len() implies #[trigger] be_values_32(registers)[i]
        == values[i] by {
        assert(registers[2 * i] == values[i] / 0x1_0000);
        assert(registers[2 * i + 1] == values[i] % 0x1_0000);
    }
    assert(be_values_32(registers) =~= values);
}

/// A whole number of register pairs read as values and laid out again
/// are the same registers.
pub proof fn lemma_registers_of_their_values(registers: Seq<u16>)
    requires
        registers.len() % 2 == 0,
    ensures
        be_register_pairs(be_values_32(registers)) == registers,
{
    let values = be_values_32(registers);
    assert forall|i: int| 0 <= i < registers.len() implies #[trigger] be_register_pairs(values)[i]
        == registers[i] by {
        let w = i / 2;
        assert(values[w] == registers[2 * w] * 0x1_0000 + registers[2 * w + 1]);
    }
    assert(be_register_pairs(values) =~= registers);
}

} // verus!
