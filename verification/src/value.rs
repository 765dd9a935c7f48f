//! The typed values that registers hold.

use vstd::prelude::*;
use vstd::std_specs::convert::FromSpecImpl;

verus! {

/// A value read from or written to a device.
///
/// The two floating-point variants carry the IEEE-754 bit pattern of the
/// number: `F32(0x41C8_0000)` is 25.0.
#[derive(Debug, Clone, Copy, PartialEq, Eq, Structural)]
pub enum ModbusValue {
    /// A single bit, as coils hold.
    Bool(bool),
    /// Unsigned 16-bit integer, one register.
    U16(u16),
    /// Signed 16-bit integer, one register.
    I16(i16),
    /// Unsigned 32-bit integer, two registers.
    U32(u32),
    /// Signed 32-bit integer, two registers.
    I32(i32),
    /// Bit pattern of a 32-bit float, two registers.
    F32(u32),
    /// Unsigned 64-bit integer, four registers.
    U64(u64),
    /// Signed 64-bit integer, four registers.
    I64(i64),
    /// Bit pattern of a 64-bit float, four registers.
    F64(u64),
}

/// The name of the type of a value.
pub open spec fn value_type_name(value: ModbusValue) -> Seq<char> {
    match value {
        ModbusValue::Bool(_) => "bool"@,
        ModbusValue::U16(_) => "u16"@,
        ModbusValue::I16(_) => "i16"@,
        ModbusValue::U32(_) => "u32"@,
        ModbusValue::I32(_) => "i32"@,
        ModbusValue::F32(_) => "f32"@,
        ModbusValue::U64(_) => "u64"@,
        ModbusValue::I64(_) => "i64"@,
        ModbusValue::F64(_) => "f64"@,
    }
}

impl ModbusValue {
    /// Number of registers the value takes: none for a bit, one, two or
    /// four for the 16-bit, 32-bit and 64-bit types.
    pub open spec fn spec_register_count(&self) -> usize {
        match self {
            ModbusValue::Bool(_) => 0,
            ModbusValue::U16(_) | ModbusValue::I16(_) => 1,
            ModbusValue::U32(_) | ModbusValue::I32(_) | ModbusValue::F32(_) => 2,
            ModbusValue::U64(_) | ModbusValue::I64(_) | ModbusValue::F64(_) => 4,
        }
    }

    /// Whether the value is false or zero. A float is zero where every
    /// bit but the sign is clear, so that negative zero counts.
    pub open spec fn spec_is_zero(&self) -> bool {
        match self {
            ModbusValue::Bool(b) => !*b,
            ModbusValue::U16(v) => *v == 0,
            ModbusValue::I16(v) => *v == 0,
            ModbusValue::U32(v) => *v == 0,
            ModbusValue::I32(v) => *v == 0,
            ModbusValue::F32(bits) => *bits % 0x8000_0000 == 0,
            ModbusValue::U64(v) => *v == 0,
            ModbusValue::I64(v) => *v == 0,
            ModbusValue::F64(bits) => *bits % 0x8000_0000_0000_0000 == 0,
        }
    }

    /// Number of 16-bit registers the value takes.
    #[verifier::when_used_as_spec(spec_register_count)]
    pub fn register_count(&self) -> (n: usize)
        ensures
            n == self.spec_register_count(),
    {
        match self {
            ModbusValue::Bool(_) => 0,
            ModbusValue::U16(_) | ModbusValue::I16(_) => 1,
            ModbusValue::U32(_) | ModbusValue::I32(_) | ModbusValue::F32(_) => 2,
            ModbusValue::U64(_) | ModbusValue::I64(_) | ModbusValue::F64(_) => 4,
        }
    }

    /// Whether the value is false or zero.
    #[verifier::when_used_as_spec(spec_is_zero)]
    pub fn is_zero(&self) -> (b: bool)
        ensures
            b == self.spec_is_zero(),
    {
        match self {
            ModbusValue::Bool(b) => !*b,
            ModbusValue::U16(v) => *v == 0,
            ModbusValue::I16(v) => *v == 0,
            ModbusValue::U32(v) => *v == 0,
            ModbusValue::I32(v) => *v == 0,
            ModbusValue::F32(bits) => {
                let bits: u32 = *bits;
                assert((bits & 0x7FFF_FFFF == 0) == (bits % 0x8000_0000 == 0)) by (bit_vector);
                bits & 0x7FFF_FFFF == 0
            },
            ModbusValue::U64(v) => *v == 0,
            ModbusValue::I64(v) => *v == 0,
            ModbusValue::F64(bits) => {
                let bits: u64 = *bits;
                assert((bits & 0x7FFF_FFFF_FFFF_FFFF == 0) == (bits % 0x8000_0000_0000_0000 == 0))
                    by (bit_vector);
                bits & 0x7FFF_FFFF_FFFF_FFFF == 0
            },
        }
    }

    /// The name of the value's type, for diagnostics.
    pub fn type_label(&self) -> (name: &'static str)
        ensures
            name@ == value_type_name(*self),
    {
        match self {
            ModbusValue::Bool(_) => "bool",
            ModbusValue::U16(_) => "u16",
            ModbusValue::I16(_) => "i16",
            ModbusValue::U32(_) => "u32",
            ModbusValue::I32(_) => "i32",
            ModbusValue::F32(_) => "f32",
            ModbusValue::U64(_) => "u64",
            ModbusValue::I64(_) => "i64",
            ModbusValue::F64(_) => "f64",
        }
    }
}

impl Default for ModbusValue {
    fn default() -> (value: Self)
        ensures
            value == ModbusValue::U16(0),
    {
        ModbusValue::U16(0)
    }
}

impl From<bool> for ModbusValue {
    fn from(v: bool) -> (value: Self) {
        ModbusValue::Bool(v)
    }
}

impl FromSpecImpl<bool> for ModbusValue {
    open spec fn obeys_from_spec() -> bool {
        true
    }

    open spec fn from_spec(v: bool) -> Self {
        ModbusValue::Bool(v)
    }
}

impl From<u16> for ModbusValue {
    fn from(v: u16) -> (value: Self) {
        ModbusValue::U16(v)
    }
}

impl FromSpecImpl<u16> for ModbusValue {
    open spec fn obeys_from_spec() -> bool {
        true
    }

    open spec fn from_spec(v: u16) -> Self {
        ModbusValue::U16(v)
    }
}

impl From<i16> for ModbusValue {
    fn from(v: i16) -> (value: Self) {
        ModbusValue::I16(v)
    }
}

impl FromSpecImpl<i16> for ModbusValue {
    open spec fn obeys_from_spec() -> bool {
        true
    }

    open spec fn from_spec(v: i16) -> Self {
        ModbusValue::I16(v)
    }
}

impl From<u32> for ModbusValue {
    fn from(v: u32) -> (value: Self) {
        ModbusValue::U32(v)
    }
}

impl FromSpecImpl<u32> for ModbusValue {
    open spec fn obeys_from_spec() -> bool {
        true
    }

    open spec fn from_spec(v: u32) -> Self {
        ModbusValue::U32(v)
    }
}

impl From<i32> for ModbusValue {
    fn from(v: i32) -> (value: Self) {
        ModbusValue::I32(v)
    }
}

impl FromSpecImpl<i32> for ModbusValue {
    open spec fn obeys_from_spec() -> bool {
        true
    }

    open spec fn from_spec(v: i32) -> Self {
        ModbusValue::I32(v)
    }
}

impl From<u64> for ModbusValue {
    fn from(v: u64) -> (value: Self) {
        ModbusValue::U64(v)
    }
}

impl FromSpecImpl<u64> for ModbusValue {
    open spec fn obeys_from_spec() -> bool {
        true
    }

    open spec fn from_spec(v: u64) -> Self {
        ModbusValue::U64(v)
    }
}

impl From<i64> for ModbusValue {
    fn from(v: i64) -> (value: Self) {
        ModbusValue::I64(v)
    }
}

impl FromSpecImpl<i64> for ModbusValue {
    open spec fn obeys_from_spec() -> bool {
        true
    }

    open spec fn from_spec(v: i64) -> Self {
        ModbusValue::I64(v)
    }
}

} // verus!
