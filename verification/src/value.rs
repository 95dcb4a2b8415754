use vstd::prelude::*;

verus! {

/// The numeric type of a device variable, as the device's table of
/// contents reports it. The tag is authoritative: the client never
/// infers it from the textual form of a value.
#[derive(Clone, Copy, PartialEq, Eq, Structural, Debug)]
pub enum ValueType {
    U8,
    U16,
    U32,
    U64,
    I8,
    I16,
    I32,
    I64,
    F16,
    F32,
    F64,
}

/// The floating-point width used on the host when a parameter has a
/// float type. The device's 16-bit float type has no host counterpart:
/// its values are parsed and transmitted in 32-bit form, and the device
/// handle narrows them on the wire.
#[derive(Clone, Copy, PartialEq, Eq, Structural, Debug)]
pub enum FloatWidth {
    Single,
    Double,
}

/// A typed value exchanged with the device. Integer kinds carry their
/// native representation; float kinds carry the raw IEEE-754 bit
/// pattern, produced and consumed by the unverified I/O layer.
#[derive(Clone, Copy, PartialEq, Eq, Structural, Debug)]
pub enum Value {
    U8(u8),
    U16(u16),
    U32(u32),
    U64(u64),
    I8(i8),
    I16(i16),
    I32(i32),
    I64(i64),
    F16(u16),
    F32(u32),
    F64(u64),
}

pub open spec fn spec_type_of(v: Value) -> ValueType {
    match v {
        Value::U8(_) => ValueType::U8,
        Value::U16(_) => ValueType::U16,
        Value::U32(_) => ValueType::U32,
        Value::U64(_) => ValueType::U64,
        Value::I8(_) => ValueType::I8,
        Value::I16(_) => ValueType::I16,
        Value::I32(_) => ValueType::I32,
        Value::I64(_) => ValueType::I64,
        Value::F16(_) => ValueType::F16,
        Value::F32(_) => ValueType::F32,
        Value::F64(_) => ValueType::F64,
    }
}

/// The type tag of a value.
pub fn value_type_of(v: &Value) -> (t: ValueType)
    ensures
        t == spec_type_of(*v),
{
    match v {
        Value::U8(_) => ValueType::U8,
        Value::U16(_) => ValueType::U16,
        Value::U32(_) => ValueType::U32,
        Value::U64(_) => ValueType::U64,
        Value::I8(_) => ValueType::I8,
        Value::I16(_) => ValueType::I16,
        Value::I32(_) => ValueType::I32,
        Value::I64(_) => ValueType::I64,
        Value::F16(_) => ValueType::F16,
        Value::F32(_) => ValueType::F32,
        Value::F64(_) => ValueType::F64,
    }
}

pub open spec fn is_float_type(t: ValueType) -> bool {
    t == ValueType::F16 || t == ValueType::F32 || t == ValueType::F64
}

pub open spec fn is_unsigned_type(t: ValueType) -> bool {
    t == ValueType::U8 || t == ValueType::U16 || t == ValueType::U32 || t == ValueType::U64
}

pub open spec fn is_signed_type(t: ValueType) -> bool {
    t == ValueType::I8 || t == ValueType::I16 || t == ValueType::I32 || t == ValueType::I64
}

pub open spec fn is_integer_type(t: ValueType) -> bool {
    is_unsigned_type(t) || is_signed_type(t)
}

/// The smallest value an integer type can carry.
pub open spec fn type_min(t: ValueType) -> int {
    match t {
        ValueType::I8 => i8::MIN as int,
        ValueType::I16 => i16::MIN as int,
        ValueType::I32 => i32::MIN as int,
        ValueType::I64 => i64::MIN as int,
        _ => 0,
    }
}

/// The largest value an integer type can carry.
pub open spec fn type_max(t: ValueType) -> int {
    match t {
        ValueType::U8 => u8::MAX as int,
        ValueType::U16 => u16::MAX as int,
        ValueType::U32 => u32::MAX as int,
        ValueType::U64 => u64::MAX as int,
        ValueType::I8 => i8::MAX as int,
        ValueType::I16 => i16::MAX as int,
        ValueType::I32 => i32::MAX as int,
        ValueType::I64 => i64::MAX as int,
        _ => 0,
    }
}

/// The mathematical value an integer-kind value carries. Float kinds
/// have no integer reading; for them this is zero by convention and no
/// contract relies on it.
pub open spec fn value_as_int(v: Value) -> int {
    match v {
        Value::U8(x) => x as int,
        Value::U16(x) => x as int,
        Value::U32(x) => x as int,
        Value::U64(x) => x as int,
        Value::I8(x) => x as int,
        Value::I16(x) => x as int,
        Value::I32(x) => x as int,
        Value::I64(x) => x as int,
        _ => 0,
    }
}

/// The host float width used for a float-typed parameter: 16-bit and
/// 32-bit device floats are both handled as 32-bit on the host.
pub open spec fn spec_float_width(t: ValueType) -> FloatWidth
    recommends
        is_float_type(t),
{
    if t == ValueType::F64 {
        FloatWidth::Double
    } else {
        FloatWidth::Single
    }
}

/// The name of a value type, as the listing commands show it.
pub open spec fn spec_type_name(t: ValueType) -> Seq<char> {
    match t {
        ValueType::U8 => "U8"@,
        ValueType::U16 => "U16"@,
        ValueType::U32 => "U32"@,
        ValueType::U64 => "U64"@,
        ValueType::I8 => "I8"@,
        ValueType::I16 => "I16"@,
        ValueType::I32 => "I32"@,
        ValueType::I64 => "I64"@,
        ValueType::F16 => "F16"@,
        ValueType::F32 => "F32"@,
        ValueType::F64 => "F64"@,
    }
}

/// The name of a value type, as the listing commands show it.
pub fn value_type_name(t: ValueType) -> (r: &'static str)
    ensures
        r@ == spec_type_name(t),
{
    match t {
        ValueType::U8 => "U8",
        ValueType::U16 => "U16",
        ValueType::U32 => "U32",
        ValueType::U64 => "U64",
        ValueType::I8 => "I8",
        ValueType::I16 => "I16",
        ValueType::I32 => "I32",
        ValueType::I64 => "I64",
        ValueType::F16 => "F16",
        ValueType::F32 => "F32",
        ValueType::F64 => "F64",
    }
}

} // verus!
