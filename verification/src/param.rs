use vstd::prelude::*;

use crate::decimal::{
    dec_digits, int_text_val, lemma_digits_val_nonneg, lemma_render_parse_i64,
    lemma_render_parse_u64, parse_i64, parse_u64, render_i64, render_u64, spec_render_int,
    uint_text_val, valid_int_text, valid_uint_text,
};
use crate::text::{center, center_str, pad_right, pad_right_str};
use crate::value::{
    is_float_type, is_integer_type, is_signed_type, is_unsigned_type, spec_float_width,
    spec_type_of, type_max, type_min, value_as_int, FloatWidth, Value, ValueType,
};

verus! {

/// What a parameter write does with the user's text, decided by the type
/// tag the device reports for the parameter name:
/// - `Write`: the text parsed under the tag's canonical integer format;
///   the value carries exactly the reported tag, never widened or
///   narrowed.
/// - `ParseFloat`: the tag is a float type; the caller parses the text at
///   the given host width and performs the write. The device's 16-bit
///   float type is handled at 32-bit width and narrowed by the device
///   handle.
/// - `UnknownType`: the device reported no type for the name; nothing is
///   written.
/// - `InvalidValue`: the text does not parse under the tag's format or
///   does not fit its range; nothing is written.
#[derive(Clone, Copy, PartialEq, Eq, Structural, Debug)]
pub enum SetAction {
    Write(Value),
    ParseFloat(FloatWidth),
    UnknownType,
    InvalidValue,
}

/// The value of an unsigned type tag carrying the number `x`.
pub open spec fn make_unsigned(t: ValueType, x: int) -> Value
    recommends
        is_unsigned_type(t),
        0 <= x <= type_max(t),
{
    match t {
        ValueType::U8 => Value::U8(x as u8),
        ValueType::U16 => Value::U16(x as u16),
        ValueType::U32 => Value::U32(x as u32),
        _ => Value::U64(x as u64),
    }
}

/// The value of a signed type tag carrying the number `x`.
pub open spec fn make_signed(t: ValueType, x: int) -> Value
    recommends
        is_signed_type(t),
        type_min(t) <= x <= type_max(t),
{
    match t {
        ValueType::I8 => Value::I8(x as i8),
        ValueType::I16 => Value::I16(x as i16),
        ValueType::I32 => Value::I32(x as i32),
        _ => Value::I64(x as i64),
    }
}

/// The marshalling decision: what writing the text `s` to a parameter
/// whose reported type is `t` does. `t` is `None` when the device knows
/// no type for the name.
pub open spec fn spec_set_action(t: Option<ValueType>, s: Seq<char>) -> SetAction {
    match t {
        Option::None => SetAction::UnknownType,
        Option::Some(t) => {
            if is_float_type(t) {
                SetAction::ParseFloat(spec_float_width(t))
            } else if is_unsigned_type(t) {
                if valid_uint_text(s) && uint_text_val(s) <= type_max(t) {
                    SetAction::Write(make_unsigned(t, uint_text_val(s)))
                } else {
                    SetAction::InvalidValue
                }
            } else {
                if valid_int_text(s) && type_min(t) <= int_text_val(s) <= type_max(t) {
                    SetAction::Write(make_signed(t, int_text_val(s)))
                } else {
                    SetAction::InvalidValue
                }
            }
        },
    }
}

/// Decide what a parameter write does: parse `text` under the device's
/// reported type tag. Integer tags are parsed here, to their exact
/// native width; float tags are handed to the caller with the host width
/// to parse at; a missing tag or a non-parsing text writes nothing.
pub fn plan_set(t: Option<ValueType>, text: &str) -> (r: SetAction)
    ensures
        r == spec_set_action(t, text@),
{
    match t {
        Option::None => SetAction::UnknownType,
        Option::Some(t) => {
            match t {
                ValueType::F16 => SetAction::ParseFloat(FloatWidth::Single),
                ValueType::F32 => SetAction::ParseFloat(FloatWidth::Single),
                ValueType::F64 => SetAction::ParseFloat(FloatWidth::Double),
                ValueType::U8 => {
                    match parse_u64(text) {
                        Option::Some(v) => {
                            if v <= u8::MAX as u64 {
                                SetAction::Write(Value::U8(v as u8))
                            } else {
                                SetAction::InvalidValue
                            }
                        },
                        Option::None => SetAction::InvalidValue,
                    }
                },
                ValueType::U16 => {
                    match parse_u64(text) {
                        Option::Some(v) => {
                            if v <= u16::MAX as u64 {
                                SetAction::Write(Value::U16(v as u16))
                            } else {
                                SetAction::InvalidValue
                            }
                        },
                        Option::None => SetAction::InvalidValue,
                    }
                },
                ValueType::U32 => {
                    match parse_u64(text) {
                        Option::Some(v) => {
                            if v <= u32::MAX as u64 {
                                SetAction::Write(Value::U32(v as u32))
                            } else {
                                SetAction::InvalidValue
                            }
                        },
                        Option::None => SetAction::InvalidValue,
                    }
                },
                ValueType::U64 => {
                    match parse_u64(text) {
                        Option::Some(v) => SetAction::Write(Value::U64(v)),
                        Option::None => SetAction::InvalidValue,
                    }
                },
                ValueType::I8 => {
                    match parse_i64(text) {
                        Option::Some(v) => {
                            if i8::MIN as i64 <= v && v <= i8::MAX as i64 {
                                SetAction::Write(Value::I8(v as i8))
                            } else {
                                SetAction::InvalidValue
                            }
                        },
                        Option::None => SetAction::InvalidValue,
                    }
                },
                ValueType::I16 => {
                    match parse_i64(text) {
                        Option::Some(v) => {
                            if i16::MIN as i64 <= v && v <= i16::MAX as i64 {
                                SetAction::Write(Value::I16(v as i16))
                            } else {
                                SetAction::InvalidValue
                            }
                        },
                        Option::None => SetAction::InvalidValue,
                    }
                },
                ValueType::I32 => {
                    match parse_i64(text) {
                        Option::Some(v) => {
                            if i32::MIN as i64 <= v && v <= i32::MAX as i64 {
                                SetAction::Write(Value::I32(v as i32))
                            } else {
                                SetAction::InvalidValue
                            }
                        },
                        Option::None => SetAction::InvalidValue,
                    }
                },
                ValueType::I64 => {
                    match parse_i64(text) {
                        Option::Some(v) => SetAction::Write(Value::I64(v)),
                        Option::None => SetAction::InvalidValue,
                    }
                },
            }
        },
    }
}

/// The rendered text of an integer value: canonical decimal.
pub open spec fn spec_render_value(v: Value) -> Seq<char>
    recommends
        is_integer_type(spec_type_of(v)),
{
    spec_render_int(value_as_int(v))
}

/// Render a value as the text the get and list commands show. Integer
/// values render as canonical decimal; float values have no verified
/// rendering here and are returned to the caller to format.
pub fn render_value(v: &Value) -> (r: Option<String>)
    ensures
        r is Some <==> is_integer_type(spec_type_of(*v)),
        r matches Some(s) ==> s@ == spec_render_value(*v),
{
    match v {
        Value::U8(x) => Some(render_u64(*x as u64)),
        Value::U16(x) => Some(render_u64(*x as u64)),
        Value::U32(x) => Some(render_u64(*x as u64)),
        Value::U64(x) => Some(render_u64(*x)),
        Value::I8(x) => Some(render_i64(*x as i64)),
        Value::I16(x) => Some(render_i64(*x as i64)),
        Value::I32(x) => Some(render_i64(*x as i64)),
        Value::I64(x) => Some(render_i64(*x)),
        Value::F16(_) => None,
        Value::F32(_) => None,
        Value::F64(_) => None,
    }
}

/// The access column of the parameter listing.
pub open spec fn spec_access_label(writable: bool) -> Seq<char> {
    if writable {
        "RW"@
    } else {
        "RO"@
    }
}

/// The access flag of a parameter as the listing shows it.
pub fn access_label(writable: bool) -> (r: &'static str)
    ensures
        r@ == spec_access_label(writable),
{
    if writable {
        "RW"
    } else {
        "RO"
    }
}

/// One row of the parameter listing: the name padded to its column, the
/// access flag centered in its column, and the rendered value.
pub fn param_row(name: &str, writable: bool, value_text: &str) -> (r: String)
    ensures
        r@ == pad_right(name@, 30) + " | "@ + center(spec_access_label(writable), 6) + " | "@
            + value_text@,
{
    let mut r = pad_right_str(name, 30);
    r.append(" | ");
    let acc = center_str(access_label(writable), 6);
    r.append(acc.as_str());
    r.append(" | ");
    r.append(value_text);
    r
}

/// Type fidelity of the marshalling decision: a write carries exactly
/// the type tag the device reported, with the value the canonical parser
/// gives the text, and a float tag is parsed at 32-bit width for the
/// 16-bit and 32-bit device types and at 64-bit width for the 64-bit
/// type. A well-formed in-range text under an integer tag always
/// produces the write.
pub proof fn lemma_set_type_fidelity(t: ValueType, s: Seq<char>)
    ensures
        spec_set_action(Some(t), s) matches SetAction::Write(v) ==> {
            &&& spec_type_of(v) == t
            &&& value_as_int(v) == (if is_unsigned_type(t) {
                uint_text_val(s)
            } else {
                int_text_val(s)
            })
        },
        is_unsigned_type(t) && valid_uint_text(s) && uint_text_val(s) <= type_max(t)
            ==> spec_set_action(Some(t), s) == SetAction::Write(make_unsigned(t, uint_text_val(s))),
        is_signed_type(t) && valid_int_text(s) && type_min(t) <= int_text_val(s) <= type_max(t)
            ==> spec_set_action(Some(t), s) == SetAction::Write(make_signed(t, int_text_val(s))),
        is_float_type(t) ==> spec_set_action(Some(t), s) == SetAction::ParseFloat(
            spec_float_width(t),
        ),
        t == ValueType::F16 || t == ValueType::F32 ==> spec_set_action(Some(t), s)
            == SetAction::ParseFloat(FloatWidth::Single),
        t == ValueType::F64 ==> spec_set_action(Some(t), s) == SetAction::ParseFloat(
            FloatWidth::Double,
        ),
{
    if is_unsigned_type(t) && valid_uint_text(s) {
        if s.len() > 0 && s[0] == '+' {
            lemma_digits_val_nonneg(s.skip(1));
        } else {
            lemma_digits_val_nonneg(s);
        }
    }
}

/// The get-then-set round trip: rendering an integer value and writing
/// the rendered text back under the same type tag writes the identical
/// value.
pub proof fn lemma_get_set_round_trip(v: Value)
    requires
        is_integer_type(spec_type_of(v)),
    ensures
        spec_set_action(Some(spec_type_of(v)), spec_render_value(v)) == SetAction::Write(v),
{
    let t = spec_type_of(v);
    let x = value_as_int(v);
    if is_unsigned_type(t) {
        let xu = x as u64;
        lemma_render_parse_u64(xu);
        assert(spec_render_value(v) == dec_digits(xu as int));
    } else {
        let xi = x as i64;
        lemma_render_parse_i64(xi);
        assert(spec_render_value(v) == spec_render_int(xi as int));
    }
}

} // verus!
