use cf_cli::param::{plan_set, render_value, SetAction};
use cf_cli::value::{value_type_of, FloatWidth, Value, ValueType};

fn all_integer_types() -> [ValueType; 8] {
    [
        ValueType::U8,
        ValueType::U16,
        ValueType::U32,
        ValueType::U64,
        ValueType::I8,
        ValueType::I16,
        ValueType::I32,
        ValueType::I64,
    ]
}

#[test]
fn set_u16_parses_exactly() {
    assert_eq!(
        plan_set(Some(ValueType::U16), "3000"),
        SetAction::Write(Value::U16(3000))
    );
}

#[test]
fn set_rejects_non_numeric_before_any_write() {
    assert_eq!(
        plan_set(Some(ValueType::U16), "notanumber"),
        SetAction::InvalidValue
    );
}

#[test]
fn set_unknown_type_writes_nothing() {
    assert_eq!(plan_set(None, "42"), SetAction::UnknownType);
}

#[test]
fn set_type_tag_is_never_widened() {
    for t in all_integer_types() {
        let action = plan_set(Some(t), "1");
        match action {
            SetAction::Write(v) => assert_eq!(value_type_of(&v), t),
            _ => panic!("expected a write under {:?}", t),
        }
    }
}

#[test]
fn set_respects_each_integer_range() {
    assert_eq!(
        plan_set(Some(ValueType::U8), "255"),
        SetAction::Write(Value::U8(255))
    );
    assert_eq!(plan_set(Some(ValueType::U8), "256"), SetAction::InvalidValue);
    assert_eq!(plan_set(Some(ValueType::U16), "70000"), SetAction::InvalidValue);
    assert_eq!(
        plan_set(Some(ValueType::I8), "-128"),
        SetAction::Write(Value::I8(-128))
    );
    assert_eq!(plan_set(Some(ValueType::I8), "-129"), SetAction::InvalidValue);
    assert_eq!(plan_set(Some(ValueType::U8), "-1"), SetAction::InvalidValue);
    assert_eq!(
        plan_set(Some(ValueType::U64), "18446744073709551615"),
        SetAction::Write(Value::U64(u64::MAX))
    );
    assert_eq!(
        plan_set(Some(ValueType::U64), "18446744073709551616"),
        SetAction::InvalidValue
    );
    assert_eq!(
        plan_set(Some(ValueType::I64), "-9223372036854775808"),
        SetAction::Write(Value::I64(i64::MIN))
    );
    assert_eq!(
        plan_set(Some(ValueType::I64), "-9223372036854775809"),
        SetAction::InvalidValue
    );
}

#[test]
fn set_accepts_explicit_plus_sign() {
    assert_eq!(
        plan_set(Some(ValueType::U8), "+7"),
        SetAction::Write(Value::U8(7))
    );
    assert_eq!(
        plan_set(Some(ValueType::I16), "+42"),
        SetAction::Write(Value::I16(42))
    );
}

#[test]
fn set_rejects_empty_and_padded_text() {
    assert_eq!(plan_set(Some(ValueType::U8), ""), SetAction::InvalidValue);
    assert_eq!(plan_set(Some(ValueType::U8), " 3"), SetAction::InvalidValue);
    assert_eq!(plan_set(Some(ValueType::U8), "3 "), SetAction::InvalidValue);
    assert_eq!(plan_set(Some(ValueType::I8), "--5"), SetAction::InvalidValue);
    assert_eq!(plan_set(Some(ValueType::U8), "+"), SetAction::InvalidValue);
}

#[test]
fn set_half_float_is_parsed_at_single_width() {
    assert_eq!(
        plan_set(Some(ValueType::F16), "1.5"),
        SetAction::ParseFloat(FloatWidth::Single)
    );
    assert_eq!(
        plan_set(Some(ValueType::F32), "1.5"),
        SetAction::ParseFloat(FloatWidth::Single)
    );
    assert_eq!(
        plan_set(Some(ValueType::F64), "1.5"),
        SetAction::ParseFloat(FloatWidth::Double)
    );
}

#[test]
fn get_renders_plain_decimal() {
    assert_eq!(render_value(&Value::U16(3000)), Some("3000".to_string()));
    assert_eq!(render_value(&Value::U8(0)), Some("0".to_string()));
    assert_eq!(render_value(&Value::I8(-5)), Some("-5".to_string()));
    assert_eq!(
        render_value(&Value::I64(i64::MIN)),
        Some("-9223372036854775808".to_string())
    );
    assert_eq!(
        render_value(&Value::U64(u64::MAX)),
        Some("18446744073709551615".to_string())
    );
}

#[test]
fn get_leaves_float_rendering_to_the_caller() {
    assert_eq!(render_value(&Value::F32(0x3fc00000)), None);
    assert_eq!(render_value(&Value::F16(0x3e00)), None);
    assert_eq!(render_value(&Value::F64(0)), None);
}

#[test]
fn get_then_set_round_trips_each_integer_type() {
    let samples = [
        Value::U8(200),
        Value::U16(3000),
        Value::U32(4000000000),
        Value::U64(u64::MAX),
        Value::I8(-77),
        Value::I16(-30000),
        Value::I32(2000000000),
        Value::I64(i64::MIN),
    ];
    for v in samples {
        let text = render_value(&v).expect("integer values render");
        assert_eq!(
            plan_set(Some(value_type_of(&v)), &text),
            SetAction::Write(v)
        );
    }
}
