use closure_compiler::value::FromValue;
use closure_compiler::value::IntoValue;
use closure_compiler::value::Type;
use closure_compiler::value::Value;

#[test]
fn unwrap_bool_gives_the_payload() {
    assert_eq!(Value::Bool(true).unwrap_bool(), true);
    assert_eq!(Value::Bool(false).unwrap_bool(), false);
}

#[test]
fn unwrap_int_gives_the_payload() {
    assert_eq!(Value::Int(0).unwrap_int(), 0);
    assert_eq!(Value::Int(-17).unwrap_int(), -17);
    assert_eq!(Value::Int(i32::MAX).unwrap_int(), i32::MAX);
    assert_eq!(Value::Int(i32::MIN).unwrap_int(), i32::MIN);
}

#[test]
fn a_value_has_the_type_of_its_tag() {
    assert_eq!(Value::Unit.ty(), Type::Unit);
    assert_eq!(Value::Bool(false).ty(), Type::Bool);
    assert_eq!(Value::Int(3).ty(), Type::Int);
}

#[test]
fn host_scalars_convert_to_values() {
    assert_eq!(true.into_value(), Value::Bool(true));
    assert_eq!(false.into_value(), Value::Bool(false));
    assert_eq!(42i32.into_value(), Value::Int(42));
    assert_eq!((-1i32).into_value(), Value::Int(-1));
}

#[test]
fn values_convert_to_host_scalars() {
    assert_eq!(<bool as FromValue>::from_value(Value::Bool(true)), true);
    assert_eq!(<i32 as FromValue>::from_value(Value::Int(7)), 7);
}

#[test]
fn host_types_name_their_type() {
    assert_eq!(<bool as IntoValue>::ty(), Type::Bool);
    assert_eq!(<i32 as IntoValue>::ty(), Type::Int);
    assert_eq!(<bool as FromValue>::ty(), Type::Bool);
    assert_eq!(<i32 as FromValue>::ty(), Type::Int);
}

#[test]
fn conversion_round_trips() {
    for n in [i32::MIN, -1, 0, 1, 55, i32::MAX] {
        assert_eq!(<i32 as FromValue>::from_value(n.into_value()), n);
        assert_eq!(n.into_value().ty(), <i32 as IntoValue>::ty());
    }
    for b in [false, true] {
        assert_eq!(<bool as FromValue>::from_value(b.into_value()), b);
        assert_eq!(b.into_value().ty(), <bool as IntoValue>::ty());
    }
}
