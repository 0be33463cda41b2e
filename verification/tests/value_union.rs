//! The value union: round trips, narrowing errors, the raw mapping.

use jni::errors::Error;
use jni::jobject::JObject;
use jni::jvalueowned::{JValueOwned, ValueKind, JNI_FALSE, JNI_TRUE};
use jni::signature::Primitive;

#[test]
fn round_trip_object() {
    let o = JObject::from_raw(7);
    assert_eq!(JValueOwned::Object(o).l(), Ok(o));
}

#[test]
fn round_trip_bool() {
    assert_eq!(JValueOwned::from_bool(true).z(), Ok(true));
    assert_eq!(JValueOwned::from_bool(false).z(), Ok(false));
    assert_eq!(JValueOwned::Bool(JNI_TRUE).z(), Ok(true));
    assert_eq!(JValueOwned::Bool(JNI_FALSE).z(), Ok(false));
}

#[test]
fn round_trip_byte() {
    assert_eq!(JValueOwned::Byte(-12).b(), Ok(-12));
}

#[test]
fn round_trip_char() {
    assert_eq!(JValueOwned::Char(65).c(), Ok(65));
}

#[test]
fn round_trip_short() {
    assert_eq!(JValueOwned::Short(-300).s(), Ok(-300));
}

#[test]
fn round_trip_int() {
    assert_eq!(JValueOwned::Int(123456).i(), Ok(123456));
}

#[test]
fn round_trip_long() {
    assert_eq!(JValueOwned::Long(-9_876_543_210).j(), Ok(-9_876_543_210));
}

#[test]
fn round_trip_float_bits() {
    let bits = 1.5f32.to_bits();
    assert_eq!(JValueOwned::Float(bits).f(), Ok(bits));
    assert_eq!(f32::from_bits(JValueOwned::Float(bits).f().unwrap()), 1.5f32);
}

#[test]
fn round_trip_double_bits() {
    let bits = (-2.25f64).to_bits();
    assert_eq!(JValueOwned::Double(bits).d(), Ok(bits));
    assert_eq!(f64::from_bits(JValueOwned::Double(bits).d().unwrap()), -2.25f64);
}

#[test]
fn round_trip_void() {
    assert_eq!(JValueOwned::Void.v(), Ok(()));
}

#[test]
fn narrowing_mismatch_names_actual_kind() {
    assert_eq!(
        JValueOwned::Int(7).l(),
        Err(Error::WrongJValueType(ValueKind::Object, ValueKind::Int))
    );
    assert_eq!(
        JValueOwned::Int(7).z(),
        Err(Error::WrongJValueType(ValueKind::Bool, ValueKind::Int))
    );
    assert_eq!(
        JValueOwned::Bool(1).i(),
        Err(Error::WrongJValueType(ValueKind::Int, ValueKind::Bool))
    );
    assert_eq!(
        JValueOwned::Void.b(),
        Err(Error::WrongJValueType(ValueKind::Byte, ValueKind::Void))
    );
    assert_eq!(
        JValueOwned::Long(1).c(),
        Err(Error::WrongJValueType(ValueKind::Char, ValueKind::Long))
    );
    assert_eq!(
        JValueOwned::Char(1).s(),
        Err(Error::WrongJValueType(ValueKind::Short, ValueKind::Char))
    );
    assert_eq!(
        JValueOwned::Short(1).j(),
        Err(Error::WrongJValueType(ValueKind::Long, ValueKind::Short))
    );
    assert_eq!(
        JValueOwned::Double(1).f(),
        Err(Error::WrongJValueType(ValueKind::Float, ValueKind::Double))
    );
    assert_eq!(
        JValueOwned::Float(1).d(),
        Err(Error::WrongJValueType(ValueKind::Double, ValueKind::Float))
    );
    assert_eq!(
        JValueOwned::Object(JObject::null()).v(),
        Err(Error::WrongJValueType(ValueKind::Void, ValueKind::Object))
    );
}

#[test]
fn null_object_is_a_value_not_an_error() {
    let v = JValueOwned::Object(JObject::null());
    let o = v.l().unwrap();
    assert!(o.is_null());
    // a null handle inside an optional is distinct from an absent one
    assert_ne!(Some(JObject::null()), None::<JObject>);
}

#[test]
fn kind_names() {
    assert_eq!(JValueOwned::Object(JObject::null()).kind_name(), "object");
    assert_eq!(JValueOwned::Byte(0).kind_name(), "byte");
    assert_eq!(JValueOwned::Char(0).kind_name(), "char");
    assert_eq!(JValueOwned::Short(0).kind_name(), "short");
    assert_eq!(JValueOwned::Int(0).kind_name(), "int");
    assert_eq!(JValueOwned::Long(0).kind_name(), "long");
    assert_eq!(JValueOwned::Bool(0).kind_name(), "bool");
    assert_eq!(JValueOwned::Float(0).kind_name(), "float");
    assert_eq!(JValueOwned::Double(0).kind_name(), "double");
    assert_eq!(JValueOwned::Void.kind_name(), "void");
}

#[test]
fn primitive_kinds() {
    assert_eq!(JValueOwned::Object(JObject::null()).primitive_type(), None);
    assert_eq!(JValueOwned::Bool(1).primitive_type(), Some(Primitive::Boolean));
    assert_eq!(JValueOwned::Byte(1).primitive_type(), Some(Primitive::Byte));
    assert_eq!(JValueOwned::Char(1).primitive_type(), Some(Primitive::Char));
    assert_eq!(JValueOwned::Short(1).primitive_type(), Some(Primitive::Short));
    assert_eq!(JValueOwned::Int(1).primitive_type(), Some(Primitive::Int));
    assert_eq!(JValueOwned::Long(1).primitive_type(), Some(Primitive::Long));
    assert_eq!(JValueOwned::Float(1).primitive_type(), Some(Primitive::Float));
    assert_eq!(JValueOwned::Double(1).primitive_type(), Some(Primitive::Double));
    assert_eq!(JValueOwned::Void.primitive_type(), Some(Primitive::Void));
}

#[test]
fn to_jni_fixed_mapping() {
    assert_eq!(JValueOwned::Byte(-1).to_jni().bits, 0xFF);
    assert_eq!(JValueOwned::Bool(1).to_jni().bits, 1);
    assert_eq!(JValueOwned::Char(0x41).to_jni().bits, 0x41);
    assert_eq!(JValueOwned::Short(-2).to_jni().bits, 0xFFFE);
    assert_eq!(JValueOwned::Int(-1).to_jni().bits, 0xFFFF_FFFF);
    assert_eq!(JValueOwned::Long(-1).to_jni().bits, u64::MAX);
    assert_eq!(JValueOwned::Float(1.0f32.to_bits()).to_jni().bits, 1.0f32.to_bits() as u64);
    assert_eq!(JValueOwned::Double(1.0f64.to_bits()).to_jni().bits, 1.0f64.to_bits());
    assert_eq!(JValueOwned::Object(JObject::from_raw(5)).to_jni().bits, 5);
    assert_eq!(JValueOwned::Void.to_jni().bits, 0);
}
