//! The tagged value union that crosses the calling boundary.

use vstd::prelude::*;

use crate::errors::Error;
use crate::jobject::JObject;
use crate::signature::Primitive;

verus! {

/// The byte value the foreign convention uses for a true boolean.
pub const JNI_TRUE: u8 = 1;

/// The byte value the foreign convention uses for a false boolean.
pub const JNI_FALSE: u8 = 0;

/// The kind of value a [`JValueOwned`] carries. Narrowing errors name the
/// expected and the actual kind with this type.
#[derive(Clone, Copy, Debug, PartialEq, Eq, Structural)]
pub enum ValueKind {
    Object,
    Byte,
    Char,
    Short,
    Int,
    Long,
    Bool,
    Float,
    Double,
    Void,
}

/// The raw calling-convention value: the untyped word a foreign call
/// takes or returns. Each [`JValueOwned`] variant maps onto it with a
/// fixed field layout; see [`JValueOwned::jni_bits`].
#[derive(Clone, Copy, Debug, PartialEq, Eq, Structural)]
pub struct JValueRaw {
    pub bits: u64,
}

/// A single value crossing the calling boundary: an object handle, one of
/// the foreign primitive kinds, or the void marker. Exactly one variant is
/// active; the narrowing accessors check the active variant and report a
/// [`Error::WrongJValueType`] naming the expected and the actual kind when
/// it does not match, never coercing silently.
///
/// The float and double variants carry the raw bit patterns of the
/// foreign single and double precision values; this crate moves those
/// bits across the boundary without interpreting them.
#[derive(Clone, Copy, Debug, PartialEq, Eq, Structural)]
pub enum JValueOwned {
    Object(JObject),
    Byte(i8),
    Char(u16),
    Short(i16),
    Int(i32),
    Long(i64),
    Bool(u8),
    Float(u32),
    Double(u64),
    Void,
}

impl JValueOwned {
    /// The kind of the active variant.
    pub open spec fn kind_spec(self) -> ValueKind {
        match self {
            JValueOwned::Object(_) => ValueKind::Object,
            JValueOwned::Byte(_) => ValueKind::Byte,
            JValueOwned::Char(_) => ValueKind::Char,
            JValueOwned::Short(_) => ValueKind::Short,
            JValueOwned::Int(_) => ValueKind::Int,
            JValueOwned::Long(_) => ValueKind::Long,
            JValueOwned::Bool(_) => ValueKind::Bool,
            JValueOwned::Float(_) => ValueKind::Float,
            JValueOwned::Double(_) => ValueKind::Double,
            JValueOwned::Void => ValueKind::Void,
        }
    }

    /// The fixed mapping of each variant onto the raw calling-convention
    /// word: integers in their two's-complement bytes, a boolean as a
    /// single byte, floats as their bit patterns, an object as its raw
    /// reference value, void as zero.
    pub open spec fn jni_bits(self) -> u64 {
        match self {
            JValueOwned::Object(o) => o.raw_spec() as u64,
            JValueOwned::Byte(b) => (b as u8) as u64,
            JValueOwned::Char(c) => c as u64,
            JValueOwned::Short(s) => (s as u16) as u64,
            JValueOwned::Int(i) => (i as u32) as u64,
            JValueOwned::Long(j) => j as u64,
            JValueOwned::Bool(z) => z as u64,
            JValueOwned::Float(f) => f as u64,
            JValueOwned::Double(d) => d,
            JValueOwned::Void => 0u64,
        }
    }

    /// Converts the union to its raw calling-convention equivalent, with
    /// the fixed mapping of [`JValueOwned::jni_bits`].
    pub fn to_jni(self) -> (r: JValueRaw)
        ensures
            r.bits == self.jni_bits(),
    {
        let bits: u64 = match self {
            JValueOwned::Object(o) => o.into_raw() as u64,
            JValueOwned::Byte(b) => (b as u8) as u64,
            JValueOwned::Char(c) => c as u64,
            JValueOwned::Short(s) => (s as u16) as u64,
            JValueOwned::Int(i) => (i as u32) as u64,
            JValueOwned::Long(j) => j as u64,
            JValueOwned::Bool(z) => z as u64,
            JValueOwned::Float(f) => f as u64,
            JValueOwned::Double(d) => d,
            JValueOwned::Void => 0u64,
        };
        JValueRaw { bits }
    }

    /// The name of the active variant's kind.
    pub open spec fn kind_name_view(self) -> Seq<char> {
        match self.kind_spec() {
            ValueKind::Object => "object"@,
            ValueKind::Byte => "byte"@,
            ValueKind::Char => "char"@,
            ValueKind::Short => "short"@,
            ValueKind::Int => "int"@,
            ValueKind::Long => "long"@,
            ValueKind::Bool => "bool"@,
            ValueKind::Float => "float"@,
            ValueKind::Double => "double"@,
            ValueKind::Void => "void"@,
        }
    }

    /// Get the type name for the active variant. Pure introspection; no
    /// failure mode.
    pub fn kind_name(&self) -> (r: &'static str)
        ensures
            r@ == self.kind_name_view(),
    {
        match *self {
            JValueOwned::Object(_) => "object",
            JValueOwned::Byte(_) => "byte",
            JValueOwned::Char(_) => "char",
            JValueOwned::Short(_) => "short",
            JValueOwned::Int(_) => "int",
            JValueOwned::Long(_) => "long",
            JValueOwned::Bool(_) => "bool",
            JValueOwned::Float(_) => "float",
            JValueOwned::Double(_) => "double",
            JValueOwned::Void => "void",
        }
    }

    /// The primitive kind of the active variant, or `None` for an object.
    pub open spec fn primitive_type_spec(self) -> Option<Primitive> {
        match self {
            JValueOwned::Object(_) => None,
            JValueOwned::Byte(_) => Some(Primitive::Byte),
            JValueOwned::Char(_) => Some(Primitive::Char),
            JValueOwned::Short(_) => Some(Primitive::Short),
            JValueOwned::Int(_) => Some(Primitive::Int),
            JValueOwned::Long(_) => Some(Primitive::Long),
            JValueOwned::Bool(_) => Some(Primitive::Boolean),
            JValueOwned::Float(_) => Some(Primitive::Float),
            JValueOwned::Double(_) => Some(Primitive::Double),
            JValueOwned::Void => Some(Primitive::Void),
        }
    }

    /// Get the primitive kind for the active variant. If it is not a
    /// primitive (i.e. an object), returns `None`. Pure introspection; no
    /// failure mode.
    pub fn primitive_type(&self) -> (r: Option<Primitive>)
        ensures
            r == self.primitive_type_spec(),
    {
        match *self {
            JValueOwned::Object(_) => None,
            JValueOwned::Byte(_) => Some(Primitive::Byte),
            JValueOwned::Char(_) => Some(Primitive::Char),
            JValueOwned::Short(_) => Some(Primitive::Short),
            JValueOwned::Int(_) => Some(Primitive::Int),
            JValueOwned::Long(_) => Some(Primitive::Long),
            JValueOwned::Bool(_) => Some(Primitive::Boolean),
            JValueOwned::Float(_) => Some(Primitive::Float),
            JValueOwned::Double(_) => Some(Primitive::Double),
            JValueOwned::Void => Some(Primitive::Void),
        }
    }

    /// Builds the boolean variant from a host boolean, normalising to the
    /// foreign single-byte representation.
    pub fn from_bool(b: bool) -> (r: JValueOwned)
        ensures
            r == JValueOwned::Bool(if b { JNI_TRUE } else { JNI_FALSE }),
    {
        JValueOwned::Bool(if b { JNI_TRUE } else { JNI_FALSE })
    }

    /// Try to unwrap to an object handle. A null handle is a legitimate
    /// object value and unwraps to `Ok`, unlike a kind mismatch.
    pub fn l(self) -> (r: Result<JObject, Error>)
        ensures
            (match self {
                JValueOwned::Object(o) => r == Ok::<JObject, Error>(o),
                _ => r == Err::<JObject, Error>(
                    Error::WrongJValueType(ValueKind::Object, self.kind_spec()),
                ),
            }),
    {
        match self {
            JValueOwned::Object(o) => Ok(o),
            _ => Err(Error::WrongJValueType(ValueKind::Object, self.kind())),
        }
    }

    /// Try to unwrap to a boolean, true exactly for the foreign true byte.
    pub fn z(self) -> (r: Result<bool, Error>)
        ensures
            (match self {
                JValueOwned::Bool(b) => r == Ok::<bool, Error>(b == JNI_TRUE),
                _ => r == Err::<bool, Error>(
                    Error::WrongJValueType(ValueKind::Bool, self.kind_spec()),
                ),
            }),
    {
        match self {
            JValueOwned::Bool(b) => Ok(b == JNI_TRUE),
            _ => Err(Error::WrongJValueType(ValueKind::Bool, self.kind())),
        }
    }

    /// Try to unwrap to a byte.
    pub fn b(self) -> (r: Result<i8, Error>)
        ensures
            (match self {
                JValueOwned::Byte(b) => r == Ok::<i8, Error>(b),
                _ => r == Err::<i8, Error>(
                    Error::WrongJValueType(ValueKind::Byte, self.kind_spec()),
                ),
            }),
    {
        match self {
            JValueOwned::Byte(b) => Ok(b),
            _ => Err(Error::WrongJValueType(ValueKind::Byte, self.kind())),
        }
    }

    /// Try to unwrap to a char.
    pub fn c(self) -> (r: Result<u16, Error>)
        ensures
            (match self {
                JValueOwned::Char(c) => r == Ok::<u16, Error>(c),
                _ => r == Err::<u16, Error>(
                    Error::WrongJValueType(ValueKind::Char, self.kind_spec()),
                ),
            }),
    {
        match self {
            JValueOwned::Char(c) => Ok(c),
            _ => Err(Error::WrongJValueType(ValueKind::Char, self.kind())),
        }
    }

    /// Try to unwrap to the bit pattern of a double.
    pub fn d(self) -> (r: Result<u64, Error>)
        ensures
            (match self {
                JValueOwned::Double(d) => r == Ok::<u64, Error>(d),
                _ => r == Err::<u64, Error>(
                    Error::WrongJValueType(ValueKind::Double, self.kind_spec()),
                ),
            }),
    {
        match self {
            JValueOwned::Double(d) => Ok(d),
            _ => Err(Error::WrongJValueType(ValueKind::Double, self.kind())),
        }
    }

    /// Try to unwrap to the bit pattern of a float.
    pub fn f(self) -> (r: Result<u32, Error>)
        ensures
            (match self {
                JValueOwned::Float(f) => r == Ok::<u32, Error>(f),
                _ => r == Err::<u32, Error>(
                    Error::WrongJValueType(ValueKind::Float, self.kind_spec()),
                ),
            }),
    {
        match self {
            JValueOwned::Float(f) => Ok(f),
            _ => Err(Error::WrongJValueType(ValueKind::Float, self.kind())),
        }
    }

    /// Try to unwrap to an int.
    pub fn i(self) -> (r: Result<i32, Error>)
        ensures
            (match self {
                JValueOwned::Int(i) => r == Ok::<i32, Error>(i),
                _ => r == Err::<i32, Error>(
                    Error::WrongJValueType(ValueKind::Int, self.kind_spec()),
                ),
            }),
    {
        match self {
            JValueOwned::Int(i) => Ok(i),
            _ => Err(Error::WrongJValueType(ValueKind::Int, self.kind())),
        }
    }

    /// Try to unwrap to a long.
    pub fn j(self) -> (r: Result<i64, Error>)
        ensures
            (match self {
                JValueOwned::Long(j) => r == Ok::<i64, Error>(j),
                _ => r == Err::<i64, Error>(
                    Error::WrongJValueType(ValueKind::Long, self.kind_spec()),
                ),
            }),
    {
        match self {
            JValueOwned::Long(j) => Ok(j),
            _ => Err(Error::WrongJValueType(ValueKind::Long, self.kind())),
        }
    }

    /// Try to unwrap to a short.
    pub fn s(self) -> (r: Result<i16, Error>)
        ensures
            (match self {
                JValueOwned::Short(s) => r == Ok::<i16, Error>(s),
                _ => r == Err::<i16, Error>(
                    Error::WrongJValueType(ValueKind::Short, self.kind_spec()),
                ),
            }),
    {
        match self {
            JValueOwned::Short(s) => Ok(s),
            _ => Err(Error::WrongJValueType(ValueKind::Short, self.kind())),
        }
    }

    /// Try to unwrap to the void marker.
    pub fn v(self) -> (r: Result<(), Error>)
        ensures
            (match self {
                JValueOwned::Void => r == Ok::<(), Error>(()),
                _ => r == Err::<(), Error>(
                    Error::WrongJValueType(ValueKind::Void, self.kind_spec()),
                ),
            }),
    {
        match self {
            JValueOwned::Void => Ok(()),
            _ => Err(Error::WrongJValueType(ValueKind::Void, self.kind())),
        }
    }

    /// The kind of the active variant, as a value.
    pub fn kind(&self) -> (r: ValueKind)
        ensures
            r == self.kind_spec(),
    {
        match *self {
            JValueOwned::Object(_) => ValueKind::Object,
            JValueOwned::Byte(_) => ValueKind::Byte,
            JValueOwned::Char(_) => ValueKind::Char,
            JValueOwned::Short(_) => ValueKind::Short,
            JValueOwned::Int(_) => ValueKind::Int,
            JValueOwned::Long(_) => ValueKind::Long,
            JValueOwned::Bool(_) => ValueKind::Bool,
            JValueOwned::Float(_) => ValueKind::Float,
            JValueOwned::Double(_) => ValueKind::Double,
            JValueOwned::Void => ValueKind::Void,
        }
    }
}

} // verus!
