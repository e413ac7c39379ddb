//! Tagged values and the width-correct arithmetic the engine performs on them.
//!
//! Every value carries its own type tag. The integer variants hold their
//! number directly. The two floating-point variants hold the IEEE-754 bit
//! pattern of their number, so that they can be moved, stored, compared and
//! tested without any floating-point arithmetic. The reference variants hold a
//! heap handle, and the embedded variants hold the word that locates the item.

use crate::bytes::byte_modulus;
use crate::bytes::le_bytes;
use crate::bytes::le_value;
use crate::bytes::lemma_byte_modulus_values;
use crate::bytes::lemma_le_bytes_len;
use crate::bytes::lemma_le_value_of_bytes;
use crate::bytes::lemma_le_bytes_of_value;
use crate::bytes::lemma_le_value_bound;
use vstd::arithmetic::div_mod::lemma_fundamental_div_mod;
use vstd::arithmetic::div_mod::lemma_fundamental_div_mod_converse;
use vstd::prelude::*;

pub mod convert;
pub mod object;

verus! {

/// The type tag of a value.
#[derive(Clone, Copy, Debug, PartialEq, Eq, Structural)]
pub enum ValueType {
    U8,
    I8,
    U16,
    I16,
    U32,
    I32,
    U64,
    I64,
    F32,
    F64,
    MemoryRef,
    Object,
    ObjectRef,
    String,
    StringRef,
    Array,
    ArrayRef,
    Function,
}

impl ValueType {
    /// The logical size of a value of this type, in bytes.
    pub open spec fn size(self) -> nat {
        match self {
            ValueType::U8 | ValueType::I8 => 1,
            ValueType::U16 | ValueType::I16 => 2,
            ValueType::U32 | ValueType::I32 | ValueType::F32 => 4,
            _ => 8,
        }
    }

    /// Whether this is one of the eight integer types.
    pub open spec fn is_integer(self) -> bool {
        match self {
            ValueType::U8
            | ValueType::I8
            | ValueType::U16
            | ValueType::I16
            | ValueType::U32
            | ValueType::I32
            | ValueType::U64
            | ValueType::I64 => true,
            _ => false,
        }
    }

    /// Whether this is a signed integer type.
    pub open spec fn is_signed(self) -> bool {
        match self {
            ValueType::I8 | ValueType::I16 | ValueType::I32 | ValueType::I64 => true,
            _ => false,
        }
    }

    /// Whether this is one of the two floating-point types.
    pub open spec fn is_float(self) -> bool {
        self == ValueType::F32 || self == ValueType::F64
    }

    /// Whether this is one of the four heap-handle types.
    pub open spec fn is_reference(self) -> bool {
        match self {
            ValueType::MemoryRef
            | ValueType::ObjectRef
            | ValueType::StringRef
            | ValueType::ArrayRef => true,
            _ => false,
        }
    }

    /// Two to the power of the type's width in bits.
    pub open spec fn modulus(self) -> int {
        match self {
            ValueType::U8 | ValueType::I8 => 0x100,
            ValueType::U16 | ValueType::I16 => 0x1_0000,
            ValueType::U32 | ValueType::I32 | ValueType::F32 => 0x1_0000_0000,
            _ => 0x1_0000_0000_0000_0000,
        }
    }

    /// The least number a value of this type can hold.
    pub open spec fn min_int(self) -> int {
        match self {
            ValueType::I8 => -0x80,
            ValueType::I16 => -0x8000,
            ValueType::I32 => -0x8000_0000,
            ValueType::I64 => -0x8000_0000_0000_0000,
            _ => 0,
        }
    }

    /// The greatest number a value of this type can hold.
    pub open spec fn max_int(self) -> int {
        match self {
            ValueType::I8 => 0x7f,
            ValueType::I16 => 0x7fff,
            ValueType::I32 => 0x7fff_ffff,
            ValueType::I64 => 0x7fff_ffff_ffff_ffff,
            _ => self.modulus() - 1,
        }
    }

    /// Whether `x` can be held by a value of this type without wrapping.
    pub open spec fn holds(self, x: int) -> bool {
        self.min_int() <= x <= self.max_int()
    }

    /// What is left of `x` after the division by the type's modulus: a number
    /// from zero up to the modulus.
    pub open spec fn residue(self, x: int) -> int {
        match self {
            ValueType::U8 | ValueType::I8 => x % 0x100,
            ValueType::U16 | ValueType::I16 => x % 0x1_0000,
            ValueType::U32 | ValueType::I32 | ValueType::F32 => x % 0x1_0000_0000,
            _ => x % 0x1_0000_0000_0000_0000,
        }
    }

    /// The one number that this type holds and that differs from `x` by a
    /// multiple of the type's modulus: what is left of `x` after wrapping.
    pub open spec fn wrap(self, x: int) -> int {
        let low = self.residue(x);
        if low > self.max_int() {
            low - self.modulus()
        } else {
            low
        }
    }

    pub fn get_size(&self) -> (size: usize)
        ensures
            size == self.size(),
    {
        match self {
            ValueType::U8 => 1,
            ValueType::I8 => 1,
            ValueType::U16 => 2,
            ValueType::I16 => 2,
            ValueType::U32 => 4,
            ValueType::I32 => 4,
            ValueType::U64 => 8,
            ValueType::I64 => 8,
            ValueType::F32 => 4,
            ValueType::F64 => 8,
            ValueType::MemoryRef => 8,
            ValueType::Object => 8,
            ValueType::ObjectRef => 8,
            ValueType::String => 8,
            ValueType::StringRef => 8,
            ValueType::Array => 8,
            ValueType::ArrayRef => 8,
            ValueType::Function => 8,
        }
    }
}

/// A tagged value.
///
/// `F32` and `F64` hold the IEEE-754 bit pattern of their number. `Object`,
/// `String`, `Array` and `Function` are the embedded variants: they hold the
/// word that locates the item they embed.
#[derive(Clone, Copy, Debug, PartialEq, Eq, Structural)]
pub enum Value {
    U8(u8),
    I8(i8),
    U16(u16),
    I16(i16),
    U32(u32),
    I32(i32),
    U64(u64),
    I64(i64),
    F32(u32),
    F64(u64),
    MemoryRef(u64),
    ObjectRef(u64),
    Object(u64),
    StringRef(u64),
    String(u64),
    ArrayRef(u64),
    Array(u64),
    Function(u64),
}

impl Value {
    /// The type tag that the value carries.
    pub open spec fn tag(self) -> ValueType {
        match self {
            Value::U8(_) => ValueType::U8,
            Value::I8(_) => ValueType::I8,
            Value::U16(_) => ValueType::U16,
            Value::I16(_) => ValueType::I16,
            Value::U32(_) => ValueType::U32,
            Value::I32(_) => ValueType::I32,
            Value::U64(_) => ValueType::U64,
            Value::I64(_) => ValueType::I64,
            Value::F32(_) => ValueType::F32,
            Value::F64(_) => ValueType::F64,
            Value::MemoryRef(_) => ValueType::MemoryRef,
            Value::Object(_) => ValueType::Object,
            Value::ObjectRef(_) => ValueType::ObjectRef,
            Value::String(_) => ValueType::String,
            Value::StringRef(_) => ValueType::StringRef,
            Value::Array(_) => ValueType::Array,
            Value::ArrayRef(_) => ValueType::ArrayRef,
            Value::Function(_) => ValueType::Function,
        }
    }

    /// The number that the value holds: for an integer its value, for a
    /// floating-point number its bit pattern, for the others their word.
    pub open spec fn as_int(self) -> int {
        match self {
            Value::U8(v) => v as int,
            Value::I8(v) => v as int,
            Value::U16(v) => v as int,
            Value::I16(v) => v as int,
            Value::U32(v) => v as int,
            Value::I32(v) => v as int,
            Value::U64(v) => v as int,
            Value::I64(v) => v as int,
            Value::F32(v) => v as int,
            Value::F64(v) => v as int,
            Value::MemoryRef(v) => v as int,
            Value::Object(v) => v as int,
            Value::ObjectRef(v) => v as int,
            Value::String(v) => v as int,
            Value::StringRef(v) => v as int,
            Value::Array(v) => v as int,
            Value::ArrayRef(v) => v as int,
            Value::Function(v) => v as int,
        }
    }

    /// The value of type `typ` that holds `x`, for an `x` that the type holds.
    pub open spec fn from_int(typ: ValueType, x: int) -> Value {
        match typ {
            ValueType::U8 => Value::U8(x as u8),
            ValueType::I8 => Value::I8(x as i8),
            ValueType::U16 => Value::U16(x as u16),
            ValueType::I16 => Value::I16(x as i16),
            ValueType::U32 => Value::U32(x as u32),
            ValueType::I32 => Value::I32(x as i32),
            ValueType::U64 => Value::U64(x as u64),
            ValueType::I64 => Value::I64(x as i64),
            ValueType::F32 => Value::F32(x as u32),
            ValueType::F64 => Value::F64(x as u64),
            ValueType::MemoryRef => Value::MemoryRef(x as u64),
            ValueType::Object => Value::Object(x as u64),
            ValueType::ObjectRef => Value::ObjectRef(x as u64),
            ValueType::String => Value::String(x as u64),
            ValueType::StringRef => Value::StringRef(x as u64),
            ValueType::Array => Value::Array(x as u64),
            ValueType::ArrayRef => Value::ArrayRef(x as u64),
            ValueType::Function => Value::Function(x as u64),
        }
    }

    /// The value of type `typ` that is left of `x` after wrapping.
    pub open spec fn wrapped(typ: ValueType, x: int) -> Value {
        Value::from_int(typ, typ.wrap(x))
    }

    /// The bit pattern of the value, read as an unsigned number.
    pub open spec fn raw(self) -> int {
        self.tag().residue(self.as_int())
    }

    /// Whether a value of type `from` can be retagged as `to`.
    ///
    /// Integers convert among themselves. A handle type converts to and from
    /// `U64`, and every handle type converts to `MemoryRef`. Any type with a
    /// defined conversion converts to itself. Conversions between integers and
    /// floating-point numbers, and between the two floating-point types, are
    /// value casts of the host and are not performed here.
    pub open spec fn can_transmute(from: ValueType, to: ValueType) -> bool {
        ||| from.is_integer() && to.is_integer()
        ||| from.is_float() && to == from
        ||| from.is_reference() && (to == ValueType::U64 || to == ValueType::MemoryRef || to == from)
        ||| from == ValueType::U64 && to.is_reference()
    }

    /// The zero of the given type.
    pub fn new(typ: ValueType) -> (value: Value)
        ensures
            value == Value::from_int(typ, 0),
    {
        match typ {
            ValueType::U8 => Value::U8(0),
            ValueType::I8 => Value::I8(0),
            ValueType::U16 => Value::U16(0),
            ValueType::I16 => Value::I16(0),
            ValueType::U32 => Value::U32(0),
            ValueType::I32 => Value::I32(0),
            ValueType::U64 => Value::U64(0),
            ValueType::I64 => Value::I64(0),
            ValueType::F32 => Value::F32(0),
            ValueType::F64 => Value::F64(0),
            ValueType::MemoryRef => Value::MemoryRef(0),
            ValueType::Object => Value::Object(0),
            ValueType::ObjectRef => Value::ObjectRef(0),
            ValueType::String => Value::String(0),
            ValueType::StringRef => Value::StringRef(0),
            ValueType::Array => Value::Array(0),
            ValueType::ArrayRef => Value::ArrayRef(0),
            ValueType::Function => Value::Function(0),
        }
    }

    pub fn get_type(&self) -> (typ: ValueType)
        ensures
            typ == self.tag(),
    {
        match self {
            Value::U8(_) => ValueType::U8,
            Value::I8(_) => ValueType::I8,
            Value::U16(_) => ValueType::U16,
            Value::I16(_) => ValueType::I16,
            Value::U32(_) => ValueType::U32,
            Value::I32(_) => ValueType::I32,
            Value::U64(_) => ValueType::U64,
            Value::I64(_) => ValueType::I64,
            Value::F32(_) => ValueType::F32,
            Value::F64(_) => ValueType::F64,
            Value::MemoryRef(_) => ValueType::MemoryRef,
            Value::Object(_) => ValueType::Object,
            Value::ObjectRef(_) => ValueType::ObjectRef,
            Value::String(_) => ValueType::String,
            Value::StringRef(_) => ValueType::StringRef,
            Value::Array(_) => ValueType::Array,
            Value::ArrayRef(_) => ValueType::ArrayRef,
            Value::Function(_) => ValueType::Function,
        }
    }

    /// The number held, widened so that every value fits.
    fn widen(&self) -> (x: i128)
        ensures
            x == self.as_int(),
    {
        match self {
            Value::U8(v) => *v as i128,
            Value::I8(v) => *v as i128,
            Value::U16(v) => *v as i128,
            Value::I16(v) => *v as i128,
            Value::U32(v) => *v as i128,
            Value::I32(v) => *v as i128,
            Value::U64(v) => *v as i128,
            Value::I64(v) => *v as i128,
            Value::F32(v) => *v as i128,
            Value::F64(v) => *v as i128,
            Value::MemoryRef(v) => *v as i128,
            Value::Object(v) => *v as i128,
            Value::ObjectRef(v) => *v as i128,
            Value::String(v) => *v as i128,
            Value::StringRef(v) => *v as i128,
            Value::Array(v) => *v as i128,
            Value::ArrayRef(v) => *v as i128,
            Value::Function(v) => *v as i128,
        }
    }

    /// Builds the value of type `typ` that is left of `x` after wrapping.
    fn wrap_to(typ: ValueType, x: i128) -> (value: Value)
        requires
            -0x4_0000_0000_0000_0000 <= x <= 0x4_0000_0000_0000_0000,
        ensures
            value == Value::wrapped(typ, x as int),
            value.tag() == typ,
            typ.holds(value.as_int()),
    {
        let size = typ.get_size();
        let modulus: i128 = if size == 1 {
            0x100
        } else if size == 2 {
            0x1_0000
        } else if size == 4 {
            0x1_0000_0000
        } else {
            0x1_0000_0000_0000_0000
        };
        let low: i128 = if x >= 0 {
            ((x as u128) % (modulus as u128)) as i128
        } else {
            let r = (((-x) as u128) % (modulus as u128)) as i128;
            if r == 0 {
                0
            } else {
                modulus - r
            }
        };
        proof {
            assert(modulus == typ.modulus());
            if x < 0 {
                lemma_mod_of_negative(x as int, modulus as int);
            }
            lemma_wrap(typ, x as int);
        }
        match typ {
            ValueType::U8 => Value::U8(low as u8),
            ValueType::I8 => Value::I8((if low > 0x7f { low - modulus } else { low }) as i8),
            ValueType::U16 => Value::U16(low as u16),
            ValueType::I16 => Value::I16((if low > 0x7fff { low - modulus } else { low }) as i16),
            ValueType::U32 => Value::U32(low as u32),
            ValueType::I32 => Value::I32((if low > 0x7fff_ffff { low - modulus } else { low }) as i32),
            ValueType::U64 => Value::U64(low as u64),
            ValueType::I64 => Value::I64(
                (if low > 0x7fff_ffff_ffff_ffff { low - modulus } else { low }) as i64,
            ),
            ValueType::F32 => Value::F32(low as u32),
            ValueType::F64 => Value::F64(low as u64),
            ValueType::MemoryRef => Value::MemoryRef(low as u64),
            ValueType::Object => Value::Object(low as u64),
            ValueType::ObjectRef => Value::ObjectRef(low as u64),
            ValueType::String => Value::String(low as u64),
            ValueType::StringRef => Value::StringRef(low as u64),
            ValueType::Array => Value::Array(low as u64),
            ValueType::ArrayRef => Value::ArrayRef(low as u64),
            ValueType::Function => Value::Function(low as u64),
        }
    }

    /// The least and the greatest number that the type holds.
    fn bounds(typ: ValueType) -> (range: (i128, i128))
        ensures
            range.0 == typ.min_int(),
            range.1 == typ.max_int(),
    {
        match typ {
            ValueType::U8 => (0, 0xff),
            ValueType::I8 => (-0x80, 0x7f),
            ValueType::U16 => (0, 0xffff),
            ValueType::I16 => (-0x8000, 0x7fff),
            ValueType::U32 => (0, 0xffff_ffff),
            ValueType::I32 => (-0x8000_0000, 0x7fff_ffff),
            ValueType::I64 => (-0x8000_0000_0000_0000, 0x7fff_ffff_ffff_ffff),
            ValueType::F32 => (0, 0xffff_ffff),
            _ => (0, 0xffff_ffff_ffff_ffff),
        }
    }

    /// The value of type `typ` that is left of `x`, and whether `x` had to wrap.
    fn wrap_with_overflow(typ: ValueType, x: i128) -> (result: (Value, bool))
        requires
            -0x4_0000_0000_0000_0000 <= x <= 0x4_0000_0000_0000_0000,
        ensures
            result.0 == Value::wrapped(typ, x as int),
            result.1 == !typ.holds(x as int),
            result.0.tag() == typ,
    {
        let (low, high) = Value::bounds(typ);
        (Value::wrap_to(typ, x), x < low || x > high)
    }

    /// The sum of two integers of one type, wrapped to the type's width, and
    /// whether it had to wrap.
    pub fn overflowing_add(self, rhs: Value) -> (result: (Value, bool))
        requires
            self.tag().is_integer(),
            rhs.tag() == self.tag(),
        ensures
            result.0 == Value::wrapped(self.tag(), self.as_int() + rhs.as_int()),
            result.1 == !self.tag().holds(self.as_int() + rhs.as_int()),
            result.0.tag() == self.tag(),
    {
        Value::wrap_with_overflow(self.get_type(), self.widen() + rhs.widen())
    }

    /// The difference of two integers of one type, wrapped to the type's
    /// width, and whether it had to wrap.
    pub fn overflowing_sub(self, rhs: Value) -> (result: (Value, bool))
        requires
            self.tag().is_integer(),
            rhs.tag() == self.tag(),
        ensures
            result.0 == Value::wrapped(self.tag(), self.as_int() - rhs.as_int()),
            result.1 == !self.tag().holds(self.as_int() - rhs.as_int()),
            result.0.tag() == self.tag(),
    {
        Value::wrap_with_overflow(self.get_type(), self.widen() - rhs.widen())
    }

    /// The integer plus one, wrapped to its type's width, and whether it had
    /// to wrap.
    pub fn increment_overflowing(self) -> (result: (Value, bool))
        requires
            self.tag().is_integer(),
        ensures
            result.0 == Value::wrapped(self.tag(), self.as_int() + 1),
            result.1 == !self.tag().holds(self.as_int() + 1),
            result.0.tag() == self.tag(),
    {
        Value::wrap_with_overflow(self.get_type(), self.widen() + 1)
    }

    /// The integer minus one, wrapped to its type's width, and whether it had
    /// to wrap.
    pub fn decrement_overflowing(self) -> (result: (Value, bool))
        requires
            self.tag().is_integer(),
        ensures
            result.0 == Value::wrapped(self.tag(), self.as_int() - 1),
            result.1 == !self.tag().holds(self.as_int() - 1),
            result.0.tag() == self.tag(),
    {
        Value::wrap_with_overflow(self.get_type(), self.widen() - 1)
    }

    /// The product of two integers of one type, wrapped to the type's width,
    /// and whether it had to wrap.
    pub fn overflowing_mul(self, rhs: Value) -> (result: (Value, bool))
        requires
            self.tag().is_integer(),
            rhs.tag() == self.tag(),
        ensures
            result.0 == Value::wrapped(self.tag(), self.as_int() * rhs.as_int()),
            result.1 == !self.tag().holds(self.as_int() * rhs.as_int()),
            result.0.tag() == self.tag(),
    {
        match (self, rhs) {
            (Value::U8(lhs), Value::U8(rhs)) => {
                (Value::U8(lhs.wrapping_mul(rhs)), lhs.checked_mul(rhs).is_none())
            },
            (Value::I8(lhs), Value::I8(rhs)) => {
                (Value::I8(lhs.wrapping_mul(rhs)), lhs.checked_mul(rhs).is_none())
            },
            (Value::U16(lhs), Value::U16(rhs)) => {
                (Value::U16(lhs.wrapping_mul(rhs)), lhs.checked_mul(rhs).is_none())
            },
            (Value::I16(lhs), Value::I16(rhs)) => {
                (Value::I16(lhs.wrapping_mul(rhs)), lhs.checked_mul(rhs).is_none())
            },
            (Value::U32(lhs), Value::U32(rhs)) => {
                (Value::U32(lhs.wrapping_mul(rhs)), lhs.checked_mul(rhs).is_none())
            },
            (Value::I32(lhs), Value::I32(rhs)) => {
                (Value::I32(lhs.wrapping_mul(rhs)), lhs.checked_mul(rhs).is_none())
            },
            (Value::U64(lhs), Value::U64(rhs)) => {
                (Value::U64(lhs.wrapping_mul(rhs)), lhs.checked_mul(rhs).is_none())
            },
            (Value::I64(lhs), Value::I64(rhs)) => {
                (Value::I64(lhs.wrapping_mul(rhs)), lhs.checked_mul(rhs).is_none())
            },
            _ => (self, false),
        }
    }

    /// The quotient of `a` by `b`, rounded toward zero.
    pub open spec fn truncated_quotient(a: int, b: int) -> int {
        let q = (if a < 0 { -a } else { a }) / (if b < 0 { -b } else { b });
        if (a < 0) != (b < 0) {
            -q
        } else {
            q
        }
    }

    /// What is left of `a` after the division by `b` that rounds toward zero.
    /// It has the sign of `a`.
    pub open spec fn truncated_remainder(a: int, b: int) -> int {
        let r = (if a < 0 { -a } else { a }) % (if b < 0 { -b } else { b });
        if a < 0 {
            -r
        } else {
            r
        }
    }

    /// The absolute values of two widened integers.
    fn magnitudes(a: i128, b: i128) -> (m: (u128, u128))
        requires
            -0x1_0000_0000_0000_0000 <= a <= 0x1_0000_0000_0000_0000,
            -0x1_0000_0000_0000_0000 <= b <= 0x1_0000_0000_0000_0000,
        ensures
            m.0 == if a < 0 { -a } else { a as int },
            m.1 == if b < 0 { -b } else { b as int },
    {
        (
            if a < 0 { (-a) as u128 } else { a as u128 },
            if b < 0 { (-b) as u128 } else { b as u128 },
        )
    }

    /// The quotient of two integers of one type, rounded toward zero, and
    /// whether it had to wrap; nothing where the divisor is zero.
    ///
    /// Only the least signed number divided by minus one wraps.
    pub fn safe_div(self, rhs: Value) -> (result: Option<(Value, bool)>)
        requires
            self.tag().is_integer(),
            rhs.tag() == self.tag(),
        ensures
            rhs.as_int() == 0 <==> result is None,
            result matches Some(r) ==> {
                let q = Value::truncated_quotient(self.as_int(), rhs.as_int());
                &&& r.0 == Value::wrapped(self.tag(), q)
                &&& r.1 == !self.tag().holds(q)
                &&& r.0.tag() == self.tag()
            },
    {
        let a = self.widen();
        let b = rhs.widen();
        if b == 0 {
            return None;
        }
        let (ma, mb) = Value::magnitudes(a, b);
        let mq: u128 = ma / mb;
        assert(mq <= ma) by (nonlinear_arith)
            requires
                mq == ma / mb,
                mb > 0,
        ;
        let q: i128 = if (a < 0) != (b < 0) {
            -(mq as i128)
        } else {
            mq as i128
        };
        Some(Value::wrap_with_overflow(self.get_type(), q))
    }

    /// What is left after the division of two integers of one type that rounds
    /// toward zero, and whether that division had to wrap; nothing where the
    /// divisor is zero.
    pub fn safe_mod(self, rhs: Value) -> (result: Option<(Value, bool)>)
        requires
            self.tag().is_integer(),
            rhs.tag() == self.tag(),
        ensures
            rhs.as_int() == 0 <==> result is None,
            result matches Some(r) ==> {
                let q = Value::truncated_quotient(self.as_int(), rhs.as_int());
                let m = Value::truncated_remainder(self.as_int(), rhs.as_int());
                &&& r.0 == Value::from_int(self.tag(), m)
                &&& self.tag().holds(m)
                &&& r.1 == !self.tag().holds(q)
                &&& r.0.tag() == self.tag()
            },
    {
        let a = self.widen();
        let b = rhs.widen();
        if b == 0 {
            return None;
        }
        let typ = self.get_type();
        let (ma, mb) = Value::magnitudes(a, b);
        let mq: u128 = ma / mb;
        let mr: u128 = ma % mb;
        assert(mq <= ma) by (nonlinear_arith)
            requires
                mq == ma / mb,
                mb > 0,
        ;
        let q: i128 = if (a < 0) != (b < 0) {
            -(mq as i128)
        } else {
            mq as i128
        };
        let m: i128 = if a < 0 {
            -(mr as i128)
        } else {
            mr as i128
        };
        proof {
            lemma_wrap(typ, m as int);
        }
        let (low, high) = Value::bounds(typ);
        Some((Value::wrap_to(typ, m), q < low || q > high))
    }

    /// The number by which values of one type are ordered and told apart, where
    /// they have one.
    ///
    /// An integer is ordered by its value, a handle or an embedded item by its
    /// word. A floating-point number is ordered as IEEE-754 orders it: by sign
    /// and magnitude, the two zeros being one number. A floating-point value
    /// that is not a number has no place in the order.
    pub open spec fn order_key(self) -> Option<int> {
        match self {
            Value::F32(bits) => {
                let magnitude = bits as int % 0x8000_0000;
                if magnitude > 0x7f80_0000 {
                    None
                } else if bits >= 0x8000_0000 {
                    Some(-magnitude)
                } else {
                    Some(magnitude)
                }
            },
            Value::F64(bits) => {
                let magnitude = bits as int % 0x8000_0000_0000_0000;
                if magnitude > 0x7ff0_0000_0000_0000 {
                    None
                } else if bits >= 0x8000_0000_0000_0000 {
                    Some(-magnitude)
                } else {
                    Some(magnitude)
                }
            },
            _ => Some(self.as_int()),
        }
    }

    /// The value's place in the order of its type, where it has one.
    fn key(&self) -> (key: Option<i128>)
        ensures
            key is Some == self.order_key() is Some,
            key matches Some(k) ==> self.order_key() == Some(k as int),
    {
        match self {
            Value::F32(bits) => {
                let magnitude: u32 = *bits % 0x8000_0000;
                if magnitude > 0x7f80_0000 {
                    None
                } else if *bits >= 0x8000_0000 {
                    Some(-(magnitude as i128))
                } else {
                    Some(magnitude as i128)
                }
            },
            Value::F64(bits) => {
                let magnitude: u64 = *bits % 0x8000_0000_0000_0000;
                if magnitude > 0x7ff0_0000_0000_0000 {
                    None
                } else if *bits >= 0x8000_0000_0000_0000 {
                    Some(-(magnitude as i128))
                } else {
                    Some(magnitude as i128)
                }
            },
            _ => Some(self.widen()),
        }
    }

    /// Whether the value is below zero in the order of its type.
    pub open spec fn negative(self) -> bool {
        self.order_key() matches Some(k) && k < 0
    }

    /// Whether the value is the zero of the order of its type.
    pub open spec fn zero(self) -> bool {
        self.order_key() == Some(0int)
    }

    /// Whether the value is below zero.
    pub fn is_negative(&self) -> (negative: bool)
        ensures
            negative == self.negative(),
            self.tag().is_integer() ==> negative == (self.as_int() < 0),
    {
        match self.key() {
            Some(k) => k < 0,
            None => false,
        }
    }

    /// Whether the value is zero.
    pub fn is_zero(&self) -> (zero: bool)
        ensures
            zero == self.zero(),
            self.tag().is_integer() ==> zero == (self.as_int() == 0),
    {
        match self.key() {
            Some(k) => k == 0,
            None => false,
        }
    }

    /// Whether two values of one type are equal in the order of their type.
    pub open spec fn equal_to(self, other: Value) -> bool {
        self.order_key() matches Some(a) && other.order_key() matches Some(b) && a == b
    }

    /// Whether the first of two values of one type comes before the second in
    /// the order of their type.
    pub open spec fn less_than(self, other: Value) -> bool {
        self.order_key() matches Some(a) && other.order_key() matches Some(b) && a < b
    }

    /// Whether two values of one type are equal in the order of their type.
    pub fn is_equal_to(&self, other: &Value) -> (equal: bool)
        requires
            self.tag() == other.tag(),
        ensures
            equal == self.equal_to(*other),
    {
        match (self.key(), other.key()) {
            (Some(a), Some(b)) => a == b,
            _ => false,
        }
    }

    /// Whether this value comes before `other`, of the same type, in the order
    /// of their type.
    pub fn is_less_than(&self, other: &Value) -> (less: bool)
        requires
            self.tag() == other.tag(),
        ensures
            less == self.less_than(*other),
    {
        match (self.key(), other.key()) {
            (Some(a), Some(b)) => a < b,
            _ => false,
        }
    }

    /// The bitwise and of two integers of one type.
    pub open spec fn bit_and(self, rhs: Value) -> Value {
        match (self, rhs) {
            (Value::U8(a), Value::U8(b)) => Value::U8(a & b),
            (Value::I8(a), Value::I8(b)) => Value::I8(a & b),
            (Value::U16(a), Value::U16(b)) => Value::U16(a & b),
            (Value::I16(a), Value::I16(b)) => Value::I16(a & b),
            (Value::U32(a), Value::U32(b)) => Value::U32(a & b),
            (Value::I32(a), Value::I32(b)) => Value::I32(a & b),
            (Value::U64(a), Value::U64(b)) => Value::U64(a & b),
            (Value::I64(a), Value::I64(b)) => Value::I64(a & b),
            _ => self,
        }
    }

    /// The bitwise and of two integers of one type.
    pub fn bitand(self, rhs: Value) -> (value: Value)
        requires
            self.tag().is_integer(),
            rhs.tag() == self.tag(),
        ensures
            value == self.bit_and(rhs),
            value.tag() == self.tag(),
    {
        match (self, rhs) {
            (Value::U8(a), Value::U8(b)) => Value::U8(a & b),
            (Value::I8(a), Value::I8(b)) => Value::I8(a & b),
            (Value::U16(a), Value::U16(b)) => Value::U16(a & b),
            (Value::I16(a), Value::I16(b)) => Value::I16(a & b),
            (Value::U32(a), Value::U32(b)) => Value::U32(a & b),
            (Value::I32(a), Value::I32(b)) => Value::I32(a & b),
            (Value::U64(a), Value::U64(b)) => Value::U64(a & b),
            (Value::I64(a), Value::I64(b)) => Value::I64(a & b),
            _ => self,
        }
    }

    /// The bitwise or of two integers of one type.
    pub open spec fn bit_or(self, rhs: Value) -> Value {
        match (self, rhs) {
            (Value::U8(a), Value::U8(b)) => Value::U8(a | b),
            (Value::I8(a), Value::I8(b)) => Value::I8(a | b),
            (Value::U16(a), Value::U16(b)) => Value::U16(a | b),
            (Value::I16(a), Value::I16(b)) => Value::I16(a | b),
            (Value::U32(a), Value::U32(b)) => Value::U32(a | b),
            (Value::I32(a), Value::I32(b)) => Value::I32(a | b),
            (Value::U64(a), Value::U64(b)) => Value::U64(a | b),
            (Value::I64(a), Value::I64(b)) => Value::I64(a | b),
            _ => self,
        }
    }

    /// The bitwise or of two integers of one type.
    pub fn bitor(self, rhs: Value) -> (value: Value)
        requires
            self.tag().is_integer(),
            rhs.tag() == self.tag(),
        ensures
            value == self.bit_or(rhs),
            value.tag() == self.tag(),
    {
        match (self, rhs) {
            (Value::U8(a), Value::U8(b)) => Value::U8(a | b),
            (Value::I8(a), Value::I8(b)) => Value::I8(a | b),
            (Value::U16(a), Value::U16(b)) => Value::U16(a | b),
            (Value::I16(a), Value::I16(b)) => Value::I16(a | b),
            (Value::U32(a), Value::U32(b)) => Value::U32(a | b),
            (Value::I32(a), Value::I32(b)) => Value::I32(a | b),
            (Value::U64(a), Value::U64(b)) => Value::U64(a | b),
            (Value::I64(a), Value::I64(b)) => Value::I64(a | b),
            _ => self,
        }
    }

    /// The bitwise exclusive or of two integers of one type.
    pub open spec fn bit_xor(self, rhs: Value) -> Value {
        match (self, rhs) {
            (Value::U8(a), Value::U8(b)) => Value::U8(a ^ b),
            (Value::I8(a), Value::I8(b)) => Value::I8(a ^ b),
            (Value::U16(a), Value::U16(b)) => Value::U16(a ^ b),
            (Value::I16(a), Value::I16(b)) => Value::I16(a ^ b),
            (Value::U32(a), Value::U32(b)) => Value::U32(a ^ b),
            (Value::I32(a), Value::I32(b)) => Value::I32(a ^ b),
            (Value::U64(a), Value::U64(b)) => Value::U64(a ^ b),
            (Value::I64(a), Value::I64(b)) => Value::I64(a ^ b),
            _ => self,
        }
    }

    /// The bitwise exclusive or of two integers of one type.
    pub fn bitxor(self, rhs: Value) -> (value: Value)
        requires
            self.tag().is_integer(),
            rhs.tag() == self.tag(),
        ensures
            value == self.bit_xor(rhs),
            value.tag() == self.tag(),
    {
        match (self, rhs) {
            (Value::U8(a), Value::U8(b)) => Value::U8(a ^ b),
            (Value::I8(a), Value::I8(b)) => Value::I8(a ^ b),
            (Value::U16(a), Value::U16(b)) => Value::U16(a ^ b),
            (Value::I16(a), Value::I16(b)) => Value::I16(a ^ b),
            (Value::U32(a), Value::U32(b)) => Value::U32(a ^ b),
            (Value::I32(a), Value::I32(b)) => Value::I32(a ^ b),
            (Value::U64(a), Value::U64(b)) => Value::U64(a ^ b),
            (Value::I64(a), Value::I64(b)) => Value::I64(a ^ b),
            _ => self,
        }
    }

    /// The integer with every bit inverted.
    pub open spec fn bit_not(self) -> Value {
        match self {
            Value::U8(a) => Value::U8(!a),
            Value::I8(a) => Value::I8(!a),
            Value::U16(a) => Value::U16(!a),
            Value::I16(a) => Value::I16(!a),
            Value::U32(a) => Value::U32(!a),
            Value::I32(a) => Value::I32(!a),
            Value::U64(a) => Value::U64(!a),
            Value::I64(a) => Value::I64(!a),
            _ => self,
        }
    }

    /// The integer with every bit inverted.
    pub fn not(self) -> (value: Value)
        requires
            self.tag().is_integer(),
        ensures
            value == self.bit_not(),
            value.tag() == self.tag(),
    {
        match self {
            Value::U8(a) => Value::U8(!a),
            Value::I8(a) => Value::I8(!a),
            Value::U16(a) => Value::U16(!a),
            Value::I16(a) => Value::I16(!a),
            Value::U32(a) => Value::U32(!a),
            Value::I32(a) => Value::I32(!a),
            Value::U64(a) => Value::U64(!a),
            Value::I64(a) => Value::I64(!a),
            _ => self,
        }
    }

    /// By how many bits `rhs` shifts a value of this value's type: the number
    /// that `rhs` holds, taken modulo the type's width in bits.
    pub open spec fn shift_count(self, rhs: Value) -> int {
        rhs.as_int() % (8 * self.tag().size() as int)
    }

    /// By how many bits `rhs` shifts a value of this value's type.
    fn count_for(&self, rhs: &Value) -> (count: u32)
        ensures
            count == self.shift_count(*rhs),
            count < 8 * self.tag().size(),
    {
        let bits: i128 = 8 * (self.get_type().get_size() as i128);
        let x = rhs.widen();
        proof {
            if x < 0 {
                lemma_mod_of_negative(x as int, bits as int);
            }
        }
        if x >= 0 {
            ((x as u128) % (bits as u128)) as u32
        } else {
            let r = (((-x) as u128) % (bits as u128)) as u32;
            if r == 0 {
                0
            } else {
                bits as u32 - r
            }
        }
    }

    /// The integer shifted left by `shift_count` bits within its width.
    pub open spec fn shifted_left(self, rhs: Value) -> Value {
        let count = self.shift_count(rhs) as u32;
        match self {
            Value::U8(a) => Value::U8(a << count),
            Value::I8(a) => Value::I8(a << count),
            Value::U16(a) => Value::U16(a << count),
            Value::I16(a) => Value::I16(a << count),
            Value::U32(a) => Value::U32(a << count),
            Value::I32(a) => Value::I32(a << count),
            Value::U64(a) => Value::U64(a << count),
            Value::I64(a) => Value::I64(a << count),
            _ => self,
        }
    }

    /// The integer shifted right by `shift_count` bits: the sign fills a
    /// signed type from the left, zeros an unsigned one.
    pub open spec fn shifted_right(self, rhs: Value) -> Value {
        let count = self.shift_count(rhs) as u32;
        match self {
            Value::U8(a) => Value::U8(a >> count),
            Value::I8(a) => Value::I8(a >> count),
            Value::U16(a) => Value::U16(a >> count),
            Value::I16(a) => Value::I16(a >> count),
            Value::U32(a) => Value::U32(a >> count),
            Value::I32(a) => Value::I32(a >> count),
            Value::U64(a) => Value::U64(a >> count),
            Value::I64(a) => Value::I64(a >> count),
            _ => self,
        }
    }

    /// Shifts an integer left by the number of bits that `rhs`, of the same
    /// type, holds modulo the type's width.
    pub fn shl(self, rhs: Value) -> (value: Value)
        requires
            self.tag().is_integer(),
            rhs.tag() == self.tag(),
        ensures
            value == self.shifted_left(rhs),
            value.tag() == self.tag(),
    {
        let count = self.count_for(&rhs);
        match self {
            Value::U8(a) => Value::U8(a << count),
            Value::I8(a) => Value::I8(a << count),
            Value::U16(a) => Value::U16(a << count),
            Value::I16(a) => Value::I16(a << count),
            Value::U32(a) => Value::U32(a << count),
            Value::I32(a) => Value::I32(a << count),
            Value::U64(a) => Value::U64(a << count),
            Value::I64(a) => Value::I64(a << count),
            _ => self,
        }
    }

    /// Shifts an integer right by the number of bits that `rhs`, of the same
    /// type, holds modulo the type's width: arithmetically for a signed type,
    /// logically for an unsigned one.
    pub fn shr(self, rhs: Value) -> (value: Value)
        requires
            self.tag().is_integer(),
            rhs.tag() == self.tag(),
        ensures
            value == self.shifted_right(rhs),
            value.tag() == self.tag(),
    {
        let count = self.count_for(&rhs);
        match self {
            Value::U8(a) => Value::U8(a >> count),
            Value::I8(a) => Value::I8(a >> count),
            Value::U16(a) => Value::U16(a >> count),
            Value::I16(a) => Value::I16(a >> count),
            Value::U32(a) => Value::U32(a >> count),
            Value::I32(a) => Value::I32(a >> count),
            Value::U64(a) => Value::U64(a >> count),
            Value::I64(a) => Value::I64(a >> count),
            _ => self,
        }
    }

    /// The value's bytes, least significant first: as many as its type is wide.
    pub open spec fn bytes(self) -> Seq<u8> {
        le_bytes(self.raw(), self.tag().size())
    }

    /// The value of type `typ` whose bit pattern the little-endian `bytes` spell.
    pub open spec fn of_bytes(typ: ValueType, bytes: Seq<u8>) -> Value {
        Value::wrapped(typ, le_value(bytes))
    }

    /// The bit pattern of the value, read as an unsigned number.
    fn raw_bits(&self) -> (raw: u64)
        ensures
            raw == self.raw(),
    {
        let x = self.widen();
        let size = self.get_type().get_size();
        let modulus: i128 = if size == 1 {
            0x100
        } else if size == 2 {
            0x1_0000
        } else if size == 4 {
            0x1_0000_0000
        } else {
            0x1_0000_0000_0000_0000
        };
        proof {
            if x < 0 {
                lemma_mod_of_negative(x as int, modulus as int);
            }
        }
        if x < 0 {
            (x + modulus) as u64
        } else {
            x as u64
        }
    }

    /// Serialises the value as little-endian bytes of its type's width.
    pub fn to_bytes(&self) -> (bytes: Vec<u8>)
        ensures
            bytes@ == self.bytes(),
            bytes@.len() == self.tag().size(),
    {
        let size = self.get_type().get_size();
        let mut rest: u64 = self.raw_bits();
        let mut bytes: Vec<u8> = Vec::new();
        let mut i: usize = 0;
        while i < size
            invariant
                i <= size,
                size == self.tag().size(),
                bytes@.len() == i,
                self.bytes() == bytes@ + le_bytes(rest as int, (size - i) as nat),
            decreases size - i,
        {
            let ghost before = bytes@;
            let low: u8 = (rest % 256) as u8;
            bytes.push(low);
            proof {
                let tail = le_bytes(rest as int / 256, (size - i - 1) as nat);
                assert(le_bytes(rest as int, (size - i) as nat) == seq![low] + tail);
                assert(before + (seq![low] + tail) =~= bytes@ + tail);
            }
            rest = rest / 256;
            i += 1;
        }
        assert(bytes@ + le_bytes(rest as int, 0) =~= bytes@);
        bytes
    }

    /// Reads a value of type `typ` from little-endian bytes of the type's width.
    pub fn from_bytes(typ: ValueType, bytes: &Vec<u8>) -> (value: Value)
        requires
            bytes@.len() == typ.size(),
        ensures
            value == Value::of_bytes(typ, bytes@),
            value.tag() == typ,
            value.bytes() == bytes@,
    {
        let size = bytes.len();
        let mut spelled: u64 = 0;
        let mut i: usize = size;
        proof {
            lemma_byte_modulus_values();
            assert(bytes@.subrange(size as int, size as int) =~= Seq::<u8>::empty());
        }
        while i > 0
            invariant
                i <= size,
                size == bytes@.len(),
                size <= 8,
                spelled == le_value(bytes@.subrange(i as int, size as int)),
            decreases i,
        {
            proof {
                let rest = bytes@.subrange(i as int, size as int);
                let more = bytes@.subrange(i as int - 1, size as int);
                assert(more.drop_first() =~= rest);
                lemma_le_value_bound(rest);
                lemma_le_value_bound(more);
                lemma_byte_modulus_values();
            }
            i -= 1;
            spelled = spelled * 256 + bytes[i] as u64;
        }
        proof {
            assert(bytes@.subrange(0, size as int) =~= bytes@);
            lemma_le_value_bound(bytes@);
            lemma_byte_modulus_values();
            lemma_wrap(typ, spelled as int);
            lemma_le_bytes_of_value(bytes@);
        }
        let value = Value::wrap_to(typ, spelled as i128);
        assert(value.as_int() == typ.wrap(spelled as int));
        assert(typ.modulus() == byte_modulus(typ.size()));
        assert(spelled as int % typ.modulus() == spelled) by {
            vstd::arithmetic::div_mod::lemma_small_mod(spelled as nat, typ.modulus() as nat);
        }
        assert(value.raw() == spelled);
        value
    }

    /// The value as an index or a size: the number it holds, where it is an
    /// integer or a `MemoryRef` and `usize` holds the number.
    pub open spec fn as_index(self) -> Option<usize> {
        if (self.tag().is_integer() || self.tag() == ValueType::MemoryRef) && 0 <= self.as_int()
            <= usize::MAX {
            Some(self.as_int() as usize)
        } else {
            None
        }
    }

    /// The value as an index or a size, where it is an integer or a
    /// `MemoryRef` that `usize` holds.
    pub fn to_usize(&self) -> (index: Option<usize>)
        ensures
            index == self.as_index(),
    {
        let typ = self.get_type();
        if !(is_integer_type(typ) || typ == ValueType::MemoryRef) {
            return None;
        }
        let x = self.widen();
        if x < 0 || x > usize::MAX as i128 {
            None
        } else {
            Some(x as usize)
        }
    }

    /// Whether `transmute` is defined from this value's type to `typ`.
    pub fn can_transmute_to(&self, typ: ValueType) -> (can: bool)
        ensures
            can == Value::can_transmute(self.tag(), typ),
    {
        let from = self.get_type();
        match from {
            ValueType::U8
            | ValueType::I8
            | ValueType::U16
            | ValueType::I16
            | ValueType::U32
            | ValueType::I32
            | ValueType::I64 => is_integer_type(typ),
            ValueType::U64 => is_integer_type(typ) || is_reference_type(typ),
            ValueType::F32 | ValueType::F64 => typ == from,
            ValueType::MemoryRef
            | ValueType::ObjectRef
            | ValueType::StringRef
            | ValueType::ArrayRef => typ == ValueType::U64 || typ == ValueType::MemoryRef || typ == from,
            _ => false,
        }
    }

    /// Retags the value as `typ`.
    ///
    /// Between integer types the number is kept where the new type holds it and
    /// wrapped to the new width where it does not, so that types of one width
    /// exchange their bit pattern. Between `U64` and the handle types, and
    /// from a type to itself, the word is kept as it is.
    pub fn transmute(self, typ: ValueType) -> (value: Value)
        requires
            Value::can_transmute(self.tag(), typ),
        ensures
            value == Value::wrapped(typ, self.as_int()),
            value.tag() == typ,
            typ.holds(self.as_int()) ==> value.as_int() == self.as_int(),
            typ.size() == self.tag().size() ==> value.raw() == self.raw(),
    {
        proof {
            lemma_wrap(typ, self.as_int());
            lemma_wrap(self.tag(), self.as_int());
        }
        Value::wrap_to(typ, self.widen())
    }
}

/// A value read from as many bytes as its type is wide has those bytes.
pub proof fn lemma_of_bytes_has_bytes(typ: ValueType, bytes: Seq<u8>)
    requires
        bytes.len() == typ.size(),
    ensures
        Value::of_bytes(typ, bytes).tag() == typ,
        Value::of_bytes(typ, bytes).bytes() == bytes,
{
    let spelled = le_value(bytes);
    let value = Value::of_bytes(typ, bytes);
    lemma_le_value_bound(bytes);
    lemma_byte_modulus_values();
    lemma_wrap(typ, spelled);
    lemma_le_bytes_of_value(bytes);
    assert(typ.modulus() == byte_modulus(typ.size()));
    assert(value.as_int() == typ.wrap(spelled));
    assert(spelled % typ.modulus() == spelled) by {
        vstd::arithmetic::div_mod::lemma_small_mod(spelled as nat, typ.modulus() as nat);
    }
    assert(value.raw() == spelled);
}

/// A value comes back from its bytes: read as the value's type, they give
/// the value.
pub proof fn lemma_value_from_its_bytes(value: Value)
    ensures
        value.bytes().len() == value.tag().size(),
        Value::of_bytes(value.tag(), value.bytes()) == value,
{
    let typ = value.tag();
    let raw = value.raw();
    lemma_byte_modulus_values();
    assert(typ.modulus() == byte_modulus(typ.size()));
    assert(0 <= raw < typ.modulus());
    lemma_le_bytes_len(raw, typ.size());
    lemma_le_value_of_bytes(raw, typ.size());
    lemma_wrap(typ, raw);
    lemma_wrap(typ, value.as_int());
    assert(typ.holds(value.as_int()));
    assert(typ.wrap(raw) % typ.modulus() == value.as_int() % typ.modulus());
    lemma_same_residue(typ, typ.wrap(raw), value.as_int());
}

/// Two numbers that a type holds and that leave the same remainder by the
/// type's modulus are the same number.
proof fn lemma_same_residue(typ: ValueType, a: int, b: int)
    requires
        typ.holds(a),
        typ.holds(b),
        a % typ.modulus() == b % typ.modulus(),
    ensures
        a == b,
{
    let m = typ.modulus();
    lemma_fundamental_div_mod(a, m);
    lemma_fundamental_div_mod(b, m);
    let qa = a / m;
    let qb = b / m;
    assert(a - b == m * (qa - qb)) by (nonlinear_arith)
        requires
            a == m * qa + a % m,
            b == m * qb + b % m,
            a % m == b % m,
    ;
    assert(-m < a - b < m);
    if qa - qb >= 1 {
        assert(m * (qa - qb) >= m) by (nonlinear_arith)
            requires
                qa - qb >= 1,
                m > 0,
        ;
    } else if qa - qb <= -1 {
        assert(m * (qa - qb) <= -m) by (nonlinear_arith)
            requires
                qa - qb <= -1,
                m > 0,
        ;
    }
}

/// A value that was wrapped to a type has that type and holds a number
/// that the type holds.
pub proof fn lemma_wrapped(typ: ValueType, x: int)
    ensures
        Value::wrapped(typ, x).tag() == typ,
        Value::wrapped(typ, x).as_int() == typ.wrap(x),
        typ.holds(x) ==> Value::wrapped(typ, x).as_int() == x,
{
    lemma_wrap(typ, x);
}

/// The remainder of a negative number, from the remainder of its opposite.
proof fn lemma_mod_of_negative(x: int, m: int)
    requires
        m > 0,
        x < 0,
    ensures
        x % m == if (-x) % m == 0 {
            0
        } else {
            m - (-x) % m
        },
{
    let n = -x;
    let q = n / m;
    let r = n % m;
    lemma_fundamental_div_mod(n, m);
    if r == 0 {
        assert(x == (-q) * m + 0) by (nonlinear_arith)
            requires
                n == m * q + r,
                r == 0,
                n == -x,
        ;
        lemma_fundamental_div_mod_converse(x, m, -q, 0);
    } else {
        assert(x == (-q - 1) * m + (m - r)) by (nonlinear_arith)
            requires
                n == m * q + r,
                n == -x,
        ;
        lemma_fundamental_div_mod_converse(x, m, -q - 1, m - r);
    }
}

/// What wrapping gives: a number that the type holds, the number itself where
/// the type holds it already, and the same bit pattern in any case.
pub proof fn lemma_wrap(typ: ValueType, x: int)
    ensures
        typ.holds(typ.wrap(x)),
        typ.holds(x) ==> typ.wrap(x) == x,
        typ.wrap(x) % typ.modulus() == x % typ.modulus(),
{
    if typ.size() == 1 {
        assert(typ.modulus() == 0x100);
        assert(typ.wrap(x) % 0x100 == x % 0x100);
    } else if typ.size() == 2 {
        assert(typ.modulus() == 0x1_0000);
        assert(typ.wrap(x) % 0x1_0000 == x % 0x1_0000);
    } else if typ.size() == 4 {
        assert(typ.modulus() == 0x1_0000_0000);
        assert(typ.wrap(x) % 0x1_0000_0000 == x % 0x1_0000_0000);
    } else {
        assert(typ.modulus() == 0x1_0000_0000_0000_0000);
        assert(typ.wrap(x) % 0x1_0000_0000_0000_0000 == x % 0x1_0000_0000_0000_0000);
    }
}

/// Whether `typ` is one of the eight integer types.
pub fn is_integer_type(typ: ValueType) -> (integer: bool)
    ensures
        integer == typ.is_integer(),
{
    match typ {
        ValueType::U8
        | ValueType::I8
        | ValueType::U16
        | ValueType::I16
        | ValueType::U32
        | ValueType::I32
        | ValueType::U64
        | ValueType::I64 => true,
        _ => false,
    }
}

/// Whether `typ` is one of the four heap-handle types.
pub fn is_reference_type(typ: ValueType) -> (reference: bool)
    ensures
        reference == typ.is_reference(),
{
    match typ {
        ValueType::MemoryRef | ValueType::ObjectRef | ValueType::StringRef | ValueType::ArrayRef => true,
        _ => false,
    }
}

} // verus!
