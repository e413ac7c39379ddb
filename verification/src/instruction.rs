//! The instruction set: operands, conditions and opcodes.

use crate::program::function::FunctionPath;
use crate::program::StringTablePath;
use crate::value::Value;
use crate::value::ValueType;
use vstd::prelude::*;

verus! {

/// The type that a register acts as when an instruction reads or writes it.
#[derive(Debug, Clone, Copy, PartialEq, Eq, Structural)]
pub enum RegisterType {
    U8,
    U16,
    U32,
    U64,
    I8,
    I16,
    I32,
    I64,
    F32,
    F64,
    Reference,
}

impl RegisterType {
    /// The value type that the register type stands for.
    pub open spec fn value_type(self) -> ValueType {
        match self {
            RegisterType::U8 => ValueType::U8,
            RegisterType::U16 => ValueType::U16,
            RegisterType::U32 => ValueType::U32,
            RegisterType::U64 => ValueType::U64,
            RegisterType::I8 => ValueType::I8,
            RegisterType::I16 => ValueType::I16,
            RegisterType::I32 => ValueType::I32,
            RegisterType::I64 => ValueType::I64,
            RegisterType::F32 => ValueType::F32,
            RegisterType::F64 => ValueType::F64,
            RegisterType::Reference => ValueType::MemoryRef,
        }
    }

    /// The value type that the register type stands for.
    pub fn to_value_type(self) -> (typ: ValueType)
        ensures
            typ == self.value_type(),
    {
        match self {
            RegisterType::U8 => ValueType::U8,
            RegisterType::U16 => ValueType::U16,
            RegisterType::U32 => ValueType::U32,
            RegisterType::U64 => ValueType::U64,
            RegisterType::I8 => ValueType::I8,
            RegisterType::I16 => ValueType::I16,
            RegisterType::I32 => ValueType::I32,
            RegisterType::I64 => ValueType::I64,
            RegisterType::F32 => ValueType::F32,
            RegisterType::F64 => ValueType::F64,
            RegisterType::Reference => ValueType::MemoryRef,
        }
    }
}

impl From<RegisterType> for ValueType {
    fn from(register_type: RegisterType) -> (typ: ValueType) {
        register_type.to_value_type()
    }
}

impl vstd::std_specs::convert::FromSpecImpl<RegisterType> for ValueType {
    open spec fn obeys_from_spec() -> bool {
        true
    }

    open spec fn from_spec(register_type: RegisterType) -> ValueType {
        register_type.value_type()
    }
}

/// A register to write: its index, and the type that decides the width of
/// the result.
#[derive(Debug, Clone, Copy, PartialEq, Eq, Structural)]
pub struct Target(pub usize, pub RegisterType);

impl Target {
    pub fn get_type(&self) -> (typ: RegisterType)
        ensures
            typ == self.1,
    {
        self.1
    }
}

/// A typed constant. `F32` and `F64` hold the IEEE-754 bit pattern of their
/// number.
#[derive(Debug, Clone, Copy, PartialEq, Eq, Structural)]
pub enum Immediate {
    U8(u8),
    U16(u16),
    U32(u32),
    U64(u64),
    I8(i8),
    I16(i16),
    I32(i32),
    I64(i64),
    F32(u32),
    F64(u64),
}

impl Immediate {
    /// The value that the constant stands for.
    pub open spec fn value(self) -> Value {
        match self {
            Immediate::U8(value) => Value::U8(value),
            Immediate::U16(value) => Value::U16(value),
            Immediate::U32(value) => Value::U32(value),
            Immediate::U64(value) => Value::U64(value),
            Immediate::I8(value) => Value::I8(value),
            Immediate::I16(value) => Value::I16(value),
            Immediate::I32(value) => Value::I32(value),
            Immediate::I64(value) => Value::I64(value),
            Immediate::F32(value) => Value::F32(value),
            Immediate::F64(value) => Value::F64(value),
        }
    }

    /// The value that the constant stands for.
    pub fn to_value(self) -> (value: Value)
        ensures
            value == self.value(),
    {
        match self {
            Immediate::U8(value) => Value::U8(value),
            Immediate::U16(value) => Value::U16(value),
            Immediate::U32(value) => Value::U32(value),
            Immediate::U64(value) => Value::U64(value),
            Immediate::I8(value) => Value::I8(value),
            Immediate::I16(value) => Value::I16(value),
            Immediate::I32(value) => Value::I32(value),
            Immediate::I64(value) => Value::I64(value),
            Immediate::F32(value) => Value::F32(value),
            Immediate::F64(value) => Value::F64(value),
        }
    }
}

impl From<Immediate> for Value {
    fn from(immediate: Immediate) -> (value: Value) {
        immediate.to_value()
    }
}

impl vstd::std_specs::convert::FromSpecImpl<Immediate> for Value {
    open spec fn obeys_from_spec() -> bool {
        true
    }

    open spec fn from_spec(immediate: Immediate) -> Value {
        immediate.value()
    }
}

/// Where an instruction takes a value from.
#[derive(Debug, Clone, Copy, PartialEq, Eq, Structural)]
pub enum Source {
    /// A register, by its index, read as the given type.
    Register(usize, RegisterType),
    /// A typed constant.
    Immediate(Immediate),
}

/// Where a jump goes.
#[derive(Debug, Clone)]
pub enum JumpTarget {
    /// So many instructions away from the jump itself; negative is backward.
    Relative(isize),
    /// The instruction at this index.
    Absolute(usize),
    /// A named place. No pass resolves labels, so a jump to one is refused.
    Label(String),
}

/// When a jump, a call or a return is taken.
#[derive(Debug, Clone, Copy, PartialEq, Eq, Structural)]
pub enum Condition {
    Always,
    Equal,
    NotEqual,
    GreaterThan,
    GreaterThanOrEqual,
    LessThan,
    LessThanOrEqual,
    Zero,
    NotZero,
    Carry,
    NotCarry,
    Negative,
    NotNegative,
    /// The live frame is a continuation.
    InContinuation,
    /// The live frame is not a continuation.
    NotInContinuation,
}

/// The relation that a compare instruction tests.
#[derive(Debug, Clone, Copy, PartialEq, Eq, Structural)]
pub enum ComparisonType {
    Equal,
    NotEqual,
    GreaterThan,
    GreaterThanOrEqual,
    LessThan,
    LessThanOrEqual,
}

/// What a call instruction calls.
#[derive(Debug, Clone)]
pub enum CallTarget {
    /// The function at this path.
    Label(FunctionPath),
    /// A method of an object, by its index. Reserved.
    Vtable(Source, Source),
    /// The stored continuation whose index the source holds.
    Continuation(Source),
    /// A closure. Reserved.
    Closure(Source),
}

/// One instruction.
#[derive(Debug, Clone)]
pub enum Instruction {
    /// Stops the program.
    Halt,
    /// Does nothing.
    NoOp,
    /// Copies the source into the target.
    Load(Target, Source),
    /// Stores a value through a heap reference at an offset. Reserved.
    Store(Source, Source, Source),
    /// Reads the target's type from a frame's stack: the frame by its level,
    /// the place by its byte offset.
    StackDeref(Target, Source, Source),
    /// Writes a value into a frame's stack: the frame by its level, the place
    /// by its byte offset, then the value.
    StackStore(Source, Source, Source),
    /// Adds the source to the target. The first flag allows wrapping, the
    /// second adds the carry flag in.
    Add(Target, Source, bool, bool),
    /// Subtracts the source from the target. The first flag allows wrapping,
    /// the second subtracts the carry flag too.
    Sub(Target, Source, bool, bool),
    /// Multiplies the target by the source. The flag allows wrapping.
    Mul(Target, Source, bool),
    /// Divides the target by the source. The flag allows wrapping.
    Div(Target, Source, bool),
    /// Leaves in the target the remainder of its division by the source. The
    /// flag allows wrapping.
    Mod(Target, Source, bool),
    And(Target, Source),
    Or(Target, Source),
    Xor(Target, Source),
    Not(Target),
    ShiftLeft(Target, Source),
    /// Arithmetic for a signed type, logical for an unsigned one.
    ShiftRight(Target, Source),
    /// Jumps where the condition holds.
    Goto(JumpTarget, Condition),
    /// Compares the target with the source and records the relation found.
    Compare(Target, Source, ComparisonType),
    /// Pushes the source onto the live frame's stack.
    Push(Source),
    /// Pops a value of the target's type from the live frame's stack.
    Pop(Target),
    /// Calls where the condition holds.
    Call(CallTarget, Condition),
    /// Returns where the condition holds.
    Return(Condition),
    /// Stores a continuation of the live frame and writes its index into the
    /// target.
    CreateContinuation(Target),
    /// Creates an object. Reserved.
    CreateObject(Target),
    /// Writes into the target the handle of a module's string, by the module's
    /// path and the string's index.
    GetStringRef(Target, StringTablePath, u64),
    /// Allocates a list of as many elements as the source says.
    CreateList(Target, Source),
    /// Writes the length of a list into the target.
    ListLength(Target, Source),
    /// Reads an element of a list: the list, then the index.
    ListAccess(Target, Source, Source),
    /// Writes an element of a list: the list, the index, then the value.
    ListStore(Source, Source, Source),
}

} // verus!
