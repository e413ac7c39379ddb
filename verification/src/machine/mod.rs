//! Faults, registers and the results that drive the engine.

use crate::program::function::Function;
use crate::program::function::FunctionPath;
use crate::stack_frame::delimited_continuation::DelimitedContinuation;
use crate::stack_frame::frame::Frame;
use crate::value::Value;
use crate::value::ValueType;
use vstd::prelude::*;

pub mod driver;
pub mod processor;
pub mod stepping;

verus! {

/// What the execution of one instruction asks of the driver.
#[derive(Debug)]
pub enum InstructionResult {
    /// Stop the program.
    Stop,
    /// Go on with the next instruction.
    Continue,
    /// Leave the live frame.
    Return,
    /// Unwind with the named effect.
    Unwind(String),
    /// Enter the given frame, made for the given function.
    Call(Function, Frame),
    /// Enter the frame of the given continuation.
    CallContinuation(DelimitedContinuation),
}

/// What ends a program abnormally. The engine catches none of these.
#[derive(Debug)]
pub enum Fault {
    DivisionByZero,
    StackOverflow,
    Overflow,
    Underflow,
    InvalidInstruction,
    InvalidRegister,
    InvalidJump,
    FunctionNotFound(FunctionPath),
    ContinuationNotFound(u64),
    InvalidString,
    InvalidOperation(String),
    MemoryError(String),
    InvalidStackLevel,
    InvalidStackOffset,
    StackFrameOutOfBounds,
    InvalidStackIndex,
    StackOutOfBounds,
    NullPointerReference,
    InvalidReference,
    IndexOutOfBounds,
}

/// What a fault is, as plain values: its kind, and with a missing function or
/// continuation what was looked for. The detail of an invalid operation or of
/// a memory error is left out.
pub enum FaultView {
    DivisionByZero,
    StackOverflow,
    Overflow,
    Underflow,
    InvalidInstruction,
    InvalidRegister,
    InvalidJump,
    FunctionNotFound(Seq<Seq<char>>),
    ContinuationNotFound(u64),
    InvalidString,
    InvalidOperation,
    MemoryError,
    InvalidStackLevel,
    InvalidStackOffset,
    StackFrameOutOfBounds,
    InvalidStackIndex,
    StackOutOfBounds,
    NullPointerReference,
    InvalidReference,
    IndexOutOfBounds,
}

impl View for Fault {
    type V = FaultView;

    open spec fn view(&self) -> FaultView {
        match *self {
            Fault::DivisionByZero => FaultView::DivisionByZero,
            Fault::StackOverflow => FaultView::StackOverflow,
            Fault::Overflow => FaultView::Overflow,
            Fault::Underflow => FaultView::Underflow,
            Fault::InvalidInstruction => FaultView::InvalidInstruction,
            Fault::InvalidRegister => FaultView::InvalidRegister,
            Fault::InvalidJump => FaultView::InvalidJump,
            Fault::FunctionNotFound(path) => FaultView::FunctionNotFound(path@),
            Fault::ContinuationNotFound(index) => FaultView::ContinuationNotFound(index),
            Fault::InvalidString => FaultView::InvalidString,
            Fault::InvalidOperation(_) => FaultView::InvalidOperation,
            Fault::MemoryError(_) => FaultView::MemoryError,
            Fault::InvalidStackLevel => FaultView::InvalidStackLevel,
            Fault::InvalidStackOffset => FaultView::InvalidStackOffset,
            Fault::StackFrameOutOfBounds => FaultView::StackFrameOutOfBounds,
            Fault::InvalidStackIndex => FaultView::InvalidStackIndex,
            Fault::StackOutOfBounds => FaultView::StackOutOfBounds,
            Fault::NullPointerReference => FaultView::NullPointerReference,
            Fault::InvalidReference => FaultView::InvalidReference,
            Fault::IndexOutOfBounds => FaultView::IndexOutOfBounds,
        }
    }
}

/// What a result is, as plain values: its fault by its view.
pub open spec fn outcome<T>(result: Result<T, Fault>) -> Result<T, FaultView> {
    match result {
        Ok(value) => Ok(value),
        Err(fault) => Err(fault@),
    }
}

/// One register: it holds exactly one value.
#[derive(Debug, Clone, Copy)]
pub struct Register {
    pub value: Value,
}

impl Register {
    /// The held value, retagged as `size`; nothing where that retagging is
    /// not defined.
    pub fn get_value(&self, size: ValueType) -> (value: Option<Value>)
        ensures
            value is Some <==> Value::can_transmute(self.value.tag(), size),
            value matches Some(v) ==> v == Value::wrapped(size, self.value.as_int()) && v.tag()
                == size,
    {
        if self.value.can_transmute_to(size) {
            Some(self.value.transmute(size))
        } else {
            None
        }
    }

    /// Replaces the held value wholesale.
    pub fn set_value(&mut self, value: Value)
        ensures
            final(self).value == value,
    {
        self.value = value;
    }
}

impl Default for Register {
    fn default() -> (register: Register)
        ensures
            register.value == Value::U64(0),
    {
        Register { value: Value::U64(0) }
    }
}

} // verus!
