//! Stack frames and the continuations that refer to them.

use crate::instruction::Instruction;
use crate::machine::outcome;
use crate::machine::Fault;
use crate::machine::FaultView;
use crate::machine::Register;
use crate::program::function::FunctionPath;
use crate::stack_frame::delimited_continuation::ContinuationStore;
use crate::stack_frame::delimited_continuation::DelimitedContinuation;
use crate::stack_frame::frame::frame_step;
use crate::stack_frame::frame::register_values;
use crate::stack_frame::frame::restored_registers;
use crate::stack_frame::frame::Frame;
use crate::stack_frame::frame::FrameView;
use crate::value::Value;
use crate::value::ValueType;
use std::sync::Arc;
use vstd::prelude::*;

pub mod delimited_continuation;
pub mod frame;

verus! {

/// How many registers the machine has. The first eight carry arguments and
/// results and are not saved across calls; a call restores the others.
pub const REGISTER_COUNT: usize = 32;

/// The first register that a call restores on return.
pub const FIRST_SAVED_REGISTER: usize = 8;

/// Where a frame goes on when its callee returns.
#[derive(Debug)]
pub struct ReturnAddress {
    pub program_counter: usize,
    pub function_name: FunctionPath,
}

impl Clone for ReturnAddress {
    fn clone(&self) -> (copy: ReturnAddress)
        ensures
            copy.program_counter == self.program_counter,
            copy.function_name@ == self.function_name@,
    {
        ReturnAddress {
            program_counter: self.program_counter,
            function_name: self.function_name.clone(),
        }
    }
}

/// A frame of the parent chain: a plain frame, which the chain owns, or a
/// continuation, whose frame the continuation store owns.
#[derive(Debug)]
pub enum ActiveFrame {
    Plain(Frame),
    Continuation(DelimitedContinuation),
}

/// What a frame of the parent chain is, as plain values.
pub enum ActiveFrameView {
    Plain(FrameView),
    Continuation(DelimitedContinuation),
}

impl View for ActiveFrame {
    type V = ActiveFrameView;

    open spec fn view(&self) -> ActiveFrameView {
        match *self {
            ActiveFrame::Plain(frame) => ActiveFrameView::Plain(frame@),
            ActiveFrame::Continuation(continuation) => ActiveFrameView::Continuation(continuation),
        }
    }
}

/// What a parent chain is, as plain values: the most recent parent last.
pub open spec fn chain_view(frames: Seq<ActiveFrame>) -> Seq<ActiveFrameView> {
    frames.map_values(|frame: ActiveFrame| frame@)
}

/// What the shared frames of a continuation store are, as plain values.
pub open spec fn shared_view(frames: Seq<Frame>) -> Seq<FrameView> {
    frames.map_values(|frame: Frame| frame@)
}

impl ActiveFrame {
    /// Whether the frame is a continuation.
    pub fn is_continuation(&self) -> (continuation: bool)
        ensures
            continuation == (*self is Continuation),
    {
        match self {
            ActiveFrame::Plain(_) => false,
            ActiveFrame::Continuation(_) => true,
        }
    }
}

/// What every stack frame offers: an operand stack of bytes, a snapshot of
/// the registers, the function it runs, and a program counter.
pub trait StackFrame {
    /// What the frame is, as plain values.
    spec fn frame(&self) -> FrameView;

    /// Pushes a value onto the stack.
    fn push(&mut self, value: Value) -> (result: Result<(), Fault>)
        ensures
            frame_step(
                old(self).frame(),
                final(self).frame(),
                result,
                old(self).frame().pushed(value),
            ),
    ;

    /// Pops a value of type `size` from the stack.
    fn pop(&mut self, size: ValueType) -> (result: Result<Value, Fault>)
        ensures
            match old(self).frame().popped(size) {
                Ok((frame, value)) => result == Ok::<Value, Fault>(value) && final(self).frame()
                    == frame,
                Err(fault) => {
                    &&& outcome(result) == Err::<Value, FaultView>(fault)
                    &&& final(self).frame() == old(self).frame()
                },
            },
    ;

    /// Reads a value of type `size` at a byte offset from the bottom of the
    /// stack.
    fn get_value(&self, offset: Value, size: ValueType) -> (result: Result<Value, Fault>)
        ensures
            outcome(result) == self.frame().value_at(offset, size),
    ;

    /// Writes a value so many bytes below the stack pointer as `offset` holds.
    fn set_value(&mut self, offset: Value, value: Value) -> (result: Result<(), Fault>)
        ensures
            frame_step(
                old(self).frame(),
                final(self).frame(),
                result,
                old(self).frame().stored(offset, value),
            ),
    ;

    /// Saves the registers as they are when the frame is entered.
    fn backup_registers(&mut self, registers: &[Register; REGISTER_COUNT])
        ensures
            final(self).frame() == (FrameView {
                call_backup: Some(register_values(registers@)),
                ..old(self).frame()
            }),
    ;

    /// Gives the registers from the eighth on the values saved on entry.
    fn restore_registers(&self, registers: &mut [Register; REGISTER_COUNT])
        ensures
            register_values(final(registers)@) == restored_registers(
                register_values(old(registers)@),
                self.frame().call_backup,
            ),
    ;

    /// Saves all registers for a scan of the heap.
    fn backup_registers_for_gc(&mut self, registers: &[Register; REGISTER_COUNT])
        ensures
            final(self).frame() == (FrameView {
                gc_backup: Some(register_values(registers@)),
                ..old(self).frame()
            }),
    ;

    /// Gives all registers the values saved for a scan of the heap.
    fn restore_registers_for_gc(&self, registers: &mut [Register; REGISTER_COUNT])
        ensures
            register_values(final(registers)@) == match self.frame().gc_backup {
                Some(backup) => backup,
                None => register_values(old(registers)@),
            },
    ;

    /// The path of the function that the frame runs.
    fn get_function_name(&self) -> (name: FunctionPath)
        ensures
            name@ == self.frame().function_name,
    ;

    /// Gives the frame another function's path.
    fn set_function_name(&mut self, name: FunctionPath)
        ensures
            final(self).frame() == (FrameView { function_name: name@, ..old(self).frame() }),
    ;

    /// The instruction at the program counter, where there is one.
    fn get_instruction(&self) -> (instruction: Option<&Instruction>)
        ensures
            match instruction {
                Some(found) => self.frame().instruction() == Some(*found),
                None => self.frame().instruction() is None,
            },
    ;

    /// The frame's instruction sequence, shared, not copied.
    fn get_instructions(&self) -> (instructions: Arc<Vec<Instruction>>)
        ensures
            instructions@ == self.frame().instructions,
    ;

    /// Moves the program counter to the next instruction.
    fn increment_program_counter(&mut self)
        requires
            old(self).frame().program_counter < usize::MAX,
        ensures
            final(self).frame() == old(self).frame().at(
                (old(self).frame().program_counter + 1) as usize,
            ),
    ;

    /// Moves the program counter back to the first instruction.
    fn reset_program_counter(&mut self)
        ensures
            final(self).frame() == old(self).frame().at(0),
    ;

    fn get_program_counter(&self) -> (program_counter: usize)
        ensures
            program_counter == self.frame().program_counter,
    ;

    fn set_program_counter(&mut self, program_counter: usize)
        ensures
            final(self).frame() == old(self).frame().at(program_counter),
    ;

    /// A handle on a copy of this frame as it is, which the store shares
    /// from now on, with the frame's program counter as its start.
    fn make_continuation(&self, store: &mut ContinuationStore) -> (continuation:
        DelimitedContinuation)
        ensures
            continuation.frame_slot() == old(store).frames@.len(),
            continuation.start() == self.frame().program_counter,
            final(store).continuations@ == old(store).continuations@,
            shared_view(final(store).frames@) == shared_view(old(store).frames@).push(
                self.frame(),
            ),
    ;

    /// Whether the frame is a continuation.
    fn is_continuation(&self) -> bool;
}

impl StackFrame for Frame {
    open spec fn frame(&self) -> FrameView {
        self@
    }

    fn push(&mut self, value: Value) -> (result: Result<(), Fault>) {
        Frame::push(self, value)
    }

    fn pop(&mut self, size: ValueType) -> (result: Result<Value, Fault>) {
        Frame::pop(self, size)
    }

    fn get_value(&self, offset: Value, size: ValueType) -> (result: Result<Value, Fault>) {
        Frame::get_value(self, offset, size)
    }

    fn set_value(&mut self, offset: Value, value: Value) -> (result: Result<(), Fault>) {
        Frame::set_value(self, offset, value)
    }

    fn backup_registers(&mut self, registers: &[Register; REGISTER_COUNT]) {
        Frame::backup_registers(self, registers)
    }

    fn restore_registers(&self, registers: &mut [Register; REGISTER_COUNT]) {
        Frame::restore_registers(self, registers)
    }

    fn backup_registers_for_gc(&mut self, registers: &[Register; REGISTER_COUNT]) {
        Frame::backup_registers_for_gc(self, registers)
    }

    fn restore_registers_for_gc(&self, registers: &mut [Register; REGISTER_COUNT]) {
        Frame::restore_registers_for_gc(self, registers)
    }

    fn get_function_name(&self) -> (name: FunctionPath) {
        Frame::get_function_name(self)
    }

    fn set_function_name(&mut self, name: FunctionPath) {
        Frame::set_function_name(self, name)
    }

    fn get_instruction(&self) -> (instruction: Option<&Instruction>) {
        Frame::get_instruction(self)
    }

    fn get_instructions(&self) -> (instructions: Arc<Vec<Instruction>>) {
        Frame::get_instructions(self)
    }

    fn increment_program_counter(&mut self) {
        Frame::increment_program_counter(self)
    }

    fn reset_program_counter(&mut self) {
        Frame::reset_program_counter(self)
    }

    fn get_program_counter(&self) -> (program_counter: usize) {
        Frame::get_program_counter(self)
    }

    fn set_program_counter(&mut self, program_counter: usize) {
        Frame::set_program_counter(self, program_counter)
    }

    fn make_continuation(&self, store: &mut ContinuationStore) -> (continuation:
        DelimitedContinuation) {
        Frame::make_continuation(self, store)
    }

    /// A plain frame is no continuation.
    fn is_continuation(&self) -> (continuation: bool)
        ensures
            !continuation,
    {
        false
    }
}

} // verus!
