//! The frame of one function invocation: its operand stack, its program
//! counter and the registers it saved on entry.

use crate::instruction::Instruction;
use crate::machine::outcome;
use crate::machine::Fault;
use crate::machine::FaultView;
use crate::machine::Register;
use crate::program::function::share_instructions;
use crate::program::function::FunctionPath;
use crate::stack_frame::delimited_continuation::ContinuationStore;
use crate::stack_frame::delimited_continuation::DelimitedContinuation;
use crate::stack_frame::shared_view;
use crate::stack_frame::ReturnAddress;
use crate::stack_frame::FIRST_SAVED_REGISTER;
use crate::stack_frame::REGISTER_COUNT;
use crate::value::Value;
use crate::value::ValueType;
use smallvec::SmallVec;
use std::sync::Arc;
use vstd::prelude::*;

verus! {

/// The backing store of a frame's stack: a `smallvec::SmallVec` of bytes that
/// keeps up to 128 of them inline. What it holds is known through
/// `stack_bytes` alone.
#[verifier::external_body]
#[derive(Debug)]
pub struct ByteStack {
    bytes: SmallVec<[u8; 128]>,
}

/// The bytes that a backing store holds, in order.
pub uninterp spec fn stack_bytes(stack: ByteStack) -> Seq<u8>;

/// The most bytes that a backing store is ever asked to hold.
pub const MAX_STACK_BYTES: usize = 0x4000_0000;

/// The greatest stack pointer: eight bytes, the widest value, still fit above it.
pub const MAX_STACK_POINTER: usize = 0x3fff_fff8;

/// An empty backing store.
///
/// Calls `SmallVec::new`, which builds a vector of length zero.
#[verifier::external_body]
fn stack_new() -> (stack: ByteStack)
    ensures
        stack_bytes(stack) == Seq::<u8>::empty(),
{
    ByteStack { bytes: SmallVec::new() }
}

/// How many bytes the backing store holds.
///
/// Calls `SmallVec::len`, which reads the length and cannot panic.
#[verifier::external_body]
fn stack_len(stack: &ByteStack) -> (len: usize)
    ensures
        len == stack_bytes(*stack).len(),
    no_unwind
{
    stack.bytes.len()
}

/// Makes the backing store `len` bytes long.
///
/// Calls `SmallVec::resize`, which truncates a longer vector and appends
/// copies of `value` to a shorter one; the bytes that stay keep their place.
/// It panics only where the capacity that it computes, the next power of two,
/// is more than it can allocate, which the bound on `len` rules out.
#[verifier::external_body]
fn stack_resize(stack: &mut ByteStack, len: usize, value: u8)
    requires
        len <= MAX_STACK_BYTES,
    ensures
        stack_bytes(*final(stack)).len() == len,
        forall|i: int|
            0 <= i < len && i < stack_bytes(*old(stack)).len() ==> #[trigger] stack_bytes(
                *final(stack),
            )[i] == stack_bytes(*old(stack))[i],
        forall|i: int|
            stack_bytes(*old(stack)).len() <= i < len ==> #[trigger] stack_bytes(*final(stack))[i]
                == value,
    no_unwind
{
    stack.bytes.resize(len, value)
}

/// The byte at `index`.
///
/// Indexes the `SmallVec` as a slice, which gives the element at the
/// index; the index is within its length.
#[verifier::external_body]
fn stack_get(stack: &ByteStack, index: usize) -> (byte: u8)
    requires
        index < stack_bytes(*stack).len(),
    ensures
        byte == stack_bytes(*stack)[index as int],
{
    stack.bytes[index]
}

/// Replaces the byte at `index`.
///
/// Assigns through the `SmallVec`'s mutable index, which is that of its
/// slice: the index is within its length, so that it does not panic, and no
/// other byte changes.
#[verifier::external_body]
fn stack_set(stack: &mut ByteStack, index: usize, byte: u8)
    requires
        index < stack_bytes(*old(stack)).len(),
    ensures
        stack_bytes(*final(stack)) == stack_bytes(*old(stack)).update(index as int, byte),
    no_unwind
{
    stack.bytes[index] = byte;
}

/// A backing store with the same bytes.
///
/// Calls `SmallVec::clone`, which builds a vector from the slice of this one.
#[verifier::external_body]
fn stack_clone(stack: &ByteStack) -> (copy: ByteStack)
    ensures
        stack_bytes(copy) == stack_bytes(*stack),
{
    ByteStack { bytes: stack.bytes.clone() }
}

/// `stack` with `bytes` written from `position` on. Where the bytes reach
/// past the end, the stack grows, and zeros fill what lies between.
pub open spec fn write_at(stack: Seq<u8>, position: int, bytes: Seq<u8>) -> Seq<u8> {
    Seq::new(
        if stack.len() >= position + bytes.len() {
            stack.len()
        } else {
            (position + bytes.len()) as nat
        },
        |i: int|
            if position <= i < position + bytes.len() {
                bytes[i - position]
            } else if i < stack.len() {
                stack[i]
            } else {
                0u8
            },
    )
}

/// What a frame is, as plain values.
pub struct FrameView {
    /// The path of the function that the frame runs.
    pub function_name: Seq<Seq<char>>,
    /// The instructions of that function.
    pub instructions: Seq<Instruction>,
    /// The index of the instruction that runs next.
    pub program_counter: usize,
    /// The bytes of the stack's backing store.
    pub stack: Seq<u8>,
    /// Where the next push writes: the bytes below belong to the stack.
    pub stack_pointer: usize,
    /// The registers saved when the frame was entered.
    pub call_backup: Option<Seq<Value>>,
    /// The registers saved for a scan of the heap.
    pub gc_backup: Option<Seq<Value>>,
    /// Where the frame goes on after a call: the program counter and the
    /// function's path.
    pub return_address: Option<(usize, Seq<Seq<char>>)>,
}

impl FrameView {
    /// The frame after a push: the little-endian bytes of the value lie in
    /// the stack from the stack pointer on, and the stack pointer has moved
    /// up by the width of the value's type. A push that would move it past
    /// `MAX_STACK_POINTER` is a stack overflow.
    pub open spec fn pushed(self, value: Value) -> Result<FrameView, FaultView> {
        if self.stack_pointer + value.tag().size() > MAX_STACK_POINTER {
            Err(FaultView::StackOverflow)
        } else {
            Ok(
                FrameView {
                    stack: write_at(self.stack, self.stack_pointer as int, value.bytes()),
                    stack_pointer: (self.stack_pointer + value.tag().size()) as usize,
                    ..self
                },
            )
        }
    }

    /// The frame after a pop of a value of type `typ`, and the value: the
    /// stack pointer has moved down by the width of the type, and the bytes
    /// that it passed are read as little-endian. A pop of more bytes than lie
    /// below the stack pointer is out of bounds.
    pub open spec fn popped(self, typ: ValueType) -> Result<(FrameView, Value), FaultView> {
        if self.stack_pointer < typ.size() {
            Err(FaultView::StackOutOfBounds)
        } else {
            Ok(
                (
                    FrameView {
                        stack_pointer: (self.stack_pointer - typ.size()) as usize,
                        ..self
                    },
                    Value::of_bytes(
                        typ,
                        self.stack.subrange(
                            self.stack_pointer - typ.size(),
                            self.stack_pointer as int,
                        ),
                    ),
                ),
            )
        }
    }

    /// The value of type `typ` at the byte offset that `offset` holds,
    /// counted from the bottom of the stack. An offset that is no index is
    /// invalid; a read that reaches past the stack pointer is out of bounds.
    pub open spec fn value_at(self, offset: Value, typ: ValueType) -> Result<Value, FaultView> {
        match offset.as_index() {
            None => Err(FaultView::InvalidStackOffset),
            Some(at) => if at + typ.size() > self.stack_pointer {
                Err(FaultView::StackOutOfBounds)
            } else {
                Ok(Value::of_bytes(typ, self.stack.subrange(at as int, at + typ.size())))
            },
        }
    }

    /// The frame after `value` was written so many bytes below the stack
    /// pointer as `offset` holds. The bytes may reach past the stack pointer,
    /// which does not move. An offset that is no index is invalid; one that
    /// is not less than the stack pointer is out of bounds.
    pub open spec fn stored(self, offset: Value, value: Value) -> Result<FrameView, FaultView> {
        match offset.as_index() {
            None => Err(FaultView::InvalidStackOffset),
            Some(below) => if below >= self.stack_pointer {
                Err(FaultView::StackOutOfBounds)
            } else {
                Ok(
                    FrameView {
                        stack: write_at(self.stack, self.stack_pointer - below, value.bytes()),
                        ..self
                    },
                )
            },
        }
    }

    /// The frame with its program counter at `program_counter`.
    pub open spec fn at(self, program_counter: usize) -> FrameView {
        FrameView { program_counter, ..self }
    }

    /// The instruction at the program counter, where there is one.
    pub open spec fn instruction(self) -> Option<Instruction> {
        if self.program_counter < self.instructions.len() {
            Some(self.instructions[self.program_counter as int])
        } else {
            None
        }
    }
}

/// A value that is pushed and then popped as a type of the same width comes
/// back with the bytes that it had, and the stack pointer is where it was.
pub proof fn lemma_push_then_pop(frame: FrameView, value: Value, typ: ValueType)
    requires
        typ.size() == value.tag().size(),
        frame.pushed(value) is Ok,
    ensures
        frame.pushed(value)->Ok_0.popped(typ) matches Ok((after, popped)) && popped.bytes()
            == value.bytes() && popped.tag() == typ && after.stack_pointer == frame.stack_pointer,
{
    let pushed = frame.pushed(value)->Ok_0;
    let bytes = value.bytes();
    crate::bytes::lemma_le_bytes_len(value.raw(), value.tag().size());
    let read = pushed.stack.subrange(
        pushed.stack_pointer - typ.size(),
        pushed.stack_pointer as int,
    );
    assert(read =~= bytes);
    crate::value::lemma_of_bytes_has_bytes(typ, bytes);
}

/// What a step of a frame that has no result of its own came to: on
/// success the frame is as `expected` says, on a fault the fault is the
/// expected one and the frame is as it was.
pub open spec fn frame_step(
    before: FrameView,
    after: FrameView,
    result: Result<(), Fault>,
    expected: Result<FrameView, FaultView>,
) -> bool {
    match expected {
        Ok(frame) => result is Ok && after == frame,
        Err(fault) => outcome(result) == Err::<(), FaultView>(fault) && after == before,
    }
}

/// What identifies the code that a frame runs and where it is in it.
#[derive(Debug)]
pub struct FrameInfo {
    function_name: FunctionPath,
    instructions: Arc<Vec<Instruction>>,
    program_counter: usize,
}

/// The frame of one function invocation.
#[derive(Debug)]
pub struct Frame {
    frame_info: FrameInfo,
    return_address: Option<ReturnAddress>,
    stack: ByteStack,
    stack_pointer: usize,
    call_backup: Option<[Register; REGISTER_COUNT]>,
    gc_backup: Option<[Register; REGISTER_COUNT]>,
}

impl View for Frame {
    type V = FrameView;

    closed spec fn view(&self) -> FrameView {
        FrameView {
            function_name: self.frame_info.function_name@,
            instructions: self.frame_info.instructions@,
            program_counter: self.frame_info.program_counter,
            stack: stack_bytes(self.stack),
            stack_pointer: self.stack_pointer,
            call_backup: match self.call_backup {
                Some(registers) => Some(register_values(registers@)),
                None => None,
            },
            gc_backup: match self.gc_backup {
                Some(registers) => Some(register_values(registers@)),
                None => None,
            },
            return_address: match self.return_address {
                Some(address) => Some((address.program_counter, address.function_name@)),
                None => None,
            },
        }
    }
}

impl Frame {
    #[verifier::type_invariant]
    spec fn well_formed(&self) -> bool {
        &&& self.stack_pointer <= MAX_STACK_POINTER
        &&& self.stack_pointer <= stack_bytes(self.stack).len() <= MAX_STACK_BYTES
    }

    /// A fresh frame for the given function: at its first instruction, with
    /// an empty stack and nothing saved.
    pub fn new(function_name: FunctionPath, instructions: Arc<Vec<Instruction>>) -> (frame: Frame)
        ensures
            frame@ == (FrameView {
                function_name: function_name@,
                instructions: instructions@,
                program_counter: 0,
                stack: Seq::empty(),
                stack_pointer: 0,
                call_backup: None,
                gc_backup: None,
                return_address: None,
            }),
    {
        Frame {
            frame_info: FrameInfo { function_name, instructions, program_counter: 0 },
            return_address: None,
            stack: stack_new(),
            stack_pointer: 0,
            call_backup: None,
            gc_backup: None,
        }
    }

    /// Writes `bytes` into the backing store from `position` on, growing it
    /// with zeros where they reach past its end.
    fn write_bytes(stack: &mut ByteStack, position: usize, bytes: &Vec<u8>)
        requires
            position + bytes@.len() <= MAX_STACK_BYTES,
            stack_bytes(*old(stack)).len() <= MAX_STACK_BYTES,
        ensures
            stack_bytes(*final(stack)) == write_at(stack_bytes(*old(stack)), position as int, bytes@),
        no_unwind
    {
        let end = position + bytes.len();
        if end > stack_len(stack) {
            stack_resize(stack, end, 0);
        }
        let ghost grown = stack_bytes(*stack);
        let mut i: usize = 0;
        while i < bytes.len()
            invariant
                i <= bytes@.len(),
                end == position + bytes@.len(),
                stack_bytes(*stack).len() == grown.len(),
                grown.len() >= end,
                forall|j: int|
                    0 <= j < grown.len() ==> #[trigger] stack_bytes(*stack)[j] == if position <= j
                        < position + i {
                        bytes@[j - position]
                    } else {
                        grown[j]
                    },
            decreases bytes@.len() - i,
        {
            stack_set(stack, position + i, bytes[i]);
            i += 1;
        }
        assert(stack_bytes(*stack) =~= write_at(stack_bytes(*old(stack)), position as int, bytes@));
    }

    /// Copies `width` bytes out of the backing store from `position` on.
    fn read_bytes(stack: &ByteStack, position: usize, width: usize) -> (bytes: Vec<u8>)
        requires
            position + width <= stack_bytes(*stack).len(),
        ensures
            bytes@ == stack_bytes(*stack).subrange(position as int, position + width),
    {
        let len = stack_len(stack);
        let mut bytes: Vec<u8> = Vec::new();
        let mut i: usize = 0;
        while i < width
            invariant
                i <= width,
                position + width <= stack_bytes(*stack).len(),
                len == stack_bytes(*stack).len(),
                bytes@ == stack_bytes(*stack).subrange(position as int, position + i),
            decreases width - i,
        {
            bytes.push(stack_get(stack, position + i));
            assert(bytes@ =~= stack_bytes(*stack).subrange(position as int, position + i + 1));
            i += 1;
        }
        bytes
    }

    /// Pushes a value: its little-endian bytes go into the stack at the stack
    /// pointer, which then moves up by the width of the value's type.
    ///
    /// A push that would move the stack pointer past `MAX_STACK_POINTER` is
    /// refused with `StackOverflow` and changes nothing.
    pub fn push(&mut self, value: Value) -> (result: Result<(), Fault>)
        ensures
            frame_step(old(self)@, final(self)@, result, old(self)@.pushed(value)),
    {
        proof {
            use_type_invariant(&*self);
        }
        let bytes = value.to_bytes();
        if self.stack_pointer + bytes.len() > MAX_STACK_POINTER {
            return Err(Fault::StackOverflow);
        }
        Frame::write_bytes(&mut self.stack, self.stack_pointer, &bytes);
        self.stack_pointer = self.stack_pointer + bytes.len();
        Ok(())
    }

    /// Pops a value of type `size`: the stack pointer moves down by the width
    /// of the type, and the bytes it passed are read as little-endian.
    ///
    /// A pop of more bytes than lie below the stack pointer is refused with
    /// `StackOutOfBounds` and changes nothing.
    pub fn pop(&mut self, size: ValueType) -> (result: Result<Value, Fault>)
        ensures
            match old(self)@.popped(size) {
                Ok((frame, value)) => result == Ok::<Value, Fault>(value) && final(self)@ == frame
                    && value.tag() == size,
                Err(fault) => outcome(result) == Err::<Value, FaultView>(fault) && final(self)@
                    == old(self)@,
            },
    {
        proof {
            use_type_invariant(&*self);
        }
        let width = size.get_size();
        if self.stack_pointer < width {
            return Err(Fault::StackOutOfBounds);
        }
        let position = self.stack_pointer - width;
        let bytes = Frame::read_bytes(&self.stack, position, width);
        self.stack_pointer = position;
        Ok(Value::from_bytes(size, &bytes))
    }

    /// Reads a value of type `size` at the byte offset that `offset` holds,
    /// counted from the bottom of the stack.
    ///
    /// An offset that is no index is refused with `InvalidStackOffset`, a read
    /// that reaches past the stack pointer with `StackOutOfBounds`.
    pub fn get_value(&self, offset: Value, size: ValueType) -> (result: Result<Value, Fault>)
        ensures
            outcome(result) == self@.value_at(offset, size),
            result matches Ok(value) ==> value.tag() == size,
    {
        proof {
            use_type_invariant(self);
        }
        let width = size.get_size();
        match offset.to_usize() {
            None => Err(Fault::InvalidStackOffset),
            Some(at) => {
                if at > self.stack_pointer || self.stack_pointer - at < width {
                    Err(Fault::StackOutOfBounds)
                } else {
                    let bytes = Frame::read_bytes(&self.stack, at, width);
                    Ok(Value::from_bytes(size, &bytes))
                }
            },
        }
    }

    /// Writes a value so many bytes below the stack pointer as `offset` holds.
    /// The bytes may reach past the stack pointer, which does not move.
    ///
    /// An offset that is no index is refused with `InvalidStackOffset`, one
    /// that is not less than the stack pointer with `StackOutOfBounds`;
    /// neither changes anything.
    pub fn set_value(&mut self, offset: Value, value: Value) -> (result: Result<(), Fault>)
        ensures
            frame_step(old(self)@, final(self)@, result, old(self)@.stored(offset, value)),
    {
        proof {
            use_type_invariant(&*self);
        }
        match offset.to_usize() {
            None => Err(Fault::InvalidStackOffset),
            Some(below) => {
                if below >= self.stack_pointer {
                    Err(Fault::StackOutOfBounds)
                } else {
                    let bytes = value.to_bytes();
                    Frame::write_bytes(&mut self.stack, self.stack_pointer - below, &bytes);
                    Ok(())
                }
            },
        }
    }

    /// Saves the registers as they are when the frame is entered.
    pub fn backup_registers(&mut self, registers: &[Register; REGISTER_COUNT])
        ensures
            final(self)@ == (FrameView {
                call_backup: Some(register_values(registers@)),
                ..old(self)@
            }),
    {
        proof {
            use_type_invariant(&*self);
        }
        self.call_backup = Some(*registers);
    }

    /// Gives the registers from the eighth on the values saved on entry; the
    /// first eight keep theirs. Where nothing was saved, nothing changes.
    pub fn restore_registers(&self, registers: &mut [Register; REGISTER_COUNT])
        ensures
            register_values(final(registers)@) == restored_registers(
                register_values(old(registers)@),
                self@.call_backup,
            ),
    {
        if let Some(call_backup) = &self.call_backup {
            let mut i: usize = FIRST_SAVED_REGISTER;
            while i < REGISTER_COUNT
                invariant
                    FIRST_SAVED_REGISTER <= i <= REGISTER_COUNT,
                    forall|j: int| 0 <= j < FIRST_SAVED_REGISTER ==> registers[j] == old(registers)[j],
                    forall|j: int| FIRST_SAVED_REGISTER <= j < i ==> registers[j] == call_backup[j],
                    forall|j: int| i <= j < REGISTER_COUNT ==> registers[j] == old(registers)[j],
                decreases REGISTER_COUNT - i,
            {
                registers[i] = call_backup[i];
                i += 1;
            }
            assert(register_values(registers@) =~= restored_registers(
                register_values(old(registers)@),
                self@.call_backup,
            ));
        }
    }

    /// Saves all registers for a scan of the heap.
    pub fn backup_registers_for_gc(&mut self, registers: &[Register; REGISTER_COUNT])
        ensures
            final(self)@ == (FrameView {
                gc_backup: Some(register_values(registers@)),
                ..old(self)@
            }),
    {
        proof {
            use_type_invariant(&*self);
        }
        self.gc_backup = Some(*registers);
    }

    /// Gives all registers the values saved for a scan of the heap. Where
    /// nothing was saved, nothing changes.
    pub fn restore_registers_for_gc(&self, registers: &mut [Register; REGISTER_COUNT])
        ensures
            register_values(final(registers)@) == match self@.gc_backup {
                Some(backup) => backup,
                None => register_values(old(registers)@),
            },
    {
        if let Some(gc_backup) = &self.gc_backup {
            *registers = *gc_backup;
        }
    }

    /// Records where the frame goes on after a call.
    pub fn set_return_address(&mut self, return_address: ReturnAddress)
        ensures
            final(self)@ == (FrameView {
                return_address: Some(
                    (return_address.program_counter, return_address.function_name@),
                ),
                ..old(self)@
            }),
    {
        proof {
            use_type_invariant(&*self);
        }
        self.return_address = Some(return_address);
    }

    /// The place the frame is at: its program counter and its function.
    pub fn create_return_address(&self) -> (address: ReturnAddress)
        ensures
            address.program_counter == self@.program_counter,
            address.function_name@ == self@.function_name,
    {
        ReturnAddress {
            program_counter: self.frame_info.program_counter,
            function_name: self.frame_info.function_name.clone(),
        }
    }

    /// The path of the function that the frame runs.
    pub fn get_function_name(&self) -> (name: FunctionPath)
        ensures
            name@ == self@.function_name,
    {
        self.frame_info.function_name.clone()
    }

    /// Gives the frame another function's path.
    pub fn set_function_name(&mut self, name: FunctionPath)
        ensures
            final(self)@ == (FrameView { function_name: name@, ..old(self)@ }),
    {
        proof {
            use_type_invariant(&*self);
        }
        self.frame_info.function_name = name;
    }

    /// The instruction at the program counter; none where the program counter
    /// lies past the last instruction.
    pub fn get_instruction(&self) -> (instruction: Option<&Instruction>)
        ensures
            match instruction {
                Some(found) => self@.program_counter < self@.instructions.len() && *found
                    == self@.instructions[self@.program_counter as int],
                None => self@.program_counter >= self@.instructions.len(),
            },
    {
        if self.frame_info.program_counter < self.frame_info.instructions.len() {
            Some(&self.frame_info.instructions[self.frame_info.program_counter])
        } else {
            None
        }
    }

    /// The frame's instruction sequence, shared, not copied.
    pub fn get_instructions(&self) -> (instructions: Arc<Vec<Instruction>>)
        ensures
            instructions@ == self@.instructions,
    {
        share_instructions(&self.frame_info.instructions)
    }

    /// Moves the program counter to the next instruction.
    pub fn increment_program_counter(&mut self)
        requires
            old(self)@.program_counter < usize::MAX,
        ensures
            final(self)@ == (FrameView {
                program_counter: (old(self)@.program_counter + 1) as usize,
                ..old(self)@
            }),
    {
        proof {
            use_type_invariant(&*self);
        }
        self.frame_info.program_counter = self.frame_info.program_counter + 1;
    }

    /// Moves the program counter back to the first instruction.
    pub fn reset_program_counter(&mut self)
        ensures
            final(self)@ == (FrameView { program_counter: 0, ..old(self)@ }),
    {
        proof {
            use_type_invariant(&*self);
        }
        self.frame_info.program_counter = 0;
    }

    pub fn get_program_counter(&self) -> (program_counter: usize)
        ensures
            program_counter == self@.program_counter,
    {
        self.frame_info.program_counter
    }

    pub fn set_program_counter(&mut self, program_counter: usize)
        ensures
            final(self)@ == (FrameView { program_counter, ..old(self)@ }),
    {
        proof {
            use_type_invariant(&*self);
        }
        self.frame_info.program_counter = program_counter;
    }

    /// The stack pointer: how many bytes the stack holds.
    pub fn get_stack_pointer(&self) -> (stack_pointer: usize)
        ensures
            stack_pointer == self@.stack_pointer,
            stack_pointer <= MAX_STACK_POINTER,
            stack_pointer <= self@.stack.len() <= MAX_STACK_BYTES,
    {
        proof {
            use_type_invariant(self);
        }
        self.stack_pointer
    }

    /// A handle on a copy of this frame as it is, which the store shares
    /// from now on, with the frame's program counter as its start. The
    /// handle is not stored yet.
    pub fn make_continuation(&self, store: &mut ContinuationStore) -> (continuation:
        DelimitedContinuation)
        ensures
            continuation.frame_slot() == old(store).frames@.len(),
            continuation.start() == self@.program_counter,
            final(store).continuations@ == old(store).continuations@,
            shared_view(final(store).frames@) == shared_view(old(store).frames@).push(self@),
    {
        let slot = store.share_frame(self.clone());
        assert(shared_view(store.frames@) =~= shared_view(old(store).frames@).push(self@));
        DelimitedContinuation::new(slot, self.frame_info.program_counter)
    }

    /// A plain frame is no continuation.
    pub fn is_continuation(&self) -> (continuation: bool)
        ensures
            !continuation,
    {
        false
    }
}

impl Clone for Frame {
    fn clone(&self) -> (copy: Frame)
        ensures
            copy@ == self@,
    {
        proof {
            use_type_invariant(self);
        }
        Frame {
            frame_info: FrameInfo {
                function_name: self.frame_info.function_name.clone(),
                instructions: share_instructions(&self.frame_info.instructions),
                program_counter: self.frame_info.program_counter,
            },
            return_address: match &self.return_address {
                Some(address) => Some(address.clone()),
                None => None,
            },
            stack: stack_clone(&self.stack),
            stack_pointer: self.stack_pointer,
            call_backup: self.call_backup,
            gc_backup: self.gc_backup,
        }
    }
}

/// The values that registers hold, by index.
pub open spec fn register_values(registers: Seq<Register>) -> Seq<Value> {
    registers.map_values(|register: Register| register.value)
}

/// The registers after a return: the first eight as they are, the others as
/// they were saved on entry. Where nothing was saved, all as they are.
pub open spec fn restored_registers(registers: Seq<Value>, backup: Option<Seq<Value>>) -> Seq<
    Value,
> {
    match backup {
        Some(saved) => Seq::new(
            registers.len(),
            |i: int|
                if i < FIRST_SAVED_REGISTER {
                    registers[i]
                } else {
                    saved[i]
                },
        ),
        None => registers,
    }
}

} // verus!
