//! What the instructions that touch frames, continuations and the heap do,
//! and the dispatch of one instruction.

use crate::instruction::CallTarget;
use crate::instruction::Condition;
use crate::instruction::Instruction;
use crate::instruction::JumpTarget;
use crate::instruction::Source;
use crate::instruction::Target;
use crate::machine::outcome;
use crate::machine::processor::Arithmetic;
use crate::machine::processor::Bitwise;
use crate::machine::processor::Core;
use crate::machine::processor::CoreUtils;
use crate::machine::processor::CoreView;
use crate::machine::Fault;
use crate::machine::FaultView;
use crate::machine::InstructionResult;
use crate::memory::same_heap;
use crate::memory::Memory;
use crate::memory::MemoryObject;
use crate::program::Module;
use crate::program::StringTablePath;
use crate::stack_frame::delimited_continuation::ContinuationStore;
use crate::stack_frame::delimited_continuation::DelimitedContinuation;
use crate::stack_frame::frame::Frame;
use crate::stack_frame::frame::FrameView;
use crate::stack_frame::chain_view;
use crate::stack_frame::shared_view;
use crate::stack_frame::ActiveFrame;
use crate::stack_frame::ActiveFrameView;
use crate::stack_frame::REGISTER_COUNT;
use crate::value::Value;
use crate::value::ValueType;
use vstd::prelude::*;

verus! {

/// The frame after it moved on to the next instruction. A program counter
/// that cannot move on is an invalid jump.
pub open spec fn advanced(frame: FrameView) -> Result<FrameView, FaultView> {
    if frame.program_counter == usize::MAX {
        Err(FaultView::InvalidJump)
    } else {
        Ok(frame.at((frame.program_counter + 1) as usize))
    }
}

/// The frame after a jump that is taken: a relative jump counts from the
/// jump itself, an absolute jump goes where it says. A jump to a label, or
/// to a place that no program counter can name, is invalid.
pub open spec fn jumped(frame: FrameView, jump_target: JumpTarget) -> Result<
    FrameView,
    FaultView,
> {
    match jump_target {
        JumpTarget::Label(_) => Err(FaultView::InvalidJump),
        JumpTarget::Relative(offset) => if 0 <= frame.program_counter + offset <= usize::MAX {
            Ok(frame.at((frame.program_counter + offset) as usize))
        } else {
            Err(FaultView::InvalidJump)
        },
        JumpTarget::Absolute(address) => Ok(frame.at(address)),
    }
}

/// Whether `result` and the frame after it are what `expected` says: on
/// success the driver is told to go on and the frame is the expected one, on
/// a fault the fault is the expected one and the frame is as it was.
pub open spec fn went_on(
    before: FrameView,
    after: FrameView,
    result: Result<InstructionResult, Fault>,
    expected: Result<FrameView, FaultView>,
) -> bool {
    match expected {
        Ok(frame) => result matches Ok(InstructionResult::Continue) && after == frame,
        Err(fault) => result matches Err(found) && found@ == fault && after == before,
    }
}

/// What a call that is taken gives, once the caller has moved on: the
/// function at a path with a fresh frame for it, or a stored continuation
/// by its index. The other targets are reserved.
pub open spec fn called(
    core: CoreView,
    module: &Module,
    continuations: Seq<DelimitedContinuation>,
    call_target: CallTarget,
    result: Result<InstructionResult, Fault>,
) -> bool {
    match call_target {
        CallTarget::Label(path) => match module.function_at(path@) {
            None => result matches Err(fault) && fault@ == FaultView::FunctionNotFound(path@),
            Some(function) => {
                &&& result matches Ok(InstructionResult::Call(found, frame))
                &&& found == function
                &&& frame@ == (FrameView {
                    function_name: path@,
                    instructions: function.code(),
                    program_counter: 0,
                    stack: Seq::empty(),
                    stack_pointer: 0,
                    call_backup: None,
                    gc_backup: None,
                    return_address: None,
                })
            },
        },
        CallTarget::Continuation(source) => match core.read(source) {
            Err(expected) => result matches Err(fault) && fault@ == expected,
            Ok(value) => match value.as_index() {
                None => result matches Err(fault) && fault@ == FaultView::InvalidOperation,
                Some(index) => if index < continuations.len() {
                    result matches Ok(InstructionResult::CallContinuation(found)) && found
                        == continuations[index as int]
                } else {
                    result matches Err(fault) && fault@ == FaultView::ContinuationNotFound(
                        index as u64,
                    )
                },
            },
        },
        CallTarget::Vtable(_, _) | CallTarget::Closure(_) => result matches Err(fault) && fault@
            == FaultView::InvalidInstruction,
    }
}

/// Where the frame of a stack level is.
#[derive(Debug, Clone, Copy, PartialEq, Eq, Structural)]
pub enum FramePlace {
    /// It is the live frame.
    Live,
    /// It is the plain frame at this index of the parent chain.
    Parent(usize),
    /// It is the shared frame in this slot of the continuation store.
    Shared(usize),
}

/// Where the frame of stack level `level` is. Level zero is the most
/// recent parent, each further level one parent further back, and the level
/// that equals the number of parents is the live frame. A parent that is a
/// continuation has its frame in the continuation store, unless it shares
/// the frame of the live continuation, which is then the live frame.
pub open spec fn frame_place(
    level: usize,
    continuation: Option<DelimitedContinuation>,
    frames: Seq<ActiveFrameView>,
    shared: Seq<FrameView>,
) -> Result<FramePlace, FaultView> {
    if level > frames.len() {
        Err(FaultView::StackFrameOutOfBounds)
    } else if level == frames.len() {
        Ok(FramePlace::Live)
    } else {
        match frames[frames.len() - 1 - level] {
            ActiveFrameView::Plain(_) => Ok(
                FramePlace::Parent((frames.len() - 1 - level) as usize),
            ),
            ActiveFrameView::Continuation(parent) => if continuation matches Some(live)
                && live.frame_slot() == parent.frame_slot() {
                Ok(FramePlace::Live)
            } else if parent.frame_slot() < shared.len() {
                Ok(FramePlace::Shared(parent.frame_slot()))
            } else {
                Err(FaultView::StackFrameOutOfBounds)
            },
        }
    }
}

/// The frame at a place.
pub open spec fn frame_at(
    place: FramePlace,
    live: FrameView,
    frames: Seq<ActiveFrameView>,
    shared: Seq<FrameView>,
) -> FrameView {
    match place {
        FramePlace::Live => live,
        FramePlace::Parent(index) => match frames[index as int] {
            ActiveFrameView::Plain(frame) => frame,
            ActiveFrameView::Continuation(_) => live,
        },
        FramePlace::Shared(slot) => shared[slot as int],
    }
}

/// The stack level that a value names, where it names one.
pub open spec fn stack_level(value: Value) -> Result<usize, FaultView> {
    match value.as_index() {
        Some(level) => Ok(level),
        None => Err(FaultView::InvalidStackLevel),
    }
}

/// What a stack dereference gives: the value of the target's type at the
/// offset in the frame of the level.
pub open spec fn dereferenced(
    core: CoreView,
    live: FrameView,
    continuation: Option<DelimitedContinuation>,
    frames: Seq<ActiveFrameView>,
    shared: Seq<FrameView>,
    target: Target,
    level: Source,
    offset: Source,
) -> Result<CoreView, FaultView> {
    match (core.read(level), core.read(offset)) {
        (Err(fault), _) => Err(fault),
        (Ok(_), Err(fault)) => Err(fault),
        (Ok(level), Ok(offset)) => match stack_level(level) {
            Err(fault) => Err(fault),
            Ok(level) => match frame_place(level, continuation, frames, shared) {
                Err(fault) => Err(fault),
                Ok(place) => match frame_at(place, live, frames, shared).value_at(
                    offset,
                    target.1.value_type(),
                ) {
                    Err(fault) => Err(fault),
                    Ok(value) => core.write(target, value),
                },
            },
        },
    }
}

/// Where a stack store writes and what the frame there becomes.
pub open spec fn stored_at(
    core: CoreView,
    live: FrameView,
    continuation: Option<DelimitedContinuation>,
    frames: Seq<ActiveFrameView>,
    shared: Seq<FrameView>,
    level: Source,
    offset: Source,
    value: Source,
) -> Result<(FramePlace, FrameView), FaultView> {
    match (core.read(level), core.read(offset), core.read(value)) {
        (Err(fault), _, _) => Err(fault),
        (Ok(_), Err(fault), _) => Err(fault),
        (Ok(_), Ok(_), Err(fault)) => Err(fault),
        (Ok(level), Ok(offset), Ok(value)) => match stack_level(level) {
            Err(fault) => Err(fault),
            Ok(level) => match frame_place(level, continuation, frames, shared) {
                Err(fault) => Err(fault),
                Ok(place) => match frame_at(place, live, frames, shared).stored(offset, value) {
                    Err(fault) => Err(fault),
                    Ok(frame) => Ok((place, frame)),
                },
            },
        },
    }
}

/// The core after the handle of an interned string was written into the
/// target as a `MemoryRef`. A string that is not interned is an invalid
/// reference.
pub open spec fn string_referenced(
    core: CoreView,
    memory: &Memory,
    target: Target,
    path: Seq<Seq<char>>,
    table_index: u64,
) -> Result<CoreView, FaultView> {
    match memory.interned(path, table_index) {
        Some(handle) => core.write(target, Value::MemoryRef(handle)),
        None => Err(FaultView::InvalidReference),
    }
}

/// The core after the length of a list was written into the target. The
/// source must hold the list's handle as a `MemoryRef`.
pub open spec fn list_measured(core: CoreView, memory: &Memory, target: Target, list: Source)
    -> Result<CoreView, FaultView> {
    match core.read(list) {
        Err(fault) => Err(fault),
        Ok(Value::MemoryRef(reference)) => match memory.list_length(reference) {
            Ok(length) => core.write(target, length),
            Err(fault) => Err(fault@),
        },
        Ok(_) => Err(FaultView::InvalidReference),
    }
}

/// The core after an element of a list was read into the target. The
/// sources must hold the list's handle and the index as `U64`.
pub open spec fn list_accessed(
    core: CoreView,
    memory: &Memory,
    target: Target,
    list: Source,
    index: Source,
) -> Result<CoreView, FaultView> {
    match (core.read(list), core.read(index)) {
        (Err(fault), _) => Err(fault),
        (Ok(_), Err(fault)) => Err(fault),
        (Ok(Value::U64(reference)), Ok(Value::U64(at))) => match memory.list_element(
            reference,
            at,
        ) {
            Ok(element) => core.write(target, element),
            Err(fault) => Err(fault@),
        },
        (Ok(_), Ok(_)) => Err(FaultView::InvalidReference),
    }
}

/// Whether a fault is the expected one and the heap is as it was.
pub open spec fn heap_fault<T>(
    before: &Memory,
    after: &Memory,
    result: Result<T, Fault>,
    expected: FaultView,
) -> bool {
    &&& result matches Err(fault)
    &&& fault@ == expected
    &&& after.objects() == before.objects()
    &&& after.string_lookup_table == before.string_lookup_table
}

/// Whether the heap after is the heap before with one more object, under a
/// handle that is not zero and was free.
pub open spec fn heap_with(before: &Memory, after: &Memory, handle: u64) -> bool {
    &&& handle != 0
    &&& !before.objects().contains_key(handle)
    &&& after.objects().dom() == before.objects().dom().insert(handle)
    &&& forall|other: u64|
        before.objects().contains_key(other) ==> after.objects()[other] == before.objects()[other]
    &&& after.string_lookup_table == before.string_lookup_table
}

/// What the creation of a list came to.
///
/// The size is read, the target's register checked, and the size taken as
/// a length; a fault of these changes nothing. Then the allocation either
/// fails with a memory error and changes nothing, or the heap holds one more
/// object, a list of so many zeros of the size's type, and the target's
/// register holds its handle as a `MemoryRef`.
pub open spec fn list_created(
    core: CoreView,
    core_after: CoreView,
    memory: &Memory,
    memory_after: &Memory,
    target: Target,
    size: Source,
    result: Result<(), Fault>,
) -> bool {
    match core.read(size) {
        Err(fault) => heap_fault(memory, memory_after, result, fault) && core_after == core,
        Ok(length) => if target.0 >= core.registers.len() {
            heap_fault(memory, memory_after, result, FaultView::InvalidRegister) && core_after
                == core
        } else {
            match length.as_index() {
                None => heap_fault(memory, memory_after, result, FaultView::InvalidOperation)
                    && core_after == core,
                Some(count) => match result {
                    Err(_) => heap_fault(memory, memory_after, result, FaultView::MemoryError)
                        && core_after == core,
                    Ok(_) => {
                        &&& core_after.registers[target.0 as int] matches Value::MemoryRef(handle)
                        &&& Ok::<CoreView, FaultView>(core_after) == core.write(
                            target,
                            Value::MemoryRef(handle),
                        )
                        &&& heap_with(memory, memory_after, handle)
                        &&& memory_after.objects()[handle] matches MemoryObject::List(list)
                        &&& list@ == Seq::new(
                            count as nat,
                            |i: int| Value::from_int(length.tag(), 0),
                        )
                    },
                },
            }
        }
    }
}

/// What storing into a list came to: the element at the index of the list
/// is the value, and nothing else in the heap has changed; or a fault, and
/// nothing has changed at all. The sources must hold the list's handle and
/// the index as `U64`.
pub open spec fn list_stored(
    core: CoreView,
    memory: &Memory,
    memory_after: &Memory,
    list: Source,
    index: Source,
    value: Source,
    result: Result<(), Fault>,
) -> bool {
    match (core.read(list), core.read(index), core.read(value)) {
        (Err(fault), _, _) => heap_fault(memory, memory_after, result, fault),
        (Ok(_), Err(fault), _) => heap_fault(memory, memory_after, result, fault),
        (Ok(_), Ok(_), Err(fault)) => heap_fault(memory, memory_after, result, fault),
        (Ok(Value::U64(reference)), Ok(Value::U64(at)), Ok(element)) => match memory.list_element(
            reference,
            at,
        ) {
            Err(fault) => heap_fault(memory, memory_after, result, fault@),
            Ok(_) => {
                &&& result is Ok
                &&& memory_after.string_lookup_table == memory.string_lookup_table
                &&& memory_after.objects().dom() == memory.objects().dom()
                &&& forall|other: u64|
                    other != reference && memory.objects().contains_key(other)
                        ==> memory_after.objects()[other] == memory.objects()[other]
                &&& memory_after.objects()[reference] matches MemoryObject::List(after)
                &&& memory.objects()[reference] matches MemoryObject::List(before)
                &&& after@ == before@.update(at as int, element)
            },
        },
        (Ok(_), Ok(_), Ok(_)) => heap_fault(memory, memory_after, result, FaultView::InvalidReference),
    }
}

/// What the creation of a continuation came to.
///
/// The store holds one more continuation, and the target's register holds
/// its index as a `U64`. Of a plain frame the continuation refers to a new
/// slot, which holds a frame that is as the live one, and starts at the live
/// frame's program counter; of a live continuation it is that continuation.
/// A target that names no register changes nothing.
pub open spec fn continuation_created(
    core: CoreView,
    core_after: CoreView,
    live: FrameView,
    continuation: Option<DelimitedContinuation>,
    store: &ContinuationStore,
    store_after: &ContinuationStore,
    target: Target,
    result: Result<(), Fault>,
) -> bool {
    if target.0 >= core.registers.len() {
        &&& result matches Err(fault)
        &&& fault@ == FaultView::InvalidRegister
        &&& core_after == core
        &&& store_after.continuations@ == store.continuations@
        &&& shared_view(store_after.frames@) == shared_view(store.frames@)
    } else {
        &&& result is Ok
        &&& Ok::<CoreView, FaultView>(core_after) == core.write(
            target,
            Value::U64(store.continuations@.len() as u64),
        )
        &&& store_after.continuations@.len() == store.continuations@.len() + 1
        &&& store_after.continuations@.drop_last() == store.continuations@
        &&& match continuation {
            Some(live_continuation) => {
                &&& store_after.continuations@.last() == live_continuation
                &&& shared_view(store_after.frames@) == shared_view(store.frames@)
            },
            None => {
                &&& store_after.continuations@.last().frame_slot() == store.frames@.len()
                &&& store_after.continuations@.last().start() == live.program_counter
                &&& shared_view(store_after.frames@) == shared_view(store.frames@).push(live)
            },
        }
    }
}

/// A result without what it asks of the driver.
pub open spec fn plain(result: Result<InstructionResult, Fault>) -> Result<(), Fault> {
    match result {
        Ok(_) => Ok(()),
        Err(fault) => Err(fault),
    }
}

/// Whether two continuation stores hold the same continuations, and shared
/// frames that are alike.
pub open spec fn same_store(before: &ContinuationStore, after: &ContinuationStore) -> bool {
    &&& after.continuations@ == before.continuations@
    &&& shared_view(after.frames@) == shared_view(before.frames@)
}

/// What an instruction that works on the core alone came to: on success
/// the core is the expected one, the frame has moved on and the driver is
/// told to go on; on a fault the fault is the expected one and nothing has
/// changed.
pub open spec fn computed(
    core: CoreView,
    core_after: CoreView,
    frame: FrameView,
    frame_after: FrameView,
    result: Result<InstructionResult, Fault>,
    expected: Result<CoreView, FaultView>,
) -> bool {
    match expected {
        Ok(next) => {
            &&& result matches Ok(InstructionResult::Continue)
            &&& core_after == next
            &&& frame_after == frame.at((frame.program_counter + 1) as usize)
        },
        Err(fault) => {
            &&& result matches Err(found)
            &&& found@ == fault
            &&& core_after == core
            &&& frame_after == frame
        },
    }
}

/// Whether the frame has moved on where the instruction succeeded, the
/// driver being told to go on, and is as it was where it faulted.
pub open spec fn moved_on(
    frame: FrameView,
    frame_after: FrameView,
    result: Result<InstructionResult, Fault>,
) -> bool {
    match result {
        Ok(step) => step is Continue && frame_after == frame.at(
            (frame.program_counter + 1) as usize,
        ),
        Err(_) => frame_after == frame,
    }
}

/// What the execution of one instruction came to.
///
/// `instruction` is the instruction at the live frame's program counter,
/// where there is one. The states before and after are those of the core,
/// of the live frame, of the chain of its parents, of the continuation store
/// and of the heap.
pub open spec fn executed(
    instruction: Option<Instruction>,
    continuation: Option<DelimitedContinuation>,
    module: &Module,
    core: CoreView,
    core_after: CoreView,
    frame: FrameView,
    frame_after: FrameView,
    frames: Seq<ActiveFrameView>,
    frames_after: Seq<ActiveFrameView>,
    store: &ContinuationStore,
    store_after: &ContinuationStore,
    memory: &Memory,
    memory_after: &Memory,
    result: Result<InstructionResult, Fault>,
) -> bool {
    let in_continuation = continuation is Some;
    let shared = shared_view(store.frames@);
    let around = frames_after == frames && same_store(store, store_after) && same_heap(
        memory,
        memory_after,
    );
    let refused = {
        &&& result matches Err(found)
        &&& found@ == FaultView::InvalidInstruction
        &&& core_after == core
        &&& frame_after == frame
        &&& around
    };
    match instruction {
        None => refused,
        Some(Instruction::Store(_, _, _)) | Some(Instruction::CreateObject(_)) => refused,
        Some(Instruction::Halt) => {
            &&& result matches Ok(InstructionResult::Stop)
            &&& core_after == core
            &&& frame_after == frame
            &&& around
        },
        Some(Instruction::NoOp) => around && computed(
            core,
            core_after,
            frame,
            frame_after,
            result,
            Ok(core),
        ),
        Some(Instruction::Load(target, source)) => around && computed(
            core,
            core_after,
            frame,
            frame_after,
            result,
            core.load(target, source),
        ),
        Some(Instruction::Add(target, source, can_wrap, use_carry)) => around && computed(
            core,
            core_after,
            frame,
            frame_after,
            result,
            core.arithmetic(Arithmetic::Add, target, source, can_wrap, use_carry),
        ),
        Some(Instruction::Sub(target, source, can_wrap, use_carry)) => around && computed(
            core,
            core_after,
            frame,
            frame_after,
            result,
            core.arithmetic(Arithmetic::Sub, target, source, can_wrap, use_carry),
        ),
        Some(Instruction::Mul(target, source, can_wrap)) => around && computed(
            core,
            core_after,
            frame,
            frame_after,
            result,
            core.arithmetic(Arithmetic::Mul, target, source, can_wrap, false),
        ),
        Some(Instruction::Div(target, source, can_wrap)) => around && computed(
            core,
            core_after,
            frame,
            frame_after,
            result,
            core.arithmetic(Arithmetic::Div, target, source, can_wrap, false),
        ),
        Some(Instruction::Mod(target, source, can_wrap)) => around && computed(
            core,
            core_after,
            frame,
            frame_after,
            result,
            core.arithmetic(Arithmetic::Mod, target, source, can_wrap, false),
        ),
        Some(Instruction::And(target, source)) => around && computed(
            core,
            core_after,
            frame,
            frame_after,
            result,
            core.bitwise(Bitwise::And, target, source),
        ),
        Some(Instruction::Or(target, source)) => around && computed(
            core,
            core_after,
            frame,
            frame_after,
            result,
            core.bitwise(Bitwise::Or, target, source),
        ),
        Some(Instruction::Xor(target, source)) => around && computed(
            core,
            core_after,
            frame,
            frame_after,
            result,
            core.bitwise(Bitwise::Xor, target, source),
        ),
        Some(Instruction::Not(target)) => around && computed(
            core,
            core_after,
            frame,
            frame_after,
            result,
            core.bitwise_not(target),
        ),
        Some(Instruction::ShiftLeft(target, source)) => around && computed(
            core,
            core_after,
            frame,
            frame_after,
            result,
            core.bitwise(Bitwise::ShiftLeft, target, source),
        ),
        Some(Instruction::ShiftRight(target, source)) => around && computed(
            core,
            core_after,
            frame,
            frame_after,
            result,
            core.bitwise(Bitwise::ShiftRight, target, source),
        ),
        Some(Instruction::Compare(target, source, kind)) => around && computed(
            core,
            core_after,
            frame,
            frame_after,
            result,
            core.compare(target, source, kind),
        ),
        Some(Instruction::Goto(jump_target, condition)) => {
            &&& around
            &&& core_after == core
            &&& went_on(
                frame,
                frame_after,
                result,
                if core.holds(condition, in_continuation) {
                    jumped(frame, jump_target)
                } else {
                    advanced(frame)
                },
            )
        },
        Some(Instruction::Return(condition)) => {
            &&& around
            &&& core_after == core
            &&& if core.holds(condition, in_continuation) {
                result matches Ok(InstructionResult::Return) && frame_after == frame
            } else {
                went_on(frame, frame_after, result, advanced(frame))
            }
        },
        Some(Instruction::Call(call_target, condition)) => {
            &&& around
            &&& core_after == core
            &&& frame_after == frame.at((frame.program_counter + 1) as usize)
            &&& if core.holds(condition, in_continuation) {
                called(core, module, store.continuations@, call_target, result)
            } else {
                result matches Ok(InstructionResult::Continue)
            }
        },
        Some(Instruction::Push(source)) => {
            &&& around
            &&& core_after == core
            &&& match core.read(source) {
                Err(fault) => result matches Err(found) && found@ == fault && frame_after == frame,
                Ok(value) => match frame.pushed(value) {
                    Err(fault) => result matches Err(found) && found@ == fault && frame_after
                        == frame,
                    Ok(pushed) => result matches Ok(InstructionResult::Continue) && frame_after
                        == pushed.at((frame.program_counter + 1) as usize),
                },
            }
        },
        Some(Instruction::Pop(target)) => {
            &&& around
            &&& match Core::popped_into(core, frame, target) {
                Err(fault) => {
                    &&& result matches Err(found)
                    &&& found@ == fault
                    &&& frame_after == frame
                    &&& core_after == core
                },
                Ok((popped_core, popped_frame)) => {
                    &&& result matches Ok(InstructionResult::Continue)
                    &&& core_after == popped_core
                    &&& frame_after == popped_frame.at((frame.program_counter + 1) as usize)
                },
            }
        },
        Some(Instruction::StackDeref(target, level, offset)) => around && computed(
            core,
            core_after,
            frame,
            frame_after,
            result,
            dereferenced(core, frame, continuation, frames, shared, target, level, offset),
        ),
        Some(Instruction::StackStore(level, offset, value)) => {
            &&& core_after == core
            &&& same_heap(memory, memory_after)
            &&& store_after.continuations@ == store.continuations@
            &&& match stored_at(core, frame, continuation, frames, shared, level, offset, value) {
                Err(fault) => {
                    &&& result matches Err(found)
                    &&& found@ == fault
                    &&& frame_after == frame
                    &&& frames_after == frames
                    &&& shared_view(store_after.frames@) == shared
                },
                Ok((place, stored)) => {
                    &&& result matches Ok(InstructionResult::Continue)
                    &&& frame_after == (if place is Live {
                        stored
                    } else {
                        frame
                    }).at((frame.program_counter + 1) as usize)
                    &&& frames_after == (match place {
                        FramePlace::Parent(index) => frames.update(
                            index as int,
                            ActiveFrameView::Plain(stored),
                        ),
                        _ => frames,
                    })
                    &&& shared_view(store_after.frames@) == (match place {
                        FramePlace::Shared(slot) => shared.update(slot as int, stored),
                        _ => shared,
                    })
                },
            }
        },
        Some(Instruction::CreateContinuation(target)) => {
            &&& frames_after == frames
            &&& same_heap(memory, memory_after)
            &&& moved_on(frame, frame_after, result)
            &&& continuation_created(
                core,
                core_after,
                frame,
                continuation,
                store,
                store_after,
                target,
                plain(result),
            )
        },
        Some(Instruction::GetStringRef(target, path, index)) => around && computed(
            core,
            core_after,
            frame,
            frame_after,
            result,
            string_referenced(core, memory, target, path@, index),
        ),
        Some(Instruction::CreateList(target, size)) => {
            &&& frames_after == frames
            &&& same_store(store, store_after)
            &&& moved_on(frame, frame_after, result)
            &&& list_created(core, core_after, memory, memory_after, target, size, plain(result))
        },
        Some(Instruction::ListLength(target, list)) => around && computed(
            core,
            core_after,
            frame,
            frame_after,
            result,
            list_measured(core, memory, target, list),
        ),
        Some(Instruction::ListAccess(target, list, index)) => around && computed(
            core,
            core_after,
            frame,
            frame_after,
            result,
            list_accessed(core, memory, target, list, index),
        ),
        Some(Instruction::ListStore(list, index, value)) => {
            &&& frames_after == frames
            &&& same_store(store, store_after)
            &&& core_after == core
            &&& moved_on(frame, frame_after, result)
            &&& list_stored(core, memory, memory_after, list, index, value, plain(result))
        },
    }
}

impl Core {
    /// Finds where the frame of a stack level is.
    fn locate(
        level: usize,
        continuation: Option<DelimitedContinuation>,
        frames: &Vec<ActiveFrame>,
        continuation_store: &ContinuationStore,
    ) -> (result: Result<FramePlace, Fault>)
        ensures
            outcome(result) == frame_place(
                level,
                continuation,
                chain_view(frames@),
                shared_view(continuation_store.frames@),
            ),
            result matches Ok(FramePlace::Parent(index)) ==> index < frames@.len()
                && frames@[index as int] is Plain,
            result matches Ok(FramePlace::Shared(slot)) ==> slot < continuation_store.frames@.len(),
    {
        if level > frames.len() {
            Err(Fault::StackFrameOutOfBounds)
        } else if level == frames.len() {
            Ok(FramePlace::Live)
        } else {
            let index = frames.len() - 1 - level;
            match &frames[index] {
                ActiveFrame::Plain(_) => Ok(FramePlace::Parent(index)),
                ActiveFrame::Continuation(parent) => {
                    let slot = parent.get_stack_frame();
                    let is_live = match continuation {
                        Some(live) => live.get_stack_frame() == slot,
                        None => false,
                    };
                    if is_live {
                        Ok(FramePlace::Live)
                    } else if slot < continuation_store.frames.len() {
                        Ok(FramePlace::Shared(slot))
                    } else {
                        Err(Fault::StackFrameOutOfBounds)
                    }
                },
            }
        }
    }

    /// Reads a value of the target's type from the stack of the frame at a
    /// stack level, at a byte offset, into the target.
    ///
    /// A level that is no index faults with `InvalidStackLevel`, one past the
    /// live frame with `StackFrameOutOfBounds`; the read itself faults as
    /// `Frame::get_value` does.
    pub fn stack_dereference_instruction(
        &mut self,
        target: &Target,
        stack_level: &Source,
        offset: &Source,
        stack_frame: &Frame,
        continuation: Option<DelimitedContinuation>,
        frames: &Vec<ActiveFrame>,
        continuation_store: &ContinuationStore,
    ) -> (result: Result<(), Fault>)
        ensures
            crate::machine::processor::core_step(
                old(self)@,
                final(self)@,
                result,
                dereferenced(
                    old(self)@,
                    stack_frame@,
                    continuation,
                    chain_view(frames@),
                    shared_view(continuation_store.frames@),
                    *target,
                    *stack_level,
                    *offset,
                ),
            ),
    {
        let level_value = self.get_value(stack_level)?;
        let at = self.get_value(offset)?;
        let level = match level_value.to_usize() {
            Some(level) => level,
            None => {
                return Err(Fault::InvalidStackLevel);
            },
        };
        let typ = target.get_type().to_value_type();
        let found = match Core::locate(level, continuation, frames, continuation_store)? {
            FramePlace::Live => stack_frame.get_value(at, typ)?,
            FramePlace::Parent(index) => match &frames[index] {
                ActiveFrame::Plain(frame) => frame.get_value(at, typ)?,
                ActiveFrame::Continuation(_) => {
                    return Err(Fault::StackFrameOutOfBounds);
                },
            },
            FramePlace::Shared(slot) => continuation_store.frames[slot].get_value(at, typ)?,
        };
        self.set_value(target, found)
    }

    /// Writes a value into the stack of the frame at a stack level, so many
    /// bytes below that frame's stack pointer as the offset says.
    ///
    /// It faults as `stack_dereference_instruction` does on the level and as
    /// `Frame::set_value` does on the write, and then changes nothing.
    pub fn stack_store_instruction(
        &mut self,
        stack_level: &Source,
        offset: &Source,
        value: &Source,
        stack_frame: &mut Frame,
        continuation: Option<DelimitedContinuation>,
        frames: &mut Vec<ActiveFrame>,
        continuation_store: &mut ContinuationStore,
    ) -> (result: Result<(), Fault>)
        ensures
            final(self)@ == old(self)@,
            final(continuation_store).continuations@ == old(continuation_store).continuations@,
            match stored_at(
                old(self)@,
                old(stack_frame)@,
                continuation,
                chain_view(old(frames)@),
                shared_view(old(continuation_store).frames@),
                *stack_level,
                *offset,
                *value,
            ) {
                Err(expected) => {
                    &&& result matches Err(fault)
                    &&& fault@ == expected
                    &&& final(stack_frame)@ == old(stack_frame)@
                    &&& chain_view(final(frames)@) == chain_view(old(frames)@)
                    &&& shared_view(final(continuation_store).frames@) == shared_view(
                        old(continuation_store).frames@,
                    )
                },
                Ok((FramePlace::Live, frame)) => {
                    &&& result is Ok
                    &&& final(stack_frame)@ == frame
                    &&& chain_view(final(frames)@) == chain_view(old(frames)@)
                    &&& shared_view(final(continuation_store).frames@) == shared_view(
                        old(continuation_store).frames@,
                    )
                },
                Ok((FramePlace::Parent(index), frame)) => {
                    &&& result is Ok
                    &&& final(stack_frame)@ == old(stack_frame)@
                    &&& chain_view(final(frames)@) == chain_view(old(frames)@).update(
                        index as int,
                        ActiveFrameView::Plain(frame),
                    )
                    &&& shared_view(final(continuation_store).frames@) == shared_view(
                        old(continuation_store).frames@,
                    )
                },
                Ok((FramePlace::Shared(slot), frame)) => {
                    &&& result is Ok
                    &&& final(stack_frame)@ == old(stack_frame)@
                    &&& chain_view(final(frames)@) == chain_view(old(frames)@)
                    &&& shared_view(final(continuation_store).frames@) == shared_view(
                        old(continuation_store).frames@,
                    ).update(slot as int, frame)
                },
            },
    {
        let level_value = self.get_value(stack_level)?;
        let below = self.get_value(offset)?;
        let written = self.get_value(value)?;
        let level = match level_value.to_usize() {
            Some(level) => level,
            None => {
                return Err(Fault::InvalidStackLevel);
            },
        };
        let place = Core::locate(level, continuation, frames, continuation_store)?;
        let result = match place {
            FramePlace::Live => stack_frame.set_value(below, written),
            FramePlace::Parent(index) => match &mut frames[index] {
                ActiveFrame::Plain(frame) => frame.set_value(below, written),
                ActiveFrame::Continuation(_) => Err(Fault::StackFrameOutOfBounds),
            },
            FramePlace::Shared(slot) => continuation_store.frames[slot].set_value(below, written),
        };
        proof {
            let chain = chain_view(old(frames)@);
            let shared = shared_view(old(continuation_store).frames@);
            match place {
                FramePlace::Live => {},
                FramePlace::Parent(index) => {
                    let frame = frame_at(place, old(stack_frame)@, chain, shared);
                    if result is Ok {
                        assert(chain_view(frames@) =~= chain.update(
                            index as int,
                            ActiveFrameView::Plain(frame.stored(below, written)->Ok_0),
                        ));
                    } else {
                        assert(chain_view(frames@) =~= chain);
                    }
                },
                FramePlace::Shared(slot) => {
                    let frame = frame_at(place, old(stack_frame)@, chain, shared);
                    if result is Ok {
                        assert(shared_view(continuation_store.frames@) =~= shared.update(
                            slot as int,
                            frame.stored(below, written)->Ok_0,
                        ));
                    } else {
                        assert(shared_view(continuation_store.frames@) =~= shared);
                    }
                },
            }
        }
        result
    }

    /// Moves the frame on to the next instruction.
    fn advance(stack_frame: &mut Frame) -> (result: Result<InstructionResult, Fault>)
        ensures
            went_on(old(stack_frame)@, final(stack_frame)@, result, advanced(old(stack_frame)@)),
    {
        if stack_frame.get_program_counter() == usize::MAX {
            return Err(Fault::InvalidJump);
        }
        stack_frame.increment_program_counter();
        Ok(InstructionResult::Continue)
    }

    /// Jumps where the condition holds, and moves on to the next instruction
    /// where it does not.
    ///
    /// A jump to a label, or to a place that no program counter can name,
    /// faults with `InvalidJump`.
    pub fn goto_instruction(
        &mut self,
        stack_frame: &mut Frame,
        in_continuation: bool,
        jump_target: &JumpTarget,
        condition: &Condition,
    ) -> (result: Result<InstructionResult, Fault>)
        ensures
            final(self)@ == old(self)@,
            went_on(
                old(stack_frame)@,
                final(stack_frame)@,
                result,
                if old(self)@.holds(*condition, in_continuation) {
                    jumped(old(stack_frame)@, *jump_target)
                } else {
                    advanced(old(stack_frame)@)
                },
            ),
    {
        if self.can_jump(condition, in_continuation) {
            match jump_target {
                JumpTarget::Label(_) => Err(Fault::InvalidJump),
                JumpTarget::Relative(offset) => {
                    let program_counter = stack_frame.get_program_counter();
                    if *offset >= 0 {
                        if (*offset as usize) <= usize::MAX - program_counter {
                            stack_frame.set_program_counter(program_counter + (*offset as usize));
                            Ok(InstructionResult::Continue)
                        } else {
                            Err(Fault::InvalidJump)
                        }
                    } else {
                        let back: usize = if *offset == isize::MIN {
                            (isize::MAX as usize) + 1
                        } else {
                            (-*offset) as usize
                        };
                        if back <= program_counter {
                            stack_frame.set_program_counter(program_counter - back);
                            Ok(InstructionResult::Continue)
                        } else {
                            Err(Fault::InvalidJump)
                        }
                    }
                },
                JumpTarget::Absolute(address) => {
                    stack_frame.set_program_counter(*address);
                    Ok(InstructionResult::Continue)
                },
            }
        } else {
            Core::advance(stack_frame)
        }
    }

    /// Tells the driver to leave the frame where the condition holds, and
    /// moves on to the next instruction where it does not. A return that is
    /// taken leaves the program counter where it is.
    pub fn return_instruction(
        &mut self,
        stack_frame: &mut Frame,
        in_continuation: bool,
        condition: &Condition,
    ) -> (result: Result<InstructionResult, Fault>)
        ensures
            final(self)@ == old(self)@,
            if old(self)@.holds(*condition, in_continuation) {
                result matches Ok(InstructionResult::Return) && final(stack_frame)@ == old(stack_frame)@
            } else {
                went_on(
                    old(stack_frame)@,
                    final(stack_frame)@,
                    result,
                    advanced(old(stack_frame)@),
                )
            },
    {
        if self.can_jump(condition, in_continuation) {
            return Ok(InstructionResult::Return);
        }
        Core::advance(stack_frame)
    }

    /// Moves the caller past the call and, where the condition holds, hands
    /// the driver what to enter: the function at a path with a fresh frame at
    /// its first instruction, or the stored continuation whose index the
    /// source holds.
    ///
    /// A path without a function faults with `FunctionNotFound`, an index
    /// without a continuation with `ContinuationNotFound`, a source that holds
    /// no index with `InvalidOperation`, a reserved target with
    /// `InvalidInstruction`: all of them with the caller already past the call.
    pub fn call_instruction(
        &mut self,
        stack_frame: &mut Frame,
        in_continuation: bool,
        module: &Module,
        continuation_store: &ContinuationStore,
        call_target: &CallTarget,
        condition: &Condition,
    ) -> (result: Result<InstructionResult, Fault>)
        ensures
            final(self)@ == old(self)@,
            match advanced(old(stack_frame)@) {
                Err(expected) => {
                    &&& result matches Err(fault)
                    &&& fault@ == expected
                    &&& final(stack_frame)@ == old(stack_frame)@
                },
                Ok(frame) => {
                    &&& final(stack_frame)@ == frame
                    &&& if old(self)@.holds(*condition, in_continuation) {
                        called(
                            old(self)@,
                            module,
                            continuation_store.continuations@,
                            *call_target,
                            result,
                        )
                    } else {
                        result matches Ok(InstructionResult::Continue)
                    }
                },
            },
    {
        Core::advance(stack_frame)?;
        if !self.can_jump(condition, in_continuation) {
            return Ok(InstructionResult::Continue);
        }
        match call_target {
            CallTarget::Label(path) => {
                match module.get_function(path) {
                    Some(function) => {
                        let instructions = function.get_instructions();
                        let new_stack_frame = Frame::new(path.clone(), instructions);
                        Ok(InstructionResult::Call(function, new_stack_frame))
                    },
                    None => Err(Fault::FunctionNotFound(path.clone())),
                }
            },
            CallTarget::Continuation(source) => {
                let value = self.get_value(source)?;
                match value.to_usize() {
                    None => Err(
                        Fault::InvalidOperation(
                            String::from_str("the operand is no index of a continuation"),
                        ),
                    ),
                    Some(index) => match continuation_store.get(index) {
                        Some(continuation) => Ok(InstructionResult::CallContinuation(continuation)),
                        None => Err(Fault::ContinuationNotFound(index as u64)),
                    },
                }
            },
            CallTarget::Vtable(_, _) => Err(Fault::InvalidInstruction),
            CallTarget::Closure(_) => Err(Fault::InvalidInstruction),
        }
    }

    /// Pushes the source onto the frame's stack.
    pub fn push_instruction(&mut self, stack_frame: &mut Frame, source: &Source) -> (result: Result<
        (),
        Fault,
    >)
        ensures
            final(self)@ == old(self)@,
            match old(self)@.read(*source) {
                Err(expected) => {
                    &&& result matches Err(fault)
                    &&& fault@ == expected
                    &&& final(stack_frame)@ == old(stack_frame)@
                },
                Ok(value) => crate::stack_frame::frame::frame_step(
                    old(stack_frame)@,
                    final(stack_frame)@,
                    result,
                    old(stack_frame)@.pushed(value),
                ),
            },
    {
        let value = self.get_value(source)?;
        stack_frame.push(value)
    }

    /// The core and the frame after a pop into `target`: a value of the
    /// target's type is popped from the frame and written into the target's
    /// register.
    pub open spec fn popped_into(core: CoreView, frame: FrameView, target: Target) -> Result<
        (CoreView, FrameView),
        FaultView,
    > {
        if target.0 >= core.registers.len() {
            Err(FaultView::InvalidRegister)
        } else {
            match frame.popped(target.1.value_type()) {
                Err(fault) => Err(fault),
                Ok((popped, value)) => match core.write(target, value) {
                    Err(fault) => Err(fault),
                    Ok(written) => Ok((written, popped)),
                },
            }
        }
    }

    /// Pops a value of the target's type from the frame's stack into the
    /// target.
    pub fn pop_instruction(&mut self, stack_frame: &mut Frame, target: &Target) -> (result: Result<
        (),
        Fault,
    >)
        ensures
            match Core::popped_into(old(self)@, old(stack_frame)@, *target) {
                Err(expected) => {
                    &&& result matches Err(fault)
                    &&& fault@ == expected
                    &&& final(stack_frame)@ == old(stack_frame)@
                    &&& final(self)@ == old(self)@
                },
                Ok((core, frame)) => {
                    &&& result is Ok
                    &&& final(self)@ == core
                    &&& final(stack_frame)@ == frame
                },
            },
    {
        if target.0 >= REGISTER_COUNT {
            return Err(Fault::InvalidRegister);
        }
        let value = stack_frame.pop(target.get_type().to_value_type())?;
        self.set_value(target, value)
    }

    /// Writes into the target, as a `MemoryRef`, the handle that stands for
    /// the string at `table_index` of the table at `path`.
    ///
    /// A string that is not interned faults with `InvalidReference`.
    pub fn get_string_ref_instruction(
        &mut self,
        target: &Target,
        path: &StringTablePath,
        table_index: u64,
        memory: &Memory,
    ) -> (result: Result<(), Fault>)
        ensures
            crate::machine::processor::core_step(
                old(self)@,
                final(self)@,
                result,
                string_referenced(old(self)@, memory, *target, path@, table_index),
            ),
    {
        match memory.get_string_ref_from_path(path, table_index)? {
            Value::MemoryRef(index) => self.set_value(target, Value::MemoryRef(index)),
            _ => Err(Fault::InvalidReference),
        }
    }

    /// Allocates a list of as many elements as the source says, each the
    /// zero of the source's type, and writes its handle into the target as a
    /// `MemoryRef`.
    ///
    /// A size that is no length faults with `InvalidOperation`; an allocation
    /// that fails faults with `MemoryError`. A fault changes nothing.
    pub fn create_list_instruction(&mut self, target: &Target, size: &Source, memory: &mut Memory)
        -> (result: Result<(), Fault>)
        ensures
            list_created(
                old(self)@,
                final(self)@,
                old(memory),
                final(memory),
                *target,
                *size,
                result,
            ),
    {
        let length = self.get_value(size)?;
        if target.0 >= REGISTER_COUNT {
            return Err(Fault::InvalidRegister);
        }
        let count = match length.to_usize() {
            Some(count) => count,
            None => {
                return Err(Fault::InvalidOperation(String::from_str("the size is no length")));
            },
        };
        let list = memory.allocate_list(count, length.get_type())?;
        self.set_value(target, list)
    }

    /// Writes the length of a list into the target, as a `U64`. The source
    /// must hold the list's handle as a `MemoryRef`, else the instruction
    /// faults with `InvalidReference`.
    pub fn list_length_instruction(&mut self, target: &Target, list: &Source, memory: &Memory) -> (result:
        Result<(), Fault>)
        ensures
            crate::machine::processor::core_step(
                old(self)@,
                final(self)@,
                result,
                list_measured(old(self)@, memory, *target, *list),
            ),
    {
        let handle = self.get_value(list)?;
        let length = match handle {
            Value::MemoryRef(reference) => memory.get_list_length(reference)?,
            _ => {
                return Err(Fault::InvalidReference);
            },
        };
        self.set_value(target, length)
    }

    /// Reads an element of a list into the target. The sources must hold the
    /// list's handle and the index as `U64`, else the instruction faults with
    /// `InvalidReference`.
    pub fn list_access_instruction(
        &mut self,
        target: &Target,
        list: &Source,
        index: &Source,
        memory: &Memory,
    ) -> (result: Result<(), Fault>)
        ensures
            crate::machine::processor::core_step(
                old(self)@,
                final(self)@,
                result,
                list_accessed(old(self)@, memory, *target, *list, *index),
            ),
    {
        let handle = self.get_value(list)?;
        let position = self.get_value(index)?;
        let element = match (handle, position) {
            (Value::U64(reference), Value::U64(at)) => memory.access_list(reference, at)?,
            _ => {
                return Err(Fault::InvalidReference);
            },
        };
        self.set_value(target, element)
    }

    /// Writes an element of a list. The sources must hold the list's handle
    /// and the index as `U64`, else the instruction faults with
    /// `InvalidReference`. A fault changes nothing.
    pub fn list_store_instruction(
        &mut self,
        list: &Source,
        index: &Source,
        value: &Source,
        memory: &mut Memory,
    ) -> (result: Result<(), Fault>)
        ensures
            final(self)@ == old(self)@,
            list_stored(old(self)@, old(memory), final(memory), *list, *index, *value, result),
    {
        let handle = self.get_value(list)?;
        let position = self.get_value(index)?;
        let element = self.get_value(value)?;
        match (handle, position) {
            (Value::U64(reference), Value::U64(at)) => memory.store_list(reference, at, element),
            _ => Err(Fault::InvalidReference),
        }
    }

    /// Stores a continuation of the live frame and writes its index into the
    /// target, as a `U64`.
    ///
    /// Of a plain frame the continuation refers to a copy of the frame as it
    /// is, in a slot of its own, and starts at the frame's program counter.
    /// Of a frame that is itself a continuation it is that continuation again.
    pub fn create_continuation_instruction(
        &mut self,
        target: &Target,
        stack_frame: &Frame,
        continuation: Option<DelimitedContinuation>,
        continuation_store: &mut ContinuationStore,
    ) -> (result: Result<(), Fault>)
        ensures
            continuation_created(
                old(self)@,
                final(self)@,
                stack_frame@,
                continuation,
                old(continuation_store),
                final(continuation_store),
                *target,
                result,
            ),
    {
        if target.0 >= REGISTER_COUNT {
            return Err(Fault::InvalidRegister);
        }
        let stored = match continuation {
            Some(live) => live,
            None => stack_frame.make_continuation(continuation_store),
        };
        let index = continuation_store.continuations.len();
        let ghost shared = shared_view(continuation_store.frames@);
        continuation_store.store(stored);
        proof {
            let before = old(continuation_store).continuations@;
            assert(continuation_store.continuations@.drop_last() =~= before);
            assert(shared_view(continuation_store.frames@) =~= shared);
        }
        self.set_value(target, Value::U64(index as u64))
    }

    /// Ends an instruction that is no jump, call or return: where it
    /// succeeded, the frame moves on and the driver is told to go on.
    fn finish(stack_frame: &mut Frame, step: Result<(), Fault>) -> (result: Result<
        InstructionResult,
        Fault,
    >)
        requires
            old(stack_frame)@.program_counter < usize::MAX,
        ensures
            plain(result) == step,
            moved_on(old(stack_frame)@, final(stack_frame)@, result),
    {
        match step {
            Ok(done) => {
                assert(done == ());
                stack_frame.increment_program_counter();
                Ok(InstructionResult::Continue)
            },
            Err(fault) => Err(fault),
        }
    }

    /// Executes the instruction at the live frame's program counter.
    ///
    /// An instruction that is no jump, call or return leaves the program
    /// counter at the next instruction and tells the driver to go on; a jump,
    /// a call and a return set the program counter and the result
    /// themselves. A fault leaves everything as it was, but for a call, which
    /// has then moved past itself. A program counter past the last
    /// instruction, and a reserved instruction, fault with
    /// `InvalidInstruction`.
    ///
    /// `continuation` is the continuation whose frame the live frame is,
    /// where it is one; `frames` is the chain of its parents, the most recent
    /// last.
    #[verifier::rlimit(100)]
    pub fn execute_instruction(
        &mut self,
        stack_frame: &mut Frame,
        continuation: Option<DelimitedContinuation>,
        module: &Module,
        frames: &mut Vec<ActiveFrame>,
        memory: &mut Memory,
        continuation_store: &mut ContinuationStore,
    ) -> (result: Result<InstructionResult, Fault>)
        ensures
            executed(
                old(stack_frame)@.instruction(),
                continuation,
                module,
                old(self)@,
                final(self)@,
                old(stack_frame)@,
                final(stack_frame)@,
                chain_view(old(frames)@),
                chain_view(final(frames)@),
                old(continuation_store),
                final(continuation_store),
                old(memory),
                final(memory),
                result,
            ),
    {
        let code = stack_frame.get_instructions();
        let program_counter = stack_frame.get_program_counter();
        if program_counter >= code.len() {
            return Err(Fault::InvalidInstruction);
        }
        let in_continuation = continuation.is_some();
        match &code[program_counter] {
            Instruction::Halt => Ok(InstructionResult::Stop),
            Instruction::NoOp => Core::finish(stack_frame, Ok(())),
            Instruction::Load(target, source) => {
                let step = self.load_instruction(target, source);
                Core::finish(stack_frame, step)
            },
            Instruction::Add(target, source, can_wrap, use_carry) => {
                let step = self.add_instruction(target, source, *can_wrap, *use_carry);
                Core::finish(stack_frame, step)
            },
            Instruction::Sub(target, source, can_wrap, use_carry) => {
                let step = self.sub_instruction(target, source, *can_wrap, *use_carry);
                Core::finish(stack_frame, step)
            },
            Instruction::Mul(target, source, can_wrap) => {
                let step = self.mul_instruction(target, source, *can_wrap);
                Core::finish(stack_frame, step)
            },
            Instruction::Div(target, source, can_wrap) => {
                let step = self.div_instruction(target, source, *can_wrap);
                Core::finish(stack_frame, step)
            },
            Instruction::Mod(target, source, can_wrap) => {
                let step = self.mod_instruction(target, source, *can_wrap);
                Core::finish(stack_frame, step)
            },
            Instruction::And(target, source) => {
                let step = self.and_instruction(target, source);
                Core::finish(stack_frame, step)
            },
            Instruction::Or(target, source) => {
                let step = self.or_instruction(target, source);
                Core::finish(stack_frame, step)
            },
            Instruction::Xor(target, source) => {
                let step = self.xor_instruction(target, source);
                Core::finish(stack_frame, step)
            },
            Instruction::Not(target) => {
                let step = self.not_instruction(target);
                Core::finish(stack_frame, step)
            },
            Instruction::ShiftLeft(target, source) => {
                let step = self.shift_left_instruction(target, source);
                Core::finish(stack_frame, step)
            },
            Instruction::ShiftRight(target, source) => {
                let step = self.shift_right_instruction(target, source);
                Core::finish(stack_frame, step)
            },
            Instruction::Goto(jump_target, condition) => {
                self.goto_instruction(stack_frame, in_continuation, jump_target, condition)
            },
            Instruction::Compare(target, source, comparison_type) => {
                let step = self.compare_instruction(target, source, comparison_type);
                Core::finish(stack_frame, step)
            },
            Instruction::Return(condition) => {
                self.return_instruction(stack_frame, in_continuation, condition)
            },
            Instruction::Call(call_target, condition) => {
                self.call_instruction(
                    stack_frame,
                    in_continuation,
                    module,
                    continuation_store,
                    call_target,
                    condition,
                )
            },
            Instruction::StackDeref(target, stack_level, offset) => {
                let step = self.stack_dereference_instruction(
                    target,
                    stack_level,
                    offset,
                    stack_frame,
                    continuation,
                    frames,
                    continuation_store,
                );
                Core::finish(stack_frame, step)
            },
            Instruction::StackStore(stack_level, offset, value) => {
                let step = self.stack_store_instruction(
                    stack_level,
                    offset,
                    value,
                    stack_frame,
                    continuation,
                    frames,
                    continuation_store,
                );
                Core::finish(stack_frame, step)
            },
            Instruction::Push(source) => {
                let step = self.push_instruction(stack_frame, source);
                Core::finish(stack_frame, step)
            },
            Instruction::Pop(target) => {
                let step = self.pop_instruction(stack_frame, target);
                Core::finish(stack_frame, step)
            },
            Instruction::CreateContinuation(target) => {
                let step = self.create_continuation_instruction(
                    target,
                    stack_frame,
                    continuation,
                    continuation_store,
                );
                Core::finish(stack_frame, step)
            },
            Instruction::GetStringRef(target, path, index) => {
                let step = self.get_string_ref_instruction(target, path, *index, memory);
                Core::finish(stack_frame, step)
            },
            Instruction::CreateList(target, size) => {
                let step = self.create_list_instruction(target, size, memory);
                Core::finish(stack_frame, step)
            },
            Instruction::ListLength(target, list) => {
                let step = self.list_length_instruction(target, list, memory);
                Core::finish(stack_frame, step)
            },
            Instruction::ListAccess(target, list, index) => {
                let step = self.list_access_instruction(target, list, index, memory);
                Core::finish(stack_frame, step)
            },
            Instruction::ListStore(list, index, value) => {
                let step = self.list_store_instruction(list, index, value, memory);
                Core::finish(stack_frame, step)
            },
            Instruction::Store(_, _, _) => Err(Fault::InvalidInstruction),
            Instruction::CreateObject(_) => Err(Fault::InvalidInstruction),
        }
    }
}

} // verus!
