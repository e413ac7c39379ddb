//! The call driver: it owns the live frame and the chain of its parents,
//! has the core execute one instruction at a time, and reacts to what the
//! instruction asks for.
//!
//! The driver never runs a native function itself. It hands the number of
//! the function to its host, which runs it and hands back what it returned.

use crate::backtrace::BacktraceEntry;
use crate::backtrace::BacktraceEntryView;
use crate::backtrace::BacktraceInfo;
use crate::machine::processor::Core;
use crate::machine::processor::CoreView;
use crate::instruction::Instruction;
use crate::machine::stepping::continuation_created;
use crate::machine::stepping::executed;
use crate::machine::stepping::frame_place;
use crate::machine::stepping::stored_at;
use crate::machine::stepping::FramePlace;
use crate::machine::Fault;
use crate::machine::FaultView;
use crate::machine::InstructionResult;
use crate::machine::Register;
use crate::memory::Memory;
use crate::program::function::Function;
use crate::program::function::FunctionPath;
use crate::program::Module;
use crate::stack_frame::chain_view;
use crate::stack_frame::delimited_continuation::ContinuationStore;
use crate::stack_frame::delimited_continuation::DelimitedContinuation;
use crate::stack_frame::frame::register_values;
use crate::stack_frame::frame::restored_registers;
use crate::stack_frame::frame::Frame;
use crate::stack_frame::frame::FrameView;
use crate::stack_frame::shared_view;
use crate::stack_frame::ActiveFrame;
use crate::stack_frame::ActiveFrameView;
use crate::stack_frame::FIRST_SAVED_REGISTER;
use crate::stack_frame::REGISTER_COUNT;
use crate::value::Value;
use std::sync::Arc;
use vstd::prelude::*;

verus! {

/// How a program ended.
#[derive(Debug)]
pub enum Completion {
    /// The outermost frame returned.
    Returned,
    /// A halt instruction, or a native function, stopped the program.
    Stopped,
    /// An effect escaped the outermost frame without being caught.
    Unwound(String),
}

/// What the driver tells its host after a step.
#[derive(Debug)]
pub enum DriverStatus {
    /// The program goes on with the next instruction.
    Running,
    /// The host has to run the native function of this number and hand what
    /// it returned to `call_native_function`.
    CallNative(u64),
    /// The program has ended.
    Done(Completion),
}

/// How a program ended, as plain values.
pub enum CompletionView {
    Returned,
    Stopped,
    Unwound(Seq<char>),
}

/// What the driver tells its host, as plain values.
pub enum StatusView {
    Running,
    CallNative(u64),
    Done(CompletionView),
}

impl View for DriverStatus {
    type V = StatusView;

    open spec fn view(&self) -> StatusView {
        match *self {
            DriverStatus::Running => StatusView::Running,
            DriverStatus::CallNative(number) => StatusView::CallNative(number),
            DriverStatus::Done(Completion::Returned) => StatusView::Done(CompletionView::Returned),
            DriverStatus::Done(Completion::Stopped) => StatusView::Done(CompletionView::Stopped),
            DriverStatus::Done(Completion::Unwound(effect)) => StatusView::Done(
                CompletionView::Unwound(effect@),
            ),
        }
    }
}

/// What an instruction asks of the driver, as plain values.
pub enum ResultView {
    Stop,
    Continue,
    Return,
    Unwind(Seq<char>),
    Call(Function, FrameView),
    CallContinuation(DelimitedContinuation),
}

impl View for InstructionResult {
    type V = ResultView;

    open spec fn view(&self) -> ResultView {
        match *self {
            InstructionResult::Stop => ResultView::Stop,
            InstructionResult::Continue => ResultView::Continue,
            InstructionResult::Return => ResultView::Return,
            InstructionResult::Unwind(effect) => ResultView::Unwind(effect@),
            InstructionResult::Call(function, frame) => ResultView::Call(function, frame@),
            InstructionResult::CallContinuation(continuation) => ResultView::CallContinuation(
                continuation,
            ),
        }
    }
}

/// The frames of a program that is under way.
#[derive(Debug)]
pub struct Driver {
    /// The live frame.
    pub stack_frame: Frame,
    /// The continuation whose frame the live frame is, where it is one. Its
    /// slot in the continuation store holds a vacant frame meanwhile.
    pub continuation: Option<DelimitedContinuation>,
    /// The parents of the live frame, the most recent last.
    pub frames: Vec<ActiveFrame>,
    /// The registers as they were when each frame was entered: those of the
    /// parents in the order of the chain, then those of the live frame.
    pub saved_registers: Vec<[Register; REGISTER_COUNT]>,
    /// The stored continuations and the frames that they share.
    pub continuation_store: ContinuationStore,
    /// The number of the native function that the live frame stands for,
    /// while the host runs it.
    pub native: Option<u64>,
}

/// What a driver is, as plain values.
pub struct DriverView {
    pub live: FrameView,
    pub continuation: Option<DelimitedContinuation>,
    pub frames: Seq<ActiveFrameView>,
    pub saved: Seq<Seq<Value>>,
    pub shared: Seq<FrameView>,
    pub continuations: Seq<DelimitedContinuation>,
    pub native: Option<u64>,
}

impl View for Driver {
    type V = DriverView;

    open spec fn view(&self) -> DriverView {
        DriverView {
            live: self.stack_frame@,
            continuation: self.continuation,
            frames: chain_view(self.frames@),
            saved: self.saved_registers@.map_values(
                |registers: [Register; 32]| register_values(registers@),
            ),
            shared: shared_view(self.continuation_store.frames@),
            continuations: self.continuation_store.continuations@,
            native: self.native,
        }
    }
}

/// The frame that stands in the slot of a shared frame while that frame is live.
pub open spec fn vacant() -> FrameView {
    FrameView {
        function_name: Seq::empty(),
        instructions: Seq::empty(),
        program_counter: 0,
        stack: Seq::empty(),
        stack_pointer: 0,
        call_backup: None,
        gc_backup: None,
        return_address: None,
    }
}

/// The call site of a function that is entered.
pub open spec fn site(function_name: Seq<Seq<char>>) -> BacktraceEntryView {
    BacktraceEntryView { function_name, line: None, column: None }
}

impl DriverView {
    /// Whether the driver can take a step: every frame has its saved
    /// registers, and every continuation among the frames has its slot.
    pub open spec fn well_formed(self) -> bool {
        &&& self.saved.len() == self.frames.len() + 1
        &&& forall|i: int| 0 <= i < self.saved.len() ==> (#[trigger] self.saved[i]).len() == 32
        &&& forall|i: int|
            0 <= i < self.frames.len() ==> (#[trigger] self.frames[i]
                matches ActiveFrameView::Continuation(parent) ==> parent.frame_slot()
                < self.shared.len())
        &&& self.continuation matches Some(live) ==> live.frame_slot() < self.shared.len()
        &&& self.native is Some ==> self.continuation is None
    }

    /// The shared frames once the live frame is back in its slot, where it
    /// is the frame of a continuation.
    pub open spec fn put_back(self) -> Seq<FrameView> {
        match self.continuation {
            Some(live) => self.shared.update(live.frame_slot() as int, self.live),
            None => self.shared,
        }
    }

    /// The live frame as a parent.
    pub open spec fn as_parent(self) -> ActiveFrameView {
        match self.continuation {
            Some(live) => ActiveFrameView::Continuation(live),
            None => ActiveFrameView::Plain(self.live),
        }
    }
}

/// The state that the driver works on, as plain values: the core, the
/// frames, and the trace.
pub struct EngineView {
    pub core: CoreView,
    pub driver: DriverView,
    pub sites: Seq<BacktraceEntryView>,
    pub unwind_levels: nat,
}

/// The sites of a trace without the last `count` of them, or without any
/// where it has no more.
pub open spec fn popped_sites(sites: Seq<BacktraceEntryView>, count: nat) -> Seq<BacktraceEntryView> {
    if count >= sites.len() {
        Seq::empty()
    } else {
        sites.take(sites.len() - count)
    }
}

/// What leaving the live frame comes to: a return, or the end of a native
/// function.
///
/// The registers from the eighth on are as they were when the frame was
/// entered, and the innermost call site is off the trace. A live frame that
/// is the frame of a continuation is back in its slot. Then the most recent
/// parent is the live frame, or, where there is no parent, the program has
/// returned.
pub open spec fn left(before: EngineView, after: EngineView, status: StatusView) -> bool {
    let driver = before.driver;
    &&& after.core == (CoreView {
        registers: restored_registers(before.core.registers, Some(driver.saved.last())),
        ..before.core
    })
    &&& after.sites == popped_sites(before.sites, 1)
    &&& after.unwind_levels == before.unwind_levels
    &&& after.driver.continuations == driver.continuations
    &&& after.driver.saved == driver.saved.drop_last()
    &&& after.driver.native is None
    &&& if driver.frames.len() == 0 {
        &&& status == StatusView::Done(CompletionView::Returned)
        &&& after.driver.frames.len() == 0
        &&& after.driver.shared == driver.put_back()
    } else {
        &&& status == StatusView::Running
        &&& after.driver.frames == driver.frames.drop_last()
        &&& match driver.frames.last() {
            ActiveFrameView::Plain(parent) => {
                &&& after.driver.live == parent
                &&& after.driver.continuation is None
                &&& after.driver.shared == driver.put_back()
            },
            ActiveFrameView::Continuation(parent) => {
                &&& after.driver.live == driver.put_back()[parent.frame_slot() as int]
                &&& after.driver.continuation == Some(parent)
                &&& after.driver.shared == driver.put_back().update(
                    parent.frame_slot() as int,
                    vacant(),
                )
            },
        }
    }
}

/// What ending the program from inside comes to, by a stop or by an effect
/// that nothing catches.
///
/// Every frame is left, the innermost first, so that the registers from the
/// eighth on are as they were when the outermost frame was entered. A live
/// frame that is the frame of a continuation is back in its slot. A stop
/// takes the call site of every frame off the trace; an effect leaves the
/// trace as it is and counts every frame as unwound.
pub open spec fn ended(
    before: EngineView,
    after: EngineView,
    status: StatusView,
    completion: CompletionView,
) -> bool {
    let driver = before.driver;
    let depth = (driver.frames.len() + 1) as nat;
    &&& status == StatusView::Done(completion)
    &&& after.core == (CoreView {
        registers: restored_registers(before.core.registers, Some(driver.saved[0])),
        ..before.core
    })
    &&& after.driver.continuations == driver.continuations
    &&& after.driver.saved.len() == 0
    &&& after.driver.frames.len() == 0
    &&& after.driver.native is None
    &&& after.driver.shared == driver.put_back()
    &&& if completion is Unwound {
        &&& after.sites == before.sites
        &&& after.unwind_levels == if before.unwind_levels + depth > usize::MAX {
            usize::MAX as nat
        } else {
            before.unwind_levels + depth
        }
    } else {
        &&& after.sites == popped_sites(before.sites, depth)
        &&& after.unwind_levels == before.unwind_levels
    }
}

/// What entering a function comes to.
///
/// The trace has the call site of the function, the live frame is the most
/// recent parent, and the new live frame is the given one with the registers
/// saved in it as they are. Of a native function the host is told the
/// number.
pub open spec fn entered(
    before: EngineView,
    function: Function,
    frame: FrameView,
    after: EngineView,
    status: StatusView,
) -> bool {
    let driver = before.driver;
    &&& after.core == before.core
    &&& after.sites == before.sites.push(site(frame.function_name))
    &&& after.unwind_levels == before.unwind_levels
    &&& after.driver == (DriverView {
        live: FrameView { call_backup: Some(before.core.registers), ..frame },
        continuation: None,
        frames: driver.frames.push(driver.as_parent()),
        saved: driver.saved.push(before.core.registers),
        shared: driver.put_back(),
        continuations: driver.continuations,
        native: match function {
            Function::Native(number) => Some(number),
            Function::ByteCode(_) => None,
        },
    })
    &&& status == match function {
        Function::Native(number) => StatusView::CallNative(number),
        Function::ByteCode(_) => StatusView::Running,
    }
}

/// What invoking a continuation comes to.
///
/// The live frame is the most recent parent. The new live frame is the
/// shared frame of the continuation as it was left, at the start that the
/// continuation recorded and with the registers saved in it as they are; its
/// slot holds a vacant frame meanwhile. The trace has the call site of the
/// frame's function. A continuation whose slot the store does not hold is
/// not found, and nothing changes.
pub open spec fn resumed(
    before: EngineView,
    continuation: DelimitedContinuation,
    after: EngineView,
    outcome: Result<StatusView, FaultView>,
) -> bool {
    let driver = before.driver;
    let slot = continuation.frame_slot() as int;
    if slot >= driver.shared.len() {
        after == before && outcome == Err::<StatusView, FaultView>(
            FaultView::ContinuationNotFound(continuation.frame_slot() as u64),
        )
    } else {
        let frame = driver.put_back()[slot];
        &&& outcome == Ok::<StatusView, FaultView>(StatusView::Running)
        &&& after.core == before.core
        &&& after.sites == before.sites.push(site(frame.function_name))
        &&& after.unwind_levels == before.unwind_levels
        &&& after.driver == (DriverView {
            live: FrameView {
                program_counter: continuation.start(),
                call_backup: Some(before.core.registers),
                ..frame
            },
            continuation: Some(continuation),
            frames: driver.frames.push(driver.as_parent()),
            saved: driver.saved.push(before.core.registers),
            shared: driver.put_back().update(slot, vacant()),
            continuations: driver.continuations,
            native: None,
        })
    }
}

/// A continuation that was created of a plain frame and is invoked next
/// runs a frame that is as the frame was when the continuation was created:
/// the same function and instructions, the same stack and stack pointer, and
/// the program counter that the frame was at. The registers are saved in it
/// as they are when it is invoked.
pub proof fn lemma_continuation_resumes_capture(
    core: CoreView,
    core_after: CoreView,
    live: FrameView,
    store: &ContinuationStore,
    store_after: &ContinuationStore,
    target: crate::instruction::Target,
    before: EngineView,
    after: EngineView,
    outcome: Result<StatusView, FaultView>,
)
    requires
        continuation_created(core, core_after, live, None, store, store_after, target, Ok(())),
        before.driver.shared == shared_view(store_after.frames@),
        before.driver.continuations == store_after.continuations@,
        before.driver.continuation is None,
        resumed(before, store_after.continuations@.last(), after, outcome),
    ensures
        outcome == Ok::<StatusView, FaultView>(StatusView::Running),
        after.driver.continuation == Some(store_after.continuations@.last()),
        after.driver.live == (FrameView { call_backup: Some(before.core.registers), ..live }),
{
}

/// A continuation that is invoked again after its frame was left runs the
/// frame as it was left, from the start that the continuation recorded: what
/// an invocation changed in the frame is there for the next one.
pub proof fn lemma_continuation_keeps_changes(
    first: EngineView,
    second: EngineView,
    third: EngineView,
    status: StatusView,
    outcome: Result<StatusView, FaultView>,
)
    requires
        first.driver.well_formed(),
        first.driver.continuation is Some,
        first.driver.frames.len() > 0,
        first.driver.frames.last() is Plain,
        left(first, second, status),
        resumed(second, first.driver.continuation->Some_0, third, outcome),
    ensures
        outcome == Ok::<StatusView, FaultView>(StatusView::Running),
        third.driver.live == (FrameView {
            program_counter: first.driver.continuation->Some_0.start(),
            call_backup: Some(second.core.registers),
            ..first.driver.live
        }),
{
}

/// What the driver's reaction to the result of an instruction comes to.
pub open spec fn reacted(
    before: EngineView,
    result: ResultView,
    after: EngineView,
    outcome: Result<StatusView, FaultView>,
) -> bool {
    match result {
        ResultView::Continue => after == before && outcome == Ok::<StatusView, FaultView>(
            StatusView::Running,
        ),
        ResultView::Return => outcome matches Ok(status) && left(before, after, status),
        ResultView::Stop => outcome matches Ok(status) && ended(
            before,
            after,
            status,
            CompletionView::Stopped,
        ),
        ResultView::Unwind(effect) => outcome matches Ok(status) && ended(
            before,
            after,
            status,
            CompletionView::Unwound(effect),
        ),
        ResultView::Call(function, frame) => outcome matches Ok(status) && entered(
            before,
            function,
            frame,
            after,
            status,
        ),
        ResultView::CallContinuation(continuation) => resumed(
            before,
            continuation,
            after,
            outcome,
        ),
    }
}

/// What the driver's reaction to the end of a native function comes to. A
/// native function may go on, stop the program or unwind; anything else is
/// an invalid operation, and nothing changes.
pub open spec fn native_returned(
    before: EngineView,
    result: ResultView,
    after: EngineView,
    outcome: Result<StatusView, FaultView>,
) -> bool {
    match result {
        ResultView::Continue => outcome matches Ok(status) && left(before, after, status),
        ResultView::Stop => outcome matches Ok(status) && ended(
            before,
            after,
            status,
            CompletionView::Stopped,
        ),
        ResultView::Unwind(effect) => outcome matches Ok(status) && ended(
            before,
            after,
            status,
            CompletionView::Unwound(effect),
        ),
        _ => after == before && outcome == Err::<StatusView, FaultView>(
            FaultView::InvalidOperation,
        ),
    }
}

/// The state that the driver works on, as plain values.
pub open spec fn engine(core: &Core, driver: &Driver, backtrace: &BacktraceInfo) -> EngineView {
    EngineView {
        core: core@,
        driver: driver@,
        sites: backtrace@.sites(),
        unwind_levels: backtrace@.unwind_levels,
    }
}

/// A result as plain values.
pub open spec fn status_outcome(result: Result<DriverStatus, Fault>) -> Result<
    StatusView,
    FaultView,
> {
    match result {
        Ok(status) => Ok(status@),
        Err(fault) => Err(fault@),
    }
}

/// Gives the registers from the eighth on the saved values.
fn restore(core: &mut Core, saved: &[Register; REGISTER_COUNT])
    ensures
        final(core)@ == (CoreView {
            registers: restored_registers(old(core)@.registers, Some(register_values(saved@))),
            ..old(core)@
        }),
{
    let mut i: usize = FIRST_SAVED_REGISTER;
    while i < REGISTER_COUNT
        invariant
            FIRST_SAVED_REGISTER <= i <= REGISTER_COUNT,
            core.flags == old(core).flags,
            forall|j: int| 0 <= j < FIRST_SAVED_REGISTER ==> core.registers[j] == old(core).registers[j],
            forall|j: int| FIRST_SAVED_REGISTER <= j < i ==> core.registers[j] == saved[j],
        decreases REGISTER_COUNT - i,
    {
        core.registers[i] = saved[i];
        i += 1;
    }
    assert(core@.registers =~= restored_registers(
        old(core)@.registers,
        Some(register_values(saved@)),
    ));
}

/// A frame of no function, to stand in the slot of a shared frame while
/// that frame is live.
fn vacant_frame() -> (frame: Frame)
    ensures
        frame@ == vacant(),
{
    let frame = Frame::new(FunctionPath::new(Vec::new()), Arc::new(Vec::new()));
    assert(frame@.function_name =~= Seq::<Seq<char>>::empty());
    assert(frame@.instructions =~= Seq::<crate::instruction::Instruction>::empty());
    frame
}

impl Driver {
    /// Puts the live frame back into its slot, where it is the frame of a
    /// continuation, and makes it the most recent parent; `next` is the new
    /// live frame.
    fn suspend(&mut self, next: Frame)
        requires
            old(self)@.well_formed(),
        ensures
            final(self)@ == (DriverView {
                live: next@,
                continuation: None,
                frames: old(self)@.frames.push(old(self)@.as_parent()),
                shared: old(self)@.put_back(),
                ..old(self)@
            }),
    {
        let ghost before = self@;
        match self.continuation {
            Some(live) => {
                std::mem::swap(
                    &mut self.stack_frame,
                    &mut self.continuation_store.frames[live.get_stack_frame()],
                );
                self.frames.push(ActiveFrame::Continuation(live));
                self.stack_frame = next;
                self.continuation = None;
            },
            None => {
                let mut incoming = next;
                std::mem::swap(&mut self.stack_frame, &mut incoming);
                self.frames.push(ActiveFrame::Plain(incoming));
            },
        }
        proof {
            assert(self@.frames =~= before.frames.push(before.as_parent()));
            assert(self@.shared =~= before.put_back());
        }
    }

    /// Makes the shared frame of `continuation` the live frame; its slot
    /// holds a vacant frame meanwhile.
    fn take(&mut self, continuation: DelimitedContinuation)
        requires
            continuation.frame_slot() < old(self)@.shared.len(),
        ensures
            final(self)@ == (DriverView {
                live: old(self)@.shared[continuation.frame_slot() as int],
                continuation: Some(continuation),
                shared: old(self)@.shared.update(continuation.frame_slot() as int, vacant()),
                ..old(self)@
            }),
    {
        let ghost before = self@;
        self.stack_frame = vacant_frame();
        std::mem::swap(
            &mut self.stack_frame,
            &mut self.continuation_store.frames[continuation.get_stack_frame()],
        );
        self.continuation = Some(continuation);
        proof {
            assert(self@.shared =~= before.shared.update(
                continuation.frame_slot() as int,
                vacant(),
            ));
        }
    }

    /// Leaves the live frame: after a return, or after a native function
    /// that goes on.
    pub fn leave(&mut self, core: &mut Core, backtrace: &mut BacktraceInfo) -> (status: DriverStatus)
        requires
            old(self)@.well_formed(),
        ensures
            left(
                engine(old(core), old(self), old(backtrace)),
                engine(final(core), final(self), final(backtrace)),
                status@,
            ),
            status@ is Running ==> final(self)@.well_formed(),
    {
        let ghost before = self@;
        let ghost trace = backtrace@;
        let innermost = self.saved_registers.len() - 1;
        restore(core, &self.saved_registers[innermost]);
        self.saved_registers.pop();
        backtrace.pop();
        self.native = None;
        proof {
            assert(self@.saved =~= before.saved.drop_last());
            assert(backtrace@.sites() =~= popped_sites(trace.sites(), 1));
        }
        match self.continuation {
            Some(live) => {
                std::mem::swap(
                    &mut self.stack_frame,
                    &mut self.continuation_store.frames[live.get_stack_frame()],
                );
                assert(self@.shared =~= before.put_back());
            },
            None => {},
        }
        match self.frames.pop() {
            None => DriverStatus::Done(Completion::Returned),
            Some(ActiveFrame::Plain(parent)) => {
                self.stack_frame = parent;
                self.continuation = None;
                proof {
                    assert(self@.frames =~= before.frames.drop_last());
                }
                DriverStatus::Running
            },
            Some(ActiveFrame::Continuation(parent)) => {
                proof {
                    assert(self@.frames =~= before.frames.drop_last());
                    assert(before.frames[before.frames.len() - 1] == ActiveFrameView::Continuation(
                        parent,
                    ));
                }
                self.take(parent);
                DriverStatus::Running
            },
        }
    }

    /// Ends the program from inside: leaves every frame at once.
    ///
    /// A stop takes the call site of every frame off the trace. An effect
    /// that nothing catches leaves the trace as it is and counts every frame
    /// as unwound.
    pub fn end(
        &mut self,
        core: &mut Core,
        backtrace: &mut BacktraceInfo,
        completion: Completion,
    ) -> (status: DriverStatus)
        requires
            old(self)@.well_formed(),
            !(completion is Returned),
        ensures
            status == DriverStatus::Done(completion),
            ended(
                engine(old(core), old(self), old(backtrace)),
                engine(final(core), final(self), final(backtrace)),
                status@,
                match completion {
                    Completion::Unwound(effect) => CompletionView::Unwound(effect@),
                    _ => CompletionView::Stopped,
                },
            ),
    {
        let ghost before = self@;
        let ghost trace = backtrace@;
        let depth = self.saved_registers.len();
        restore(core, &self.saved_registers[0]);
        match self.continuation {
            Some(live) => {
                std::mem::swap(
                    &mut self.stack_frame,
                    &mut self.continuation_store.frames[live.get_stack_frame()],
                );
                assert(self@.shared =~= before.put_back());
            },
            None => {},
        }
        self.frames.clear();
        self.saved_registers.clear();
        self.native = None;
        let unwound = match &completion {
            Completion::Unwound(_) => true,
            _ => false,
        };
        let levels = backtrace.get_unwind_levels();
        let mut i: usize = 0;
        while i < depth
            invariant
                i <= depth,
                levels == trace.unwind_levels,
                unwound ==> backtrace@.entries == trace.entries,
                unwound ==> backtrace@.unwind_levels == (if trace.unwind_levels + i > usize::MAX {
                    usize::MAX as nat
                } else {
                    trace.unwind_levels + i as nat
                }),
                !unwound ==> backtrace@.unwind_levels == trace.unwind_levels && backtrace@.sites()
                    == popped_sites(trace.sites(), i as nat),
            decreases depth - i,
        {
            if unwound {
                if backtrace.get_unwind_levels() < usize::MAX {
                    backtrace.increment_unwind_levels();
                }
            } else {
                let ghost sites = backtrace@.sites();
                backtrace.pop();
                assert(backtrace@.sites() =~= popped_sites(sites, 1));
                assert(popped_sites(popped_sites(trace.sites(), i as nat), 1) =~= popped_sites(
                    trace.sites(),
                    (i + 1) as nat,
                ));
            }
            i += 1;
        }
        DriverStatus::Done(completion)
    }

    /// Enters a function: the live frame becomes the most recent parent, and
    /// `frame`, with the registers saved in it, the live frame. Of a native
    /// function the host is told the number.
    pub fn enter(
        &mut self,
        core: &Core,
        backtrace: &mut BacktraceInfo,
        function: Function,
        frame: Frame,
    ) -> (status: DriverStatus)
        requires
            old(self)@.well_formed(),
        ensures
            entered(
                engine(core, old(self), old(backtrace)),
                function,
                frame@,
                engine(core, final(self), final(backtrace)),
                status@,
            ),
            final(self)@.well_formed(),
    {
        let ghost before = self@;
        let ghost trace = backtrace@;
        backtrace.push(BacktraceEntry::new(frame.get_function_name(), None, None));
        self.suspend(frame);
        self.stack_frame.backup_registers(&core.registers);
        self.saved_registers.push(core.registers);
        proof {
            assert(backtrace@.sites() =~= trace.sites().push(site(frame@.function_name)));
            assert(self@.saved =~= before.saved.push(core@.registers));
        }
        match function {
            Function::Native(number) => {
                self.native = Some(number);
                DriverStatus::CallNative(number)
            },
            Function::ByteCode(_) => {
                self.native = None;
                DriverStatus::Running
            },
        }
    }

    /// Invokes a continuation: the live frame becomes the most recent
    /// parent, and the shared frame of the continuation the live frame, at
    /// the start that the continuation recorded.
    ///
    /// A continuation whose slot the store does not hold faults with
    /// `ContinuationNotFound`, and nothing changes.
    pub fn resume(
        &mut self,
        core: &Core,
        backtrace: &mut BacktraceInfo,
        continuation: DelimitedContinuation,
    ) -> (result: Result<DriverStatus, Fault>)
        requires
            old(self)@.well_formed(),
        ensures
            resumed(
                engine(core, old(self), old(backtrace)),
                continuation,
                engine(core, final(self), final(backtrace)),
                status_outcome(result),
            ),
            final(self)@.well_formed(),
    {
        let ghost before = self@;
        let ghost trace = backtrace@;
        let slot = continuation.get_stack_frame();
        if slot >= self.continuation_store.frames.len() {
            return Err(Fault::ContinuationNotFound(slot as u64));
        }
        self.suspend(vacant_frame());
        self.take(continuation);
        backtrace.push(BacktraceEntry::new(self.stack_frame.get_function_name(), None, None));
        self.stack_frame.set_program_counter(continuation.get_start_program_counter());
        self.stack_frame.backup_registers(&core.registers);
        self.saved_registers.push(core.registers);
        self.native = None;
        proof {
            let frame = before.put_back()[slot as int];
            assert(backtrace@.sites() =~= trace.sites().push(site(frame.function_name)));
            assert(self@.saved =~= before.saved.push(core@.registers));
        }
        Ok(DriverStatus::Running)
    }

    /// Reacts to what an instruction asked for.
    pub fn react(
        &mut self,
        core: &mut Core,
        backtrace: &mut BacktraceInfo,
        result: InstructionResult,
    ) -> (outcome: Result<DriverStatus, Fault>)
        requires
            old(self)@.well_formed(),
        ensures
            reacted(
                engine(old(core), old(self), old(backtrace)),
                result@,
                engine(final(core), final(self), final(backtrace)),
                status_outcome(outcome),
            ),
            !(outcome matches Ok(DriverStatus::Done(_))) ==> final(self)@.well_formed(),
    {
        match result {
            InstructionResult::Continue => Ok(DriverStatus::Running),
            InstructionResult::Return => Ok(self.leave(core, backtrace)),
            InstructionResult::Stop => Ok(self.end(core, backtrace, Completion::Stopped)),
            InstructionResult::Unwind(effect) => Ok(
                self.end(core, backtrace, Completion::Unwound(effect)),
            ),
            InstructionResult::Call(function, frame) => Ok(
                self.enter(core, backtrace, function, frame),
            ),
            InstructionResult::CallContinuation(continuation) => self.resume(
                core,
                backtrace,
                continuation,
            ),
        }
    }
}

/// A machine: the core, the frames of the program that is under way, the
/// heap and the trace.
#[derive(Debug)]
pub struct Machine {
    pub core: Core,
    pub driver: Driver,
    pub memory: Memory,
    pub backtrace: BacktraceInfo,
}

impl Machine {
    /// The state that the driver works on, as plain values.
    pub open spec fn engine(&self) -> EngineView {
        engine(&self.core, &self.driver, &self.backtrace)
    }

    /// Whether a program is under way and can take a step.
    pub open spec fn running(&self) -> bool {
        self.driver@.well_formed() && self.driver@.native is None
    }

    /// Whether a program is under way and waits for a native function to end.
    pub open spec fn waiting(&self) -> bool {
        self.driver@.well_formed() && self.driver@.native is Some
    }
}

/// What the execution of the instruction at the live frame's program
/// counter made of a machine: `executed`, on the parts of the machine that
/// the core works on; the rest of the machine is as it was.
pub open spec fn executed_on(
    module: &Module,
    before: Machine,
    after: Machine,
    result: Result<InstructionResult, Fault>,
) -> bool {
    &&& executed(
        before.driver.stack_frame@.instruction(),
        before.driver.continuation,
        module,
        before.core@,
        after.core@,
        before.driver.stack_frame@,
        after.driver.stack_frame@,
        chain_view(before.driver.frames@),
        chain_view(after.driver.frames@),
        &before.driver.continuation_store,
        &after.driver.continuation_store,
        &before.memory,
        &after.memory,
        result,
    )
    &&& after.driver.continuation == before.driver.continuation
    &&& after.driver.saved_registers == before.driver.saved_registers
    &&& after.driver.native == before.driver.native
    &&& after.backtrace == before.backtrace
}

/// What one step made of a machine: the instruction at the live frame's
/// program counter was executed, and the driver reacted to what it asked
/// for. A fault of the instruction is the fault of the step.
#[verifier::opaque]
pub open spec fn stepped(
    module: &Module,
    before: Machine,
    after: Machine,
    outcome: Result<DriverStatus, Fault>,
) -> bool {
    exists|between: Machine, result: Result<InstructionResult, Fault>|
        {
            &&& #[trigger] executed_on(module, before, between, result)
            &&& match result {
                Err(fault) => after == between && outcome == Err::<DriverStatus, Fault>(fault),
                Ok(asked) => {
                    &&& after.memory == between.memory
                    &&& reacted(between.engine(), asked@, after.engine(), status_outcome(outcome))
                },
            }
        }
}

/// Whether `states` are the states of a machine through a run: each comes
/// from the one before by one step, and every step but the last told the
/// host that the program goes on, the last one what `outcome` says. A run of
/// no step has told the host that the program goes on.
pub open spec fn run(module: &Module, states: Seq<Machine>, outcome: Result<DriverStatus, Fault>)
    -> bool {
    &&& states.len() >= 1
    &&& forall|i: int|
        0 <= i < states.len() - 2 ==> #[trigger] stepped(
            module,
            states[i],
            states[i + 1],
            Ok(DriverStatus::Running),
        )
    &&& if states.len() == 1 {
        outcome == Ok::<DriverStatus, Fault>(DriverStatus::Running)
    } else {
        stepped(module, states[states.len() - 2], states[states.len() - 1], outcome)
    }
}

/// What so many steps made of a machine, each but the last of which told
/// the host that the program goes on.
pub open spec fn ran(
    module: &Module,
    before: Machine,
    after: Machine,
    outcome: Result<DriverStatus, Fault>,
    steps: nat,
) -> bool {
    exists|states: Seq<Machine>|
        {
            &&& #[trigger] run(module, states, outcome)
            &&& states.len() == steps + 1
            &&& states[0] == before
            &&& states.last() == after
        }
}

/// Whether the chain of parents has kept its length and its continuations,
/// and the continuation store its slots.
pub open spec fn kept_shape(
    frames: Seq<ActiveFrameView>,
    frames_after: Seq<ActiveFrameView>,
    shared: Seq<FrameView>,
    shared_after: Seq<FrameView>,
) -> bool {
    &&& frames_after.len() == frames.len()
    &&& shared_after.len() >= shared.len()
    &&& forall|i: int|
        0 <= i < frames.len() ==> (#[trigger] frames_after[i] is Continuation ==> frames_after[i]
            == frames[i])
}

/// The execution of an instruction leaves the chain of parents its length
/// and its continuations, and the continuation store at least its slots.
#[verifier::rlimit(100)]
pub proof fn lemma_executed_keeps_shape(
    module: &Module,
    before: Machine,
    after: Machine,
    result: Result<InstructionResult, Fault>,
)
    requires
        executed_on(module, before, after, result),
    ensures
        kept_shape(
            before.driver@.frames,
            after.driver@.frames,
            before.driver@.shared,
            after.driver@.shared,
        ),
{
    let frames = chain_view(before.driver.frames@);
    let frames_after = chain_view(after.driver.frames@);
    let shared = shared_view(before.driver.continuation_store.frames@);
    let shared_after = shared_view(after.driver.continuation_store.frames@);
    match before.driver.stack_frame@.instruction() {
        Some(Instruction::StackStore(level, offset, value)) => {
            let place = stored_at(
                before.core@,
                before.driver.stack_frame@,
                before.driver.continuation,
                frames,
                shared,
                level,
                offset,
                value,
            );
            match place {
                Ok((FramePlace::Parent(index), stored)) => {
                    assert(frames_after == frames.update(
                        index as int,
                        ActiveFrameView::Plain(stored),
                    ));
                },
                Ok((FramePlace::Shared(slot), stored)) => {
                    assert(shared_after == shared.update(slot as int, stored));
                },
                Ok((FramePlace::Live, stored)) => {},
                Err(_) => {},
            }
        },
        Some(Instruction::CreateContinuation(target)) => {},
        Some(Instruction::CreateList(target, size)) => {},
        Some(Instruction::ListStore(list, index, value)) => {},
        _ => {
            assert(frames_after == frames);
            assert(shared_after == shared);
        },
    }
}

/// A driver that was well formed, and whose frames have kept their shape
/// while nothing else of it has changed, is well formed.
pub proof fn lemma_shape_keeps_well_formed(before: DriverView, after: DriverView)
    requires
        before.well_formed(),
        kept_shape(before.frames, after.frames, before.shared, after.shared),
        after.saved == before.saved,
        after.continuation == before.continuation,
        after.native == before.native,
    ensures
        after.well_formed(),
{
}

/// An instruction that asks the driver for anything but to go on has left
/// the core as it was.
#[verifier::rlimit(100)]
pub proof fn lemma_asking_leaves_core(
    module: &Module,
    before: Machine,
    after: Machine,
    result: Result<InstructionResult, Fault>,
)
    requires
        executed_on(module, before, after, result),
        result matches Ok(asked) && !(asked is Continue),
    ensures
        after.core@ == before.core@,
{
    match before.driver.stack_frame@.instruction() {
        Some(Instruction::Halt) => {},
        Some(Instruction::Goto(jump_target, condition)) => {},
        Some(Instruction::Return(condition)) => {},
        Some(Instruction::Call(call_target, condition)) => {},
        Some(Instruction::StackStore(level, offset, value)) => {},
        Some(Instruction::ListStore(list, index, value)) => {},
        Some(Instruction::Push(source)) => {},
        Some(Instruction::CreateContinuation(target)) => {},
        Some(Instruction::CreateList(target, size)) => {},
        Some(Instruction::Pop(target)) => {},
        None => {},
        _ => {},
    }
}

/// How a step treats the registers that were saved when frames were
/// entered. One of four holds. The step neither entered nor left a frame:
/// what was saved is as it was. It entered a frame: the registers were saved
/// as they were before the step. It left the live frame: the registers from
/// the eighth on are as they were saved when that frame was entered. It
/// ended the program.
pub open spec fn disciplined(before: Machine, after: Machine) -> bool {
    let saved = before.driver@.saved;
    let next = after.driver@.saved;
    ||| next == saved
    ||| next == saved.push(before.core@.registers)
    ||| {
        &&& saved.len() > 0
        &&& next == saved.drop_last()
        &&& forall|register: int|
            8 <= register < 32 ==> after.core@.registers[register] == saved.last()[register]
    }
    ||| next.len() == 0
}

/// Every step treats the saved registers with discipline, and a step that
/// tells the host that the program goes on leaves the machine able to take
/// another.
pub proof fn lemma_step_is_disciplined(
    module: &Module,
    before: Machine,
    after: Machine,
    outcome: Result<DriverStatus, Fault>,
)
    requires
        before.running(),
        stepped(module, before, after, outcome),
    ensures
        disciplined(before, after),
        outcome matches Ok(DriverStatus::Running) ==> after.running(),
{
    reveal(stepped);
    let (between, result) = choose|between: Machine, result: Result<InstructionResult, Fault>|
        {
            &&& #[trigger] executed_on(module, before, between, result)
            &&& match result {
                Err(fault) => after == between && outcome == Err::<DriverStatus, Fault>(fault),
                Ok(asked) => {
                    &&& after.memory == between.memory
                    &&& reacted(between.engine(), asked@, after.engine(), status_outcome(outcome))
                },
            }
        };
    lemma_executed_keeps_shape(module, before, between, result);
    lemma_shape_keeps_well_formed(before.driver@, between.driver@);
    assert(between.driver@.saved == before.driver@.saved);
    match result {
        Err(fault) => {},
        Ok(asked) => {
            if !(asked is Continue) {
                lemma_asking_leaves_core(module, before, between, result);
            }
            lemma_reaction_keeps_well_formed(
                between.engine(),
                asked@,
                after.engine(),
                status_outcome(outcome),
            );
        },
    }
}

/// A reaction of the driver that tells the host that the program goes on
/// leaves the driver well formed and not waiting for a native function.
pub proof fn lemma_reaction_keeps_well_formed(
    before: EngineView,
    result: ResultView,
    after: EngineView,
    outcome: Result<StatusView, FaultView>,
)
    requires
        before.driver.well_formed(),
        before.driver.native is None,
        before.core.registers.len() == 32,
        reacted(before, result, after, outcome),
    ensures
        outcome == Ok::<StatusView, FaultView>(StatusView::Running) ==> after.driver.well_formed()
            && after.driver.native is None,
{
    if outcome == Ok::<StatusView, FaultView>(StatusView::Running) {
        match result {
            ResultView::Return => {
                let driver = before.driver;
                assert(after.driver.frames == driver.frames.drop_last());
                assert(after.driver.saved == driver.saved.drop_last());
            },
            ResultView::Call(function, frame) => {},
            ResultView::CallContinuation(continuation) => {},
            _ => {},
        }
    }
}

/// The callee-save law. Through a run whose first step enters a frame and
/// whose last step leaves that very frame, whatever was entered and left in
/// between, the registers from the eighth on come back: after the run they
/// hold what they held before it.
///
/// `states` are the states of the machine through the run. That the first
/// step enters a frame and the last one leaves it shows in the number of
/// frames that are under way: one more after the first step, more all the
/// way, and as many as before after the last step.
pub proof fn lemma_call_restores_registers(
    module: &Module,
    states: Seq<Machine>,
    outcome: Result<DriverStatus, Fault>,
)
    requires
        run(module, states, outcome),
        states.len() >= 3,
        states[0].running(),
        forall|i: int|
            1 <= i < states.len() - 1 ==> (#[trigger] states[i]).driver@.saved.len()
                > states[0].driver@.saved.len(),
        states.last().driver@.saved.len() == states[0].driver@.saved.len(),
    ensures
        forall|register: int|
            8 <= register < 32 ==> states.last().core@.registers[register]
                == states[0].core@.registers[register],
{
    let depth = states[0].driver@.saved.len() as int;
    let last = states.len() - 1;
    let before = states[last - 1];
    let after = states[last];
    lemma_entry_stays_saved(module, states, outcome, last - 1);
    assert(stepped(module, states[states.len() - 2], states[states.len() - 1], outcome));
    lemma_step_is_disciplined(module, before, after, outcome);
    let saved = before.driver@.saved;
    assert(depth >= 1);
    assert(saved.len() > depth);
    assert(after.driver@.saved.len() == depth);
    assert(after.driver@.saved == saved.drop_last());
    assert(saved.last() == saved[depth]);
    assert forall|register: int| 8 <= register < 32 implies states.last().core@.registers[register]
        == states[0].core@.registers[register] by {
        assert(after.core@.registers[register] == saved.last()[register]);
    }
}

/// Through the run of `lemma_call_restores_registers`, the registers that
/// were saved when the frame was entered stay saved as they were.
pub proof fn lemma_entry_stays_saved(
    module: &Module,
    states: Seq<Machine>,
    outcome: Result<DriverStatus, Fault>,
    at: int,
)
    requires
        run(module, states, outcome),
        states.len() >= 3,
        states[0].running(),
        forall|i: int|
            1 <= i < states.len() - 1 ==> (#[trigger] states[i]).driver@.saved.len()
                > states[0].driver@.saved.len(),
        1 <= at < states.len() - 1,
    ensures
        states[at].running(),
        states[at].driver@.saved.len() > states[0].driver@.saved.len(),
        states[at].driver@.saved[states[0].driver@.saved.len() as int]
            == states[0].core@.registers,
        states[at].driver@.saved.take(states[0].driver@.saved.len() as int)
            == states[0].driver@.saved,
    decreases at,
{
    let depth = states[0].driver@.saved.len() as int;
    let from = at - 1;
    assert(states[from + 1] == states[at]);
    assert(stepped(module, states[from], states[from + 1], Ok(DriverStatus::Running)));
    if at == 1 {
        lemma_step_is_disciplined(module, states[0], states[1], Ok(DriverStatus::Running));
        assert(states[1].driver@.saved.len() > depth);
        assert(states[1].driver@.saved == states[0].driver@.saved.push(states[0].core@.registers));
        assert(states[1].driver@.saved.take(depth) =~= states[0].driver@.saved);
    } else {
        lemma_entry_stays_saved(module, states, outcome, at - 1);
        lemma_step_is_disciplined(module, states[at - 1], states[at], Ok(DriverStatus::Running));
        let saved = states[at - 1].driver@.saved;
        let next = states[at].driver@.saved;
        assert(states[at].driver@.saved.len() > depth);
        assert(next.take(depth) =~= saved.take(depth));
    }
}

impl Driver {
    /// Whether the driver can take a step: every frame has its saved
    /// registers, and every continuation among the frames has its slot.
    pub fn is_well_formed(&self) -> (formed: bool)
        ensures
            formed == self@.well_formed(),
    {
        let shared = self.continuation_store.frames.len();
        proof {
            assert(self@.saved.len() == self.saved_registers@.len());
            assert(self@.frames.len() == self.frames@.len());
        }
        let saved = self.saved_registers.len();
        let parents = self.frames.len();
        if parents == usize::MAX || saved != parents + 1 {
            return false;
        }
        proof {
            assert forall|i: int| 0 <= i < self@.saved.len() implies (#[trigger] self@.saved[i]).len()
                == 32 by {
                vstd::array::array_len_matches_n(&self.saved_registers@[i]);
            }
            assert(self@.shared.len() == shared);
        }
        match self.continuation {
            Some(live) => {
                if live.get_stack_frame() >= shared || self.native.is_some() {
                    return false;
                }
            },
            None => {},
        }
        let mut i: usize = 0;
        while i < self.frames.len()
            invariant
                i <= self.frames@.len(),
                shared == self@.shared.len(),
                forall|j: int|
                    0 <= j < i ==> (#[trigger] self@.frames[j]
                        matches ActiveFrameView::Continuation(parent) ==> parent.frame_slot()
                        < self@.shared.len()),
            decreases self.frames@.len() - i,
        {
            match &self.frames[i] {
                ActiveFrame::Continuation(parent) => {
                    if parent.get_stack_frame() >= shared {
                        assert(self@.frames[i as int] == ActiveFrameView::Continuation(*parent));
                        return false;
                    }
                    assert(self@.frames[i as int] == ActiveFrameView::Continuation(*parent));
                },
                ActiveFrame::Plain(_) => {
                    assert(self@.frames[i as int] is Plain);
                },
            }
            i += 1;
        }
        true
    }
}

impl Machine {
    /// Whether a program is under way and can take a step.
    pub fn is_running(&self) -> (running: bool)
        ensures
            running == self.running(),
    {
        self.driver.native.is_none() && self.driver.is_well_formed()
    }

    /// Whether a program is under way and waits for a native function to end.
    pub fn is_waiting(&self) -> (waiting: bool)
        ensures
            waiting == self.waiting(),
    {
        self.driver.native.is_some() && self.driver.is_well_formed()
    }
}

impl Machine {
    /// A machine on which no program is under way.
    pub fn new(core: Core, memory: Memory, backtrace: BacktraceInfo) -> (machine: Machine)
        ensures
            machine.core == core,
            machine.memory == memory,
            machine.backtrace == backtrace,
            machine.driver@.saved.len() == 0,
            machine.driver@.frames.len() == 0,
            machine.driver@.shared.len() == 0,
            machine.driver@.continuations.len() == 0,
            machine.driver@.continuation is None,
            machine.driver@.native is None,
    {
        Machine {
            core,
            driver: Driver {
                stack_frame: vacant_frame(),
                continuation: None,
                frames: Vec::new(),
                saved_registers: Vec::new(),
                continuation_store: ContinuationStore::new(),
                native: None,
            },
            memory,
            backtrace,
        }
    }

    /// Takes one step: has the core execute the instruction at the live
    /// frame's program counter, and reacts to what it asks for.
    pub fn step(&mut self, module: &Module) -> (outcome: Result<DriverStatus, Fault>)
        requires
            old(self).running(),
        ensures
            stepped(module, *old(self), *final(self), outcome),
            outcome matches Ok(DriverStatus::Running) ==> final(self).running(),
            outcome matches Ok(DriverStatus::CallNative(_)) ==> final(self).waiting(),
            outcome is Err ==> final(self).running(),
    {
        let result = self.core.execute_instruction(
            &mut self.driver.stack_frame,
            self.driver.continuation,
            module,
            &mut self.driver.frames,
            &mut self.memory,
            &mut self.driver.continuation_store,
        );
        let ghost between = *self;
        proof {
            reveal(stepped);
            assert(executed_on(module, *old(self), between, result));
            lemma_executed_keeps_shape(module, *old(self), between, result);
            lemma_shape_keeps_well_formed(old(self).driver@, between.driver@);
        }
        match result {
            Err(fault) => Err(fault),
            Ok(asked) => self.driver.react(&mut self.core, &mut self.backtrace, asked),
        }
    }
}

/// The path of the function that a program starts with.
pub open spec fn main_name() -> Seq<Seq<char>> {
    seq!["main"@]
}

/// The path of the function that a program starts with.
pub fn main_path() -> (path: FunctionPath)
    ensures
        path@ == main_name(),
{
    let mut names: Vec<String> = Vec::new();
    names.push(String::from_str("main"));
    let path = FunctionPath::new(names);
    assert(path@ =~= main_name());
    path
}

/// What starting a program comes to.
///
/// Where the module has no function `main`, the function is not found and
/// nothing changes. Else the live frame is a fresh frame of `main` with the
/// registers saved in it as they are, it has no parents, no continuation is
/// stored, and the trace has the call site of `main`. The host is told that
/// the program goes on, or, where `main` is a native function, its number.
pub open spec fn started(
    module: &Module,
    before: Machine,
    after: Machine,
    outcome: Result<DriverStatus, Fault>,
) -> bool {
    match module.function_at(main_name()) {
        None => after == before && status_outcome(outcome) == Err::<StatusView, FaultView>(
            FaultView::FunctionNotFound(main_name()),
        ),
        Some(function) => {
            &&& after.core == before.core
            &&& after.memory == before.memory
            &&& after.backtrace@.unwind_levels == before.backtrace@.unwind_levels
            &&& after.backtrace@.sites() == before.backtrace@.sites().push(site(main_name()))
            &&& after.driver@ == (DriverView {
                live: FrameView {
                    function_name: main_name(),
                    instructions: function.code(),
                    program_counter: 0,
                    stack: Seq::empty(),
                    stack_pointer: 0,
                    call_backup: Some(before.core@.registers),
                    gc_backup: None,
                    return_address: None,
                },
                continuation: None,
                frames: Seq::empty(),
                saved: seq![before.core@.registers],
                shared: Seq::empty(),
                continuations: Seq::empty(),
                native: match function {
                    Function::Native(number) => Some(number),
                    Function::ByteCode(_) => None,
                },
            })
            &&& status_outcome(outcome) == Ok::<StatusView, FaultView>(
                match function {
                    Function::Native(number) => StatusView::CallNative(number),
                    Function::ByteCode(_) => StatusView::Running,
                },
            )
        },
    }
}

/// Starts the program of `module` on the machine: enters the function at
/// the path `main`. A program that was under way on the machine is given up.
///
/// The machine is then run with `call_bytecode_function`, or, where `main`
/// is a native function, by the host and `call_native_function`.
pub fn call_main(machine: &mut Machine, module: &Module) -> (outcome: Result<DriverStatus, Fault>)
    ensures
        started(module, *old(machine), *final(machine), outcome),
        outcome matches Ok(DriverStatus::Running) ==> final(machine).running(),
        outcome matches Ok(DriverStatus::CallNative(_)) ==> final(machine).waiting(),
{
    let path = main_path();
    let main = match module.get_function(&path) {
        Some(main) => main,
        None => {
            return Err(Fault::FunctionNotFound(path));
        },
    };
    let ghost trace = machine.backtrace@;
    let mut main_frame = Frame::new(main_path(), main.get_instructions());
    main_frame.backup_registers(&machine.core.registers);
    machine.backtrace.push(BacktraceEntry::new(path, None, None));
    let mut saved: Vec<[Register; REGISTER_COUNT]> = Vec::new();
    saved.push(machine.core.registers);
    let native = match main {
        Function::Native(number) => Some(number),
        Function::ByteCode(_) => None,
    };
    machine.driver = Driver {
        stack_frame: main_frame,
        continuation: None,
        frames: Vec::new(),
        saved_registers: saved,
        continuation_store: ContinuationStore::new(),
        native,
    };
    proof {
        assert(machine.backtrace@.sites() =~= trace.sites().push(site(main_name())));
        assert(machine.driver@.saved =~= seq![old(machine).core@.registers]);
        assert(machine.driver@.frames =~= Seq::<ActiveFrameView>::empty());
        assert(machine.driver@.shared =~= Seq::<FrameView>::empty());
        assert(machine.driver@.continuations =~= Seq::<DelimitedContinuation>::empty());
    }
    match native {
        Some(number) => Ok(DriverStatus::CallNative(number)),
        None => Ok(DriverStatus::Running),
    }
}

/// Runs the program that is under way on the machine: takes step after
/// step until a step tells the host something else than that the program
/// goes on, or faults, or `max_steps` steps are taken.
pub fn call_bytecode_function(machine: &mut Machine, module: &Module, max_steps: usize) -> (outcome:
    Result<DriverStatus, Fault>)
    requires
        old(machine).running(),
    ensures
        exists|steps: nat|
            {
                &&& steps <= max_steps
                &&& #[trigger] ran(module, *old(machine), *final(machine), outcome, steps)
                &&& outcome matches Ok(DriverStatus::Running) ==> steps == max_steps
            },
        outcome matches Ok(DriverStatus::Running) ==> final(machine).running(),
        outcome matches Ok(DriverStatus::CallNative(_)) ==> final(machine).waiting(),
        outcome is Err ==> final(machine).running(),
{
    let ghost mut states: Seq<Machine> = seq![*machine];
    let mut taken: usize = 0;
    while taken < max_steps
        invariant
            taken <= max_steps,
            machine.running(),
            states.len() == taken + 1,
            states[0] == *old(machine),
            states.last() == *machine,
            run(module, states, Ok(DriverStatus::Running)),
        decreases max_steps - taken,
    {
        let ghost so_far = states;
        let outcome = machine.step(module);
        proof {
            states = so_far.push(*machine);
            assert(stepped(module, states[states.len() - 2], states[states.len() - 1], outcome));
            assert forall|i: int| 0 <= i < states.len() - 2 implies #[trigger] stepped(
                module,
                states[i],
                states[i + 1],
                Ok(DriverStatus::Running),
            ) by {
                if i < so_far.len() - 2 {
                    assert(stepped(module, so_far[i], so_far[i + 1], Ok(DriverStatus::Running)));
                }
            }
            assert(run(module, states, outcome));
        }
        taken += 1;
        match outcome {
            Ok(DriverStatus::Running) => {},
            _ => {
                assert(ran(module, *old(machine), *machine, outcome, taken as nat));
                return outcome;
            },
        }
    }
    assert(ran(module, *old(machine), *machine, Ok(DriverStatus::Running), taken as nat));
    Ok(DriverStatus::Running)
}

/// Reacts to the end of the native function that the host ran: `result` is
/// what the function returned.
///
/// A native function may go on, which leaves its frame, stop the program,
/// or unwind with an effect, which nothing catches. Any other result faults
/// with `InvalidOperation`, and nothing changes. A fault of the native
/// function itself is the host's to report.
pub fn call_native_function(machine: &mut Machine, result: InstructionResult) -> (outcome: Result<
    DriverStatus,
    Fault,
>)
    requires
        old(machine).waiting(),
    ensures
        native_returned(
            old(machine).engine(),
            result@,
            final(machine).engine(),
            status_outcome(outcome),
        ),
        final(machine).memory == old(machine).memory,
        outcome matches Ok(DriverStatus::Running) ==> final(machine).running(),
        outcome is Err ==> final(machine).waiting(),
{
    match result {
        InstructionResult::Continue => Ok(
            machine.driver.leave(&mut machine.core, &mut machine.backtrace),
        ),
        InstructionResult::Stop => Ok(
            machine.driver.end(&mut machine.core, &mut machine.backtrace, Completion::Stopped),
        ),
        InstructionResult::Unwind(effect) => Ok(
            machine.driver.end(
                &mut machine.core,
                &mut machine.backtrace,
                Completion::Unwound(effect),
            ),
        ),
        _ => Err(
            Fault::InvalidOperation(
                String::from_str("a native function may only go on, stop or unwind"),
            ),
        ),
    }
}

} // verus!
