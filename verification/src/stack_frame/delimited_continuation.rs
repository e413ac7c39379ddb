//! Continuations: re-invokable handles on a frame, and the store that owns
//! the frames they share.

use crate::stack_frame::frame::Frame;
use crate::stack_frame::shared_view;
use vstd::prelude::*;

verus! {

/// A handle on a shared frame, with the program counter at which an
/// invocation starts.
///
/// The frame lives in a `ContinuationStore`; the handle names its slot there.
/// Copies of a handle refer to the same frame.
#[derive(Debug, Clone, Copy, PartialEq, Eq, Structural)]
pub struct DelimitedContinuation {
    stack_frame: usize,
    start_program_counter: usize,
}

impl DelimitedContinuation {
    /// The slot of the shared frame that the handle refers to.
    pub closed spec fn frame_slot(self) -> usize {
        self.stack_frame
    }

    /// The program counter at which an invocation starts.
    pub closed spec fn start(self) -> usize {
        self.start_program_counter
    }

    /// A handle on the frame in slot `stack_frame` that starts at
    /// `start_program_counter`.
    pub fn new(stack_frame: usize, start_program_counter: usize) -> (continuation: Self)
        ensures
            continuation.frame_slot() == stack_frame,
            continuation.start() == start_program_counter,
    {
        DelimitedContinuation { stack_frame, start_program_counter }
    }

    pub fn get_stack_frame(&self) -> (slot: usize)
        ensures
            slot == self.frame_slot(),
    {
        self.stack_frame
    }

    pub fn get_start_program_counter(&self) -> (start: usize)
        ensures
            start == self.start(),
    {
        self.start_program_counter
    }

    /// A continuation is a continuation.
    pub fn is_continuation(&self) -> (continuation: bool)
        ensures
            continuation,
    {
        true
    }
}

/// The continuations of a program, by sequential index, and the frames that
/// they share. Nothing is ever removed: an index stays valid.
#[derive(Debug)]
pub struct ContinuationStore {
    /// The shared frames, by slot.
    pub frames: Vec<Frame>,
    /// The stored continuations, by index.
    pub continuations: Vec<DelimitedContinuation>,
}

impl ContinuationStore {
    /// An empty store.
    pub fn new() -> (store: ContinuationStore)
        ensures
            store.frames@.len() == 0,
            store.continuations@.len() == 0,
    {
        ContinuationStore { frames: Vec::new(), continuations: Vec::new() }
    }

    /// Puts a frame into a slot of its own, to be shared, and gives the slot.
    pub fn share_frame(&mut self, frame: Frame) -> (slot: usize)
        ensures
            slot == old(self).frames@.len(),
            final(self).frames@ == old(self).frames@.push(frame),
            final(self).continuations@ == old(self).continuations@,
    {
        self.frames.push(frame);
        self.frames.len() - 1
    }

    /// Stores a continuation under the next index.
    pub fn store(&mut self, continuation: DelimitedContinuation)
        ensures
            final(self).continuations@ == old(self).continuations@.push(continuation),
            final(self).frames@ == old(self).frames@,
    {
        self.continuations.push(continuation);
    }

    /// The continuation stored under `index`, where there is one.
    pub fn get(&self, index: usize) -> (continuation: Option<DelimitedContinuation>)
        ensures
            continuation == if index < self.continuations@.len() {
                Some(self.continuations@[index as int])
            } else {
                None
            },
    {
        if index < self.continuations.len() {
            Some(self.continuations[index])
        } else {
            None
        }
    }

    /// The index of the continuation stored last; none in an empty store.
    pub fn get_last_index(&self) -> (index: Option<u64>)
        ensures
            match index {
                Some(last) => last == self.continuations@.len() - 1,
                None => self.continuations@.len() == 0,
            },
    {
        let len = self.continuations.len();
        if len == 0 {
            None
        } else {
            Some((len - 1) as u64)
        }
    }

    /// The shared frame that a continuation refers to, where the store holds
    /// its slot.
    pub fn frame(&self, continuation: &DelimitedContinuation) -> (frame: Option<&Frame>)
        ensures
            match frame {
                Some(found) => continuation.frame_slot() < self.frames@.len() && *found
                    == self.frames@[continuation.frame_slot() as int],
                None => continuation.frame_slot() >= self.frames@.len(),
            },
    {
        if continuation.stack_frame < self.frames.len() {
            Some(&self.frames[continuation.stack_frame])
        } else {
            None
        }
    }

    /// Moves the program counter of the shared frame that a continuation
    /// refers to back to the start that the continuation recorded, and says
    /// whether the store holds the frame's slot. The stack of the frame stays
    /// as it is.
    pub fn reset_program_counter(&mut self, continuation: &DelimitedContinuation) -> (found: bool)
        ensures
            final(self).continuations@ == old(self).continuations@,
            found == (continuation.frame_slot() < old(self).frames@.len()),
            found ==> shared_view(final(self).frames@) == shared_view(old(self).frames@).update(
                continuation.frame_slot() as int,
                old(self).frames@[continuation.frame_slot() as int]@.at(continuation.start()),
            ),
            !found ==> shared_view(final(self).frames@) == shared_view(old(self).frames@),
    {
        if continuation.stack_frame < self.frames.len() {
            self.frames[continuation.stack_frame].set_program_counter(
                continuation.start_program_counter,
            );
            assert(shared_view(self.frames@) =~= shared_view(old(self).frames@).update(
                continuation.frame_slot() as int,
                old(self).frames@[continuation.frame_slot() as int]@.at(continuation.start()),
            ));
            true
        } else {
            false
        }
    }
}

} // verus!
