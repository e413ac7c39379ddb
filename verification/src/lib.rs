//! A register-based bytecode virtual machine: typed values and their
//! arithmetic, stack frames, a managed heap, a module registry and the
//! instruction engine that ties them together.
//!
//! The machine is driven one step at a time. A host owns the loop: it
//! starts a program with `machine::driver::call_main`, runs it with
//! `machine::driver::call_bytecode_function`, and serves the native
//! functions that the program calls, handing what each returned to
//! `machine::driver::call_native_function`.
//!
//! Floating-point numbers are held by their IEEE-754 bit pattern. The
//! machine moves, stores, compares and tests them; arithmetic on them and
//! value casts to and from them are a host's to perform, which hands the
//! result to `machine::processor::Core::finish_arithmetic`.

pub mod backtrace;
pub mod bytes;
pub mod instruction;
pub mod machine;
pub mod memory;
pub mod program;
pub mod stack_frame;
pub mod value;
