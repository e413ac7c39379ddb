//! Objects: instances of a class, with their fields and their methods.

use crate::program::function::Function;
use crate::program::function::FunctionPath;
use crate::value::Value;
use vstd::prelude::*;

verus! {

/// A method of a class: its path and the function behind it.
#[derive(Debug)]
pub struct Method {
    pub path: FunctionPath,
    pub function: Function,
}

/// An object of the heap.
#[derive(Debug)]
pub struct Object {
    /// The number of the object's class.
    pub class_id: u64,
    pub class_name: String,
    /// The heap handle of the class that this one extends, where it extends one.
    pub super_class: Option<u64>,
    pub fields: Vec<Value>,
    pub vtable: Vec<Method>,
}

} // verus!
