use crate::class::Class;
use crate::types::Types;
use vstd::prelude::*;

verus! {

/// What the machine needs from its environment: class files, native methods and
/// floating-point arithmetic. Nothing is assumed of what these calls return.
pub trait Host {
    /// The contents of the file at `path`, or `None` when it cannot be read.
    fn read_file(&mut self, path: &String) -> Option<Vec<u8>>;

    /// Runs the native method `name` with descriptor `desc` declared by `class` on
    /// `args`; `None` when no native is registered under that triple.
    fn invoke_native(&mut self, class: &Class, name: &String, desc: &String, args: Vec<Types>) -> Option<Types>;

    /// The bits of the sum of the doubles with bits `a` and `b`.
    fn double_add(&mut self, a: u64, b: u64) -> u64;

    /// The bits of `a - b` for the doubles with bits `a` and `b`.
    fn double_sub(&mut self, a: u64, b: u64) -> u64;
}

} // verus!
