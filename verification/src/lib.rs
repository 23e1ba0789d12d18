//! An event-subscription registry and a writable-stream state machine.
//!
//! The registry keeps, per event name, an ordered list of persistent
//! listeners and an ordered list of one-shot listeners, enforces a soft cap
//! on the number of listeners, and reports which listeners an emission must
//! reach, in order.  The writable state machine embeds one registry and adds
//! cork/uncork depth, end/destroy lifecycle flags and backpressure
//! signalling over a buffered chunk queue.
//!
//! Listeners are opaque, identity-compared handles: invoking whatever a
//! handle stands for is the embedding host's job.  Every operation that
//! emits an event therefore returns the ordered invocation plan for that
//! emission, and the host runs the plan.

use vstd::prelude::*;

pub mod laws;
pub mod registry;
pub mod writable;

verus! {

/// Adds two numbers.
pub fn sum(a: i32, b: i32) -> (r: i32)
    requires
        i32::MIN <= a + b <= i32::MAX,
    ensures
        r == a + b,
{
    a + b
}

/// A greeting and a toy number series, kept as small demonstration surface
/// beside the stream core.
pub struct JsToRustStreamString;

/// The series underneath [`JsToRustStreamString::fibonacci`]: each value is
/// the sum of the two before it, starting from a pair of ones.
pub open spec fn fib(n: nat) -> nat
    decreases n,
{
    if n == 0 {
        1
    } else if n == 1 {
        1
    } else {
        fib((n - 1) as nat) + fib((n - 2) as nat)
    }
}

impl JsToRustStreamString {
    pub fn new() -> (r: Self) {
        Self {  }
    }

    /// Greets `name`.
    pub fn get_string(&self, name: String) -> (r: String)
        ensures
            r@ == "Hello "@ + name@ + "!"@,
    {
        let mut r = "Hello ".to_owned();
        r.append(name.as_str());
        r.append("!");
        r
    }

    /// The `n`-th value of [`fib`]; the bound on `n` keeps the sum within
    /// `u32`.
    pub fn fibonacci(n: u32) -> (r: u32)
        requires
            fib(n as nat) <= u32::MAX,
        ensures
            r == fib(n as nat),
        decreases n,
    {
        match n {
            0 => 1,
            1 => 1,
            _ => Self::fibonacci(n - 1) + Self::fibonacci(n - 2),
        }
    }
}

} // verus!
