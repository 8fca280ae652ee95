use vstd::prelude::*;

verus! {

/// The failures that the kernel reports to its callers instead of halting.
#[derive(Debug, Clone, Copy, PartialEq, Eq, Structural)]
pub enum KernelError {
    /// No memory is left to satisfy the request.
    OutOfMemory,
}

pub type KernelResult<T> = Result<T, KernelError>;

impl KernelError {
    /// The numeric code under which the error is reported.
    pub fn code(&self) -> (c: i32)
        ensures
            c == -1,
    {
        match self {
            KernelError::OutOfMemory => -1,
        }
    }
}

} // verus!
