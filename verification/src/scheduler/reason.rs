use vstd::prelude::*;

verus! {

/// Why the kernel was entered.
#[derive(Debug, Clone, Copy, PartialEq, Eq, Structural)]
pub enum EntryReason {
    Syscall,
    PageFault,
    /// The timer of the hart fired.
    Timer,
    /// A breakpoint instruction at the given address was executed.
    Breakpoint(u64),
}

} // verus!
