pub mod kernel_task;
pub mod process;
pub mod thread;

pub use kernel_task::{create_kernel_thread, spawn, KernelTask};
pub use process::{Id as ProcessId, LockedProcess, Process};
pub use thread::{Id as ThreadId, RawThreadState, Thread, ThreadToken};
