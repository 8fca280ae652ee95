pub mod hart;
pub mod plan;
pub mod reason;

pub use hart::{HardwareThread, Id as HardwareThreadId};
pub use plan::{Policy, PolicyContext, SimplePolicy, SwitchReason};
pub use reason::EntryReason;
