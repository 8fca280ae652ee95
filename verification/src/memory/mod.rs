pub mod address;
pub mod boot;
pub mod page_table;
pub mod pool;

pub use address::{PhysicalAddress, PhysicalPageNumber, VirtualAddress, VirtualPageNumber};
pub use page_table::{
    Entry as PageTableEntry, Flags as PageTableEntryFlags, Table as PageTable,
    TableHandle as PageTableHandle,
};
pub use pool::{LockedPagePool, PagePool};
pub mod mapping;
pub use mapping::{Mapping, Segment, SegmentBacking};
