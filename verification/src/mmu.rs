//! Second-level (G-stage) address translation.
pub mod page_size;
pub mod page_table;
pub mod page_table_entry;
pub mod page_table_memory;
pub mod page_table_view;
pub mod paging_system;

pub use page_size::PageSize;
pub use page_table::{PageTable, RootPageTable};
pub use page_table_view::{EntryView, TableView, Translation};
pub use paging_system::{ConfidentialVmVirtualAddress, PageTableLevel, PagingSystem};
