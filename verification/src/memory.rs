//! Physical memory as the monitor sees it: the two regions, the addresses
//! tagged by region, and the pool of confidential pages.
pub mod layout;
pub mod non_confidential;
pub mod page;
pub mod tracker;

pub use layout::{ConfidentialMemoryAddress, MemoryLayout, NonConfidentialMemoryAddress};
pub use non_confidential::NonConfidentialMemory;
pub use page::{Page, SharedPage};
pub use tracker::MemoryTracker;
