//! State that the monitor keeps of confidential VMs and of their harts.
pub mod confidential_hart;
pub mod confidential_vm;
pub mod instruction;
pub mod storage;

pub use confidential_hart::ConfidentialHart;
pub use confidential_vm::{ConfidentialVm, ConfidentialVmId};
pub use storage::ControlData;
