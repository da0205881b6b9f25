//! Core of a RISC-V security monitor for confidential virtual machines.
//!
//! The monitor runs in M-mode between an untrusted hypervisor and confidential
//! guests. This crate holds its logic: the G-stage page-table engine, the
//! tracker of confidential pages, the confidential hart with its trap decoder,
//! and the requests and results exchanged between the two control flows.
use vstd::prelude::*;

pub mod mmu;
pub mod non_confidential_flow;
pub mod error;
pub mod confidential_flow;
pub mod control_data;
pub mod hart;
pub mod memory;
pub mod transformations;

verus! {

/// Identifier of the SBI extension through which the hypervisor and the
/// confidential guests reach the monitor.
pub const ACE_EXT_ID: u64 = 0x510000;

/// Function of the monitor's extension by which a VM asks to become a
/// confidential VM.
pub const ACE_ESM_FID: u64 = 1000;

/// Function of the monitor's extension by which a confidential VM asks to
/// share a page with the hypervisor.
pub const ACE_SHARE_PAGE_FID: u64 = 2000;

/// Identifier of the base extension of SBI.
pub const SBI_BASE_EXT_ID: u64 = 0x10;

/// Function of the base extension that asks whether an extension exists.
pub const SBI_PROBE_EXTENSION_FID: u64 = 3;

} // verus!
