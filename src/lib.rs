//! A user-space RISC-V hypervisor core: stage-2 translation, interrupt
//! controller and device models, and the decisions of the vCPU loop.
use vstd::prelude::*;

pub mod utils;
pub mod gparegion;
pub mod mmio;
pub mod hpmallocator;
pub mod guestmem;
pub mod gstagemmu;
pub mod plic;
pub mod serial;
pub mod block;
pub mod vcpucontext;
pub mod virq;
pub mod vipi;
pub mod sbi;
pub mod vcpu;
pub mod vplic;
pub mod dtb;
pub mod vm;
pub mod config;
