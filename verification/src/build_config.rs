//! What the boot shim is built for.

use vstd::prelude::*;

verus! {

/// Processor architecture.
#[derive(Copy, Clone, Debug, PartialEq, Eq, Structural)]
pub enum TargetArch {
    X86_64,
    Aarch64,
}

/// The build of the boot shim.
#[derive(Copy, Clone, Debug, PartialEq, Eq, Structural)]
pub struct BuildConfig {
    /// The architecture that the shim runs on.
    pub target_arch: TargetArch,
    /// Whether confidential VMs may log to serial.
    pub cvm_boot_log: bool,
}

} // verus!
