//! What the host told the boot shim, as far as logging and crash reporting
//! need it.

use vstd::prelude::*;

verus! {

/// How the partition is isolated from the host.
#[derive(Copy, Clone, Debug, PartialEq, Eq, Structural)]
pub enum IsolationType {
    /// Not isolated.
    NotIsolated,
    /// Isolated by the hypervisor (VBS).
    Vbs,
    /// Isolated by AMD SEV-SNP.
    Snp,
    /// Isolated by Intel TDX.
    Tdx,
}

impl IsolationType {
    /// Whether the hardware, not only the hypervisor, isolates the partition.
    pub open spec fn hardware_isolated(self) -> bool {
        self == IsolationType::Snp || self == IsolationType::Tdx
    }

    /// Whether the hardware, not only the hypervisor, isolates the partition.
    pub fn is_hardware_isolated(&self) -> (isolated: bool)
        ensures
            isolated == self.hardware_isolated(),
            isolated <==> *self == IsolationType::Snp || *self == IsolationType::Tdx,
    {
        match self {
            IsolationType::NotIsolated | IsolationType::Vbs => false,
            IsolationType::Snp | IsolationType::Tdx => true,
        }
    }
}

/// Law: exactly SNP and TDX partitions are isolated by hardware.
pub proof fn lemma_which_partitions_are_hardware_isolated(isolation_type: IsolationType)
    ensures
        isolation_type.hardware_isolated() <==> isolation_type is Snp || isolation_type is Tdx,
{
}

/// The shim parameters that serial logging reads.
#[derive(Copy, Clone, Debug)]
pub struct ShimParams {
    /// The isolation type of this partition.
    pub isolation_type: IsolationType,
}

} // verus!
