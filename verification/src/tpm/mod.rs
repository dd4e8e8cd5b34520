//! TPM 2.0 emulation through the Command Response Buffer (CRB) interface.
//!
//! The interface is the standard register set of a TPM in a PC. It lies at a
//! fixed guest-physical address and is divided into one 4 KiB page for each
//! locality.

use vstd::prelude::*;

pub mod acpi;
pub mod aml;
pub mod crb;
pub mod executor;
pub mod laws;
pub mod loader;
pub mod swtpm;
pub mod window_laws;
pub mod wire_laws;

pub use acpi::{build_acpi_tpm2_ssdt, build_acpi_tpm2_table};
pub use crb::TpmCrb;
pub use loader::build_fw_cfg_table_loader;

verus! {

/// The guest-physical address of the register window.
pub const TPM_CRB_BASE_ADDR: usize = 0xFED4_0000;

/// The size of the register window: five localities of 4 KiB each.
pub const TPM_CRB_SIZE: usize = 0x5000;

/// The size of one locality's page.
pub const TPM_LOCALITY_SIZE: usize = 0x1000;

/// Where the command/response data buffer starts in a locality's page.
pub const TPM_DATA_BUFFER_OFFSET: usize = 0x80;

/// The size of the command/response data buffer: the rest of the page.
pub const TPM_DATA_BUFFER_SIZE: usize = TPM_LOCALITY_SIZE - TPM_DATA_BUFFER_OFFSET;

/// An executor of TPM commands.
pub trait TpmBackend: Send + Sync + 'static {
    /// Executes a marshaled TPM 2.0 command and returns the marshaled response.
    ///
    /// The command is meant to begin with a TPM header (tag, size, code), but is
    /// whatever the guest has stored, and may be shorter than a header. On
    /// failure an implementation should answer with a well-formed TPM
    /// error response. Nothing is assumed of the response.
    fn execute_cmd(&self, cmd: &[u8]) -> (rsp: Vec<u8>);
}

/// Whether `backend` may answer the command `cmd` with `rsp`.
pub open spec fn may_answer<B: TpmBackend>(backend: B, cmd: Seq<u8>, rsp: Seq<u8>) -> bool {
    exists|c: &[u8], r: Vec<u8>|
        c@ == cmd && r@ == rsp && #[trigger] call_ensures(B::execute_cmd, (&backend, c), r)
}

} // verus!
