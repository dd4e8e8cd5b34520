//! The configuration of the devices of a virtual machine.

use vstd::prelude::*;

verus! {

/// The place of a device on the PCI bus.
#[derive(Clone, Copy, PartialEq, Eq, Structural, Debug)]
pub struct PciPath {
    pub bus: u8,
    pub device: u8,
    pub function: u8,
}

/// A socket device that presents a virtio-socket interface to the guest.
#[derive(Clone, Copy, PartialEq, Eq, Structural, Debug)]
pub struct VirtioSocket {
    /// The guest's context identifier.
    pub guest_cid: u64,
    /// The PCI path at which to attach the device.
    pub pci_path: PciPath,
}

/// A TPM 2.0 CRB device backed by a running swtpm process.
#[derive(Debug)]
pub struct TpmCrb {
    /// The path of the process's Unix domain socket.
    pub socket_path: String,
}

/// A volume that keeps the state of an swtpm process across restarts of the
/// virtual machine. The guest does not see it.
///
/// The request that opens the volume is not to be shown, so the type has no
/// derived text form; see [`TpmStateDisk::debug_text`].
pub struct TpmStateDisk {
    /// The serialized request that opens the volume.
    pub request_json: String,
}

impl Clone for TpmCrb {
    fn clone(&self) -> (copy: TpmCrb)
        ensures
            copy.socket_path@ == self.socket_path@,
    {
        TpmCrb { socket_path: self.socket_path.clone() }
    }
}

impl Clone for TpmStateDisk {
    fn clone(&self) -> (copy: TpmStateDisk)
        ensures
            copy.request_json@ == self.request_json@,
    {
        TpmStateDisk { request_json: self.request_json.clone() }
    }
}

impl TpmStateDisk {
    /// A text form for diagnostics, which is the same for every volume: it
    /// gives nothing of the request away.
    pub fn debug_text(&self) -> (text: String)
        ensures
            text@ == "TpmStateDisk { request_json: \"<redacted>\" }"@,
    {
        "TpmStateDisk { request_json: \"<redacted>\" }".to_string()
    }

    /// The same over several lines.
    pub fn debug_text_pretty(&self) -> (text: String)
        ensures
            text@ == "TpmStateDisk {\n    request_json: \"<redacted>\",\n}"@,
    {
        "TpmStateDisk {\n    request_json: \"<redacted>\",\n}".to_string()
    }
}

} // verus!
