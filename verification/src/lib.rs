//! Guest-facing model of a TPM 2.0 device with a Command Response Buffer
//! interface, the firmware tables that announce it, and the protocol spoken to
//! a software TPM on the host.
//!
//! - [`tpm`] holds the register window's layout, the interface to a command
//!   executor, and under it the register model ([`tpm::crb`]), the ACPI tables
//!   ([`tpm::acpi`]), the firmware loader script ([`tpm::loader`]) and the
//!   swtpm protocol ([`tpm::swtpm`]).
//! - [`mmio`] is the map of guest-physical address windows.
//! - [`common`] describes one guest access.
//! - [`devices`] holds the configuration of the devices.
//! - [`bytes`] is byte order, byte sums and overwriting.

pub mod bytes;
pub mod common;
pub mod devices;
pub mod mmio;
pub mod tpm;
