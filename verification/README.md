# vtpm

A TPM 2.0 device for virtual machines, with the Command Response Buffer (CRB)
interface. The logic is verified with Verus.

- `src/` is the verified library: the register model of the device
  (`tpm::crb`) and its laws (`tpm::laws`), the ACPI tables (`tpm::acpi`, on top
  of `tpm::aml`), the firmware's loader script (`tpm::loader`), the protocol
  spoken to swtpm (`tpm::swtpm`), the map of MMIO windows (`mmio`), and the
  configuration of the devices (`devices`).
- `app/` is ordinary Rust around it: locks, the socket, and serialization.
- `tests/` runs the library on concrete values.
