use vtpm::devices::{PciPath, TpmCrb, TpmStateDisk, VirtioSocket};

#[test]
fn state_disk_text_is_redacted() {
    let a = TpmStateDisk { request_json: String::from("{\"id\":1}") };
    let b = TpmStateDisk { request_json: String::from("something else") };
    assert_eq!(a.debug_text(), "TpmStateDisk { request_json: \"<redacted>\" }");
    assert_eq!(a.debug_text(), b.debug_text());
    assert_eq!(a.debug_text_pretty(), "TpmStateDisk {\n    request_json: \"<redacted>\",\n}");
    assert_eq!(a.debug_text_pretty(), b.debug_text_pretty());
    assert_eq!(a.clone().request_json, "{\"id\":1}");
}

#[test]
fn device_values() {
    let path = PciPath { bus: 0, device: 4, function: 0 };
    let socket = VirtioSocket { guest_cid: 3, pci_path: path };
    assert_eq!(socket, VirtioSocket { guest_cid: 3, pci_path: path });
    let tpm = TpmCrb { socket_path: String::from("/tmp/mytpm.sock") };
    assert_eq!(tpm.clone().socket_path, "/tmp/mytpm.sock");
    assert_eq!(format!("{:?}", tpm), "TpmCrb { socket_path: \"/tmp/mytpm.sock\" }");
}
