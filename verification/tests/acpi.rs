use vtpm::tpm::acpi::{build_acpi_tpm2_ssdt, build_acpi_tpm2_table};
use vtpm::tpm::loader::build_fw_cfg_table_loader;

fn sum(bytes: &[u8]) -> u8 {
    bytes.iter().fold(0u8, |acc, &b| acc.wrapping_add(b))
}

#[test]
fn ssdt_bytes() {
    let expected: Vec<u8> = vec![
        0x53, 0x53, 0x44, 0x54, 0x27, 0x01, 0x00, 0x00, 0x02, 0xcb, 0x4f, 0x58,
        0x49, 0x44, 0x45, 0x20, 0x54, 0x50, 0x4d, 0x44, 0x45, 0x56, 0x20, 0x20,
        0x01, 0x00, 0x00, 0x00, 0x49, 0x4e, 0x54, 0x4c, 0x12, 0x12, 0x25, 0x20,
        0x10, 0x42, 0x10, 0x5c, 0x5f, 0x53, 0x42, 0x5f, 0x5b, 0x82, 0x49, 0x0f,
        0x54, 0x50, 0x4d, 0x5f, 0x08, 0x5f, 0x48, 0x49, 0x44, 0x0d, 0x4d, 0x53,
        0x46, 0x54, 0x30, 0x31, 0x30, 0x31, 0x00, 0x08, 0x5f, 0x43, 0x52, 0x53,
        0x11, 0x11, 0x0a, 0x0e, 0x86, 0x09, 0x00, 0x01, 0x00, 0x00, 0xd4, 0xfe,
        0x00, 0x50, 0x00, 0x00, 0x79, 0x00, 0x14, 0x09, 0x5f, 0x53, 0x54, 0x41,
        0x00, 0xa4, 0x0a, 0x0f, 0x14, 0x42, 0x0c, 0x5f, 0x44, 0x53, 0x4d, 0x0c,
        0x08, 0x5f, 0x54, 0x5f, 0x30, 0x00, 0xa0, 0x4f, 0x0a, 0x93, 0x68, 0x11,
        0x13, 0x0a, 0x10, 0xa6, 0xfa, 0xdd, 0x3d, 0x1b, 0x36, 0xb4, 0x4e, 0xa4,
        0x24, 0x8d, 0x10, 0x08, 0x9d, 0x16, 0x53, 0xa2, 0x46, 0x09, 0x01, 0x70,
        0x99, 0x6a, 0x00, 0x5f, 0x54, 0x5f, 0x30, 0xa0, 0x0e, 0x93, 0x5f, 0x54,
        0x5f, 0x30, 0x00, 0xa4, 0x11, 0x05, 0x0a, 0x02, 0xff, 0x01, 0xa1, 0x4a,
        0x07, 0xa0, 0x09, 0x93, 0x5f, 0x54, 0x5f, 0x30, 0x01, 0xa4, 0x00, 0xa1,
        0x4d, 0x06, 0xa0, 0x0e, 0x93, 0x5f, 0x54, 0x5f, 0x30, 0x0a, 0x02, 0xa4,
        0x12, 0x04, 0x02, 0x00, 0x00, 0xa1, 0x4b, 0x05, 0xa0, 0x0b, 0x93, 0x5f,
        0x54, 0x5f, 0x30, 0x0a, 0x03, 0xa4, 0x0a, 0x02, 0xa1, 0x4c, 0x04, 0xa0,
        0x0f, 0x93, 0x5f, 0x54, 0x5f, 0x30, 0x0a, 0x04, 0xa4, 0x12, 0x05, 0x03,
        0x00, 0x00, 0x00, 0xa1, 0x39, 0xa0, 0x0b, 0x93, 0x5f, 0x54, 0x5f, 0x30,
        0x0a, 0x05, 0xa4, 0x0a, 0x03, 0xa1, 0x2b, 0xa0, 0x0e, 0x93, 0x5f, 0x54,
        0x5f, 0x30, 0x0a, 0x06, 0xa4, 0x12, 0x04, 0x02, 0x00, 0x00, 0xa1, 0x1a,
        0xa0, 0x0b, 0x93, 0x5f, 0x54, 0x5f, 0x30, 0x0a, 0x07, 0xa4, 0x0a, 0x04,
        0xa1, 0x0c, 0xa0, 0x0a, 0x93, 0x5f, 0x54, 0x5f, 0x30, 0x0a, 0x08, 0xa4,
        0x00, 0xa5, 0xa4, 0x11, 0x03, 0x01, 0x00,
    ];
    let table = build_acpi_tpm2_ssdt();
    assert_eq!(table.len(), 295);
    assert_eq!(table, expected);
    assert_eq!(sum(&table), 0);
}

#[test]
fn tpm2_table_bytes() {
    let table = build_acpi_tpm2_table();
    assert_eq!(table.len(), 76);
    assert_eq!(&table[0..4], b"TPM2");
    assert_eq!(&table[4..8], &[76, 0, 0, 0]);
    assert_eq!(table[8], 4);
    assert_eq!(table[9], 0x4E);
    assert_eq!(&table[10..16], b"OXIDE ");
    assert_eq!(&table[16..24], b"PROPIVM ");
    assert_eq!(&table[24..28], &[1, 0, 0, 0]);
    assert_eq!(&table[28..32], b"PRPL");
    assert_eq!(&table[32..36], &[1, 0, 0, 0]);
    assert_eq!(&table[36..40], &[0; 4]);
    assert_eq!(&table[40..48], &[0x40, 0x00, 0xD4, 0xFE, 0, 0, 0, 0]);
    assert_eq!(&table[48..52], &[7, 0, 0, 0]);
    assert_eq!(&table[52..76], &[0; 24]);
    assert_eq!(sum(&table), 0);
}

fn entry_head(code: u8) -> Vec<u8> {
    let mut e = vec![code, 0, 0, 0];
    e.extend_from_slice(b"etc/acpi/tables");
    e.resize(60, 0);
    e
}

#[test]
fn loader_without_tables() {
    let script = build_fw_cfg_table_loader(&[]);
    let mut expected = entry_head(1);
    expected.extend_from_slice(&[64, 0, 0, 0, 1]);
    expected.resize(128, 0);
    assert_eq!(script, expected);
}

#[test]
fn loader_for_both_tables() {
    let script = build_fw_cfg_table_loader(&[(0, 76), (76, 295)]);
    assert_eq!(script.len(), 3 * 128);
    let mut first = entry_head(3);
    first.extend_from_slice(&[9, 0, 0, 0, 0, 0, 0, 0, 76, 0, 0, 0]);
    first.resize(128, 0);
    assert_eq!(&script[128..256], &first[..]);
    let mut second = entry_head(3);
    second.extend_from_slice(&[85, 0, 0, 0, 76, 0, 0, 0, 0x27, 0x01, 0, 0]);
    second.resize(128, 0);
    assert_eq!(&script[256..384], &second[..]);
}

#[test]
fn loader_takes_low_halves() {
    let script = build_fw_cfg_table_loader(&[(0x1_0000_0010, 0x2_0000_0020)]);
    assert_eq!(&script[128 + 60..128 + 72], &[0x19, 0, 0, 0, 0x10, 0, 0, 0, 0x20, 0, 0, 0]);
    let script = build_fw_cfg_table_loader(&[(0xFFFF_FFF6, 1)]);
    assert_eq!(&script[128 + 60..128 + 64], &[0xFF; 4]);
}
