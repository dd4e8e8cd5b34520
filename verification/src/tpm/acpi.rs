//! The ACPI tables that announce the TPM to the guest.

use crate::bytes::{
    append, ascii, be_bytes, byte_sum, le_bytes, le_value, push_le, push_zeros, sum_from,
    wrapping_sum, zeros,
};
use crate::bytes::{
    lemma_byte_sum_concat, lemma_byte_sum_front, lemma_byte_sum_update, lemma_le_bytes_len,
    lemma_le_value_of_bytes, lemma_pow256_values,
};
use crate::tpm::aml;
use crate::tpm::crb::REG_CTRL_REQ;
use crate::tpm::loader::CHECKSUM_OFFSET;
use crate::tpm::{TPM_CRB_BASE_ADDR, TPM_CRB_SIZE};
use vstd::prelude::*;

verus! {

/// The size of the header that every ACPI table starts with.
pub const ACPI_HEADER_SIZE: usize = 36;

/// The size of the TPM2 table.
pub const TPM2_TABLE_SIZE: usize = 76;

/// Where the control area starts in locality 0's page.
pub const CONTROL_AREA_OFFSET: usize = 0x40;

/// The start method for the CRB interface.
pub const START_METHOD_CRB: u32 = 7;

/// The header of an ACPI table, with OEM revision 1.
pub open spec fn acpi_header(
    signature: Seq<char>,
    length: nat,
    revision: u8,
    checksum: u8,
    oem_table_id: Seq<char>,
    creator_id: Seq<char>,
    creator_revision: nat,
) -> Seq<u8> {
    ascii(signature) + le_bytes(length, 4) + seq![revision, checksum] + ascii("OXIDE "@) + ascii(
        oem_table_id,
    ) + le_bytes(1, 4) + ascii(creator_id) + le_bytes(creator_revision, 4)
}

/// The byte that makes the sum of a table a multiple of 256, where it takes
/// the place of a zero.
pub open spec fn checksum_for(table: Seq<u8>) -> u8 {
    ((256 - byte_sum(table) % 256) % 256) as u8
}

/// The TPM2 table with a given checksum byte: client platform, control area in
/// locality 0, CRB start method without parameters, no event log.
pub open spec fn tpm2_table_with(checksum: u8) -> Seq<u8> {
    acpi_header(
        "TPM2"@,
        TPM2_TABLE_SIZE as nat,
        4,
        checksum,
        "PROPIVM "@,
        "PRPL"@,
        1,
    ) + le_bytes(0, 2) + le_bytes(0, 2) + le_bytes(
        (TPM_CRB_BASE_ADDR + CONTROL_AREA_OFFSET) as nat,
        8,
    ) + le_bytes(START_METHOD_CRB as nat, 4) + zeros(12) + le_bytes(0, 4) + le_bytes(0, 8)
}

/// The TPM2 table.
pub open spec fn tpm2_table() -> Seq<u8> {
    tpm2_table_with(checksum_for(tpm2_table_with(0)))
}

/// Builds the TPM2 table for the CRB interface.
pub fn build_acpi_tpm2_table() -> (table: Vec<u8>)
    ensures
        table@ == tpm2_table(),
        table@.len() == TPM2_TABLE_SIZE,
        byte_sum(table@) % 256 == 0,
{
    broadcast use lemma_le_bytes_len;

    proof {
        reveal_strlit("TPM2");
        reveal_strlit("OXIDE ");
        reveal_strlit("PROPIVM ");
        reveal_strlit("PRPL");
    }
    let mut t: Vec<u8> = Vec::new();
    append(&mut t, &[0x54, 0x50, 0x4d, 0x32]);
    assert(t@ =~= ascii("TPM2"@));
    push_le(&mut t, TPM2_TABLE_SIZE as u64, 4);
    t.push(4);
    t.push(0);
    append(&mut t, &[0x4f, 0x58, 0x49, 0x44, 0x45, 0x20]);
    append(&mut t, &[0x50, 0x52, 0x4f, 0x50, 0x49, 0x56, 0x4d, 0x20]);
    push_le(&mut t, 1, 4);
    append(&mut t, &[0x50, 0x52, 0x50, 0x4c]);
    push_le(&mut t, 1, 4);
    assert(t@ =~= acpi_header("TPM2"@, TPM2_TABLE_SIZE as nat, 4, 0, "PROPIVM "@, "PRPL"@, 1));
    push_le(&mut t, 0, 2);
    push_le(&mut t, 0, 2);
    push_le(&mut t, (TPM_CRB_BASE_ADDR + CONTROL_AREA_OFFSET) as u64, 8);
    push_le(&mut t, START_METHOD_CRB as u64, 4);
    push_zeros(&mut t, 12);
    push_le(&mut t, 0, 4);
    push_le(&mut t, 0, 8);
    assert(t@ =~= tpm2_table_with(0));

    let sum: u8 = wrapping_sum(t.as_slice());
    let checksum: u8 = 0u8.wrapping_sub(sum);
    t.set(9, checksum);
    proof {
        assert(t@ =~= tpm2_table_with(checksum));
        lemma_byte_sum_update(tpm2_table_with(0), 9, checksum);
    }
    t
}

/// The size of the SSDT with the TPM's device node.
pub const TPM2_SSDT_SIZE: usize = 295;

/// The checksum of the SSDT.
pub const TPM2_SSDT_CHECKSUM: u8 = 0xcb;

/// The variable that holds the number of the requested function.
pub open spec fn selector() -> Seq<u8> {
    ascii("_T_0"@)
}

/// What the Physical Presence Interface answers for function `f`: which
/// functions there are (0 to 8); submitted; no pending operation; the platform
/// action; no last response; no language; submitted; allowed; no action.
pub open spec fn ppi_answer(f: u8) -> Seq<u8> {
    if f == 0 {
        aml::buffer(seq![0xffu8, 0x01u8])
    } else if f == 2 || f == 6 {
        aml::zero_package(2)
    } else if f == 3 {
        aml::integer(2)
    } else if f == 4 {
        aml::zero_package(3)
    } else if f == 5 {
        aml::integer(3)
    } else if f == 7 {
        aml::integer(4)
    } else {
        aml::integer(0)
    }
}

/// `If(LEqual(_T_0, f)) { Return(..) }`.
pub open spec fn ppi_case(f: u8) -> Seq<u8> {
    aml::if_then(aml::equal(selector(), aml::integer(f)), aml::ret(ppi_answer(f)))
}

/// The cases from function `f` on, each in the `Else` branch of the one
/// before.
pub open spec fn ppi_cases(f: u8) -> Seq<u8>
    decreases 8 - f,
{
    if f < 8 {
        ppi_case(f) + aml::otherwise(ppi_cases((f + 1) as u8))
    } else {
        ppi_case(8)
    }
}

/// The choice between the functions of the Physical Presence Interface.
pub open spec fn ppi_switch() -> Seq<u8> {
    aml::while_loop(
        aml::integer(1),
        aml::store(aml::to_integer(aml::arg(2)), selector()) + ppi_cases(0) + aml::leave(),
    )
}

/// `_DSM`: the Physical Presence Interface, and an empty buffer for any other
/// UUID or function.
pub open spec fn dsm_method() -> Seq<u8> {
    aml::method(
        ascii("_DSM"@),
        4,
        true,
        aml::name(selector(), aml::integer(0)) + aml::if_then(
            aml::equal(
                aml::arg(0),
                aml::uuid(0x3DDDFAA6, 0x361B, 0x4EB4, 0xA424, 0x8D10089D1653),
            ),
            ppi_switch(),
        ) + aml::ret(aml::buffer(seq![0u8])),
    )
}

/// The TPM's device node: `MSFT0101`, with the register window as its resource,
/// present, enabled, shown and functioning.
pub open spec fn tpm_device() -> Seq<u8> {
    aml::device(
        ascii("TPM_"@),
        aml::name(ascii("_HID"@), aml::string(ascii("MSFT0101"@))) + aml::name(
            ascii("_CRS"@),
            aml::memory32_fixed(TPM_CRB_BASE_ADDR as nat, TPM_CRB_SIZE as nat),
        ) + aml::method(ascii("_STA"@), 0, false, aml::ret(aml::integer(0x0f))) + dsm_method(),
    )
}

/// The SSDT with the TPM's device node in the scope `\_SB`.
pub open spec fn tpm2_ssdt() -> Seq<u8> {
    acpi_header(
        "SSDT"@,
        TPM2_SSDT_SIZE as nat,
        2,
        TPM2_SSDT_CHECKSUM,
        "TPMDEV  "@,
        "INTL"@,
        0x20251212,
    ) + aml::scope(ascii("\\_SB_"@), tpm_device())
}

/// The header of the SSDT.
const SSDT_HEADER: [u8; 36] = [
    0x53, 0x53, 0x44, 0x54, 0x27, 0x01, 0x00, 0x00, 0x02, 0xcb, 0x4f, 0x58, 0x49, 0x44, 0x45, 0x20,
    0x54, 0x50, 0x4d, 0x44, 0x45, 0x56, 0x20, 0x20, 0x01, 0x00, 0x00, 0x00, 0x49, 0x4e, 0x54, 0x4c,
    0x12, 0x12, 0x25, 0x20,
];

/// `Scope(\_SB) {`.
const SCOPE_HEAD: [u8; 8] = [0x10, 0x42, 0x10, 0x5c, 0x5f, 0x53, 0x42, 0x5f];

/// `Device(TPM) {` and its `_HID`.
const DEVICE_HEAD: [u8; 23] = [
    0x5b, 0x82, 0x49, 0x0f, 0x54, 0x50, 0x4d, 0x5f, 0x08, 0x5f, 0x48, 0x49, 0x44, 0x0d, 0x4d, 0x53,
    0x46, 0x54, 0x30, 0x31, 0x30, 0x31, 0x00,
];

/// `_CRS`.
const DEVICE_CRS: [u8; 23] = [
    0x08, 0x5f, 0x43, 0x52, 0x53, 0x11, 0x11, 0x0a, 0x0e, 0x86, 0x09, 0x00, 0x01, 0x00, 0x00, 0xd4,
    0xfe, 0x00, 0x50, 0x00, 0x00, 0x79, 0x00,
];

/// `_STA`.
const DEVICE_STA: [u8; 10] = [0x14, 0x09, 0x5f, 0x53, 0x54, 0x41, 0x00, 0xa4, 0x0a, 0x0f];

/// `Method(_DSM, 4, Serialized) {` up to the comparison of the UUID.
const DSM_HEAD: [u8; 39] = [
    0x14, 0x42, 0x0c, 0x5f, 0x44, 0x53, 0x4d, 0x0c, 0x08, 0x5f, 0x54, 0x5f, 0x30, 0x00, 0xa0, 0x4f,
    0x0a, 0x93, 0x68, 0x11, 0x13, 0x0a, 0x10, 0xa6, 0xfa, 0xdd, 0x3d, 0x1b, 0x36, 0xb4, 0x4e, 0xa4,
    0x24, 0x8d, 0x10, 0x08, 0x9d, 0x16, 0x53,
];

/// `While(One) {` and the selection of the function.
const SWITCH_HEAD: [u8; 12] = [
    0xa2, 0x46, 0x09, 0x01, 0x70, 0x99, 0x6a, 0x00, 0x5f, 0x54, 0x5f, 0x30,
];

/// Function 0, and the `Else` around the next.
const CASE_0: [u8; 18] = [
    0xa0, 0x0e, 0x93, 0x5f, 0x54, 0x5f, 0x30, 0x00, 0xa4, 0x11, 0x05, 0x0a, 0x02, 0xff, 0x01, 0xa1,
    0x4a, 0x07,
];

/// Function 1, and the `Else` around the next.
const CASE_1: [u8; 13] = [
    0xa0, 0x09, 0x93, 0x5f, 0x54, 0x5f, 0x30, 0x01, 0xa4, 0x00, 0xa1, 0x4d, 0x06,
];

/// Function 2, and the `Else` around the next.
const CASE_2: [u8; 18] = [
    0xa0, 0x0e, 0x93, 0x5f, 0x54, 0x5f, 0x30, 0x0a, 0x02, 0xa4, 0x12, 0x04, 0x02, 0x00, 0x00, 0xa1,
    0x4b, 0x05,
];

/// Function 3, and the `Else` around the next.
const CASE_3: [u8; 15] = [
    0xa0, 0x0b, 0x93, 0x5f, 0x54, 0x5f, 0x30, 0x0a, 0x03, 0xa4, 0x0a, 0x02, 0xa1, 0x4c, 0x04,
];

/// Function 4, and the `Else` around the next.
const CASE_4: [u8; 18] = [
    0xa0, 0x0f, 0x93, 0x5f, 0x54, 0x5f, 0x30, 0x0a, 0x04, 0xa4, 0x12, 0x05, 0x03, 0x00, 0x00, 0x00,
    0xa1, 0x39,
];

/// Function 5, and the `Else` around the next.
const CASE_5: [u8; 14] = [
    0xa0, 0x0b, 0x93, 0x5f, 0x54, 0x5f, 0x30, 0x0a, 0x05, 0xa4, 0x0a, 0x03, 0xa1, 0x2b,
];

/// Function 6, and the `Else` around the next.
const CASE_6: [u8; 17] = [
    0xa0, 0x0e, 0x93, 0x5f, 0x54, 0x5f, 0x30, 0x0a, 0x06, 0xa4, 0x12, 0x04, 0x02, 0x00, 0x00, 0xa1,
    0x1a,
];

/// Function 7, and the `Else` around the next.
const CASE_7: [u8; 14] = [
    0xa0, 0x0b, 0x93, 0x5f, 0x54, 0x5f, 0x30, 0x0a, 0x07, 0xa4, 0x0a, 0x04, 0xa1, 0x0c,
];

/// Function 8.
const CASE_8: [u8; 11] = [0xa0, 0x0a, 0x93, 0x5f, 0x54, 0x5f, 0x30, 0x0a, 0x08, 0xa4, 0x00];

/// `Break`.
const SWITCH_TAIL: [u8; 1] = [0xa5];

/// `Return(Buffer(1) { 0 })`.
const DSM_TAIL: [u8; 5] = [0xa4, 0x11, 0x03, 0x01, 0x00];

/// The cases as bytes.
proof fn lemma_ppi_cases_image()
    ensures
        ppi_cases(8) == CASE_8@,
        ppi_cases(7) == CASE_7@ + ppi_cases(8),
        ppi_cases(6) == CASE_6@ + ppi_cases(7),
        ppi_cases(5) == CASE_5@ + ppi_cases(6),
        ppi_cases(4) == CASE_4@ + ppi_cases(5),
        ppi_cases(3) == CASE_3@ + ppi_cases(4),
        ppi_cases(2) == CASE_2@ + ppi_cases(3),
        ppi_cases(1) == CASE_1@ + ppi_cases(2),
        ppi_cases(0) == CASE_0@ + ppi_cases(1),
        ppi_cases(0).len() == 138,
{
    reveal_strlit("_T_0");
    assert(ppi_cases(8).len() == 11);
    assert(ppi_cases(7).len() == 25);
    assert(ppi_cases(6).len() == 42);
    assert(ppi_cases(5).len() == 56);
    assert(ppi_cases(4).len() == 74);
    assert(ppi_cases(3).len() == 89);
    assert(ppi_cases(2).len() == 107);
    assert(ppi_cases(1).len() == 120);
}

/// What each run of bytes adds to the checksum.
proof fn lemma_part_sums()
    ensures
        byte_sum(SSDT_HEADER@) == 1917,
        byte_sum(SCOPE_HEAD@) == 529,
        byte_sum(DEVICE_HEAD@) == 1482,
        byte_sum(DEVICE_CRS@) == 1204,
        byte_sum(DEVICE_STA@) == 545,
        byte_sum(DSM_HEAD@) == 2989,
        byte_sum(SWITCH_HEAD@) == 935,
        byte_sum(CASE_0@) == 1339,
        byte_sum(CASE_1@) == 1047,
        byte_sum(CASE_2@) == 1084,
        byte_sum(CASE_3@) == 1070,
        byte_sum(CASE_4@) == 1066,
        byte_sum(CASE_5@) == 1036,
        byte_sum(CASE_6@) == 1034,
        byte_sum(CASE_7@) == 1008,
        byte_sum(CASE_8@) == 821,
        byte_sum(SWITCH_TAIL@) == 165,
        byte_sum(DSM_TAIL@) == 185,
{
    reveal_with_fuel(sum_from, 40);
    lemma_byte_sum_front(SSDT_HEADER@);
    lemma_byte_sum_front(SCOPE_HEAD@);
    lemma_byte_sum_front(DEVICE_HEAD@);
    lemma_byte_sum_front(DEVICE_CRS@);
    lemma_byte_sum_front(DEVICE_STA@);
    lemma_byte_sum_front(DSM_HEAD@);
    lemma_byte_sum_front(SWITCH_HEAD@);
    lemma_byte_sum_front(CASE_0@);
    lemma_byte_sum_front(CASE_1@);
    lemma_byte_sum_front(CASE_2@);
    lemma_byte_sum_front(CASE_3@);
    lemma_byte_sum_front(CASE_4@);
    lemma_byte_sum_front(CASE_5@);
    lemma_byte_sum_front(CASE_6@);
    lemma_byte_sum_front(CASE_7@);
    lemma_byte_sum_front(CASE_8@);
    lemma_byte_sum_front(SWITCH_TAIL@);
    lemma_byte_sum_front(DSM_TAIL@);
}

/// The choice between the functions as bytes.
proof fn lemma_ppi_switch_image()
    ensures
        ppi_switch() == SWITCH_HEAD@ + (ppi_cases(0) + SWITCH_TAIL@),
        ppi_switch().len() == 151,
{
    reveal_strlit("_T_0");
    lemma_ppi_cases_image();
}

/// `_DSM` as bytes.
proof fn lemma_dsm_method_image()
    ensures
        dsm_method() == DSM_HEAD@ + (ppi_switch() + DSM_TAIL@),
        dsm_method().len() == 195,
{
    reveal_strlit("_T_0");
    reveal_strlit("_DSM");
    reveal_with_fuel(le_bytes, 5);
    reveal_with_fuel(be_bytes, 7);
    lemma_ppi_switch_image();
    assert(aml::uuid(0x3DDDFAA6, 0x361B, 0x4EB4, 0xA424, 0x8D10089D1653)
        == DSM_HEAD@.subrange(19, 39));
}

/// The device node as bytes.
proof fn lemma_tpm_device_image()
    ensures
        tpm_device() == DEVICE_HEAD@ + (DEVICE_CRS@ + (DEVICE_STA@ + dsm_method())),
        tpm_device().len() == 251,
{
    reveal_strlit("TPM_");
    reveal_strlit("_HID");
    reveal_strlit("MSFT0101");
    reveal_strlit("_CRS");
    reveal_strlit("_STA");
    reveal_with_fuel(le_bytes, 5);
    lemma_dsm_method_image();
    assert(aml::memory32_fixed(TPM_CRB_BASE_ADDR as nat, TPM_CRB_SIZE as nat)
        == DEVICE_CRS@.subrange(5, 23));
}

/// The table as bytes.
proof fn lemma_tpm2_ssdt_image()
    ensures
        tpm2_ssdt() == SSDT_HEADER@ + (SCOPE_HEAD@ + tpm_device()),
        tpm2_ssdt().len() == TPM2_SSDT_SIZE,
{
    reveal_strlit("SSDT");
    reveal_strlit("OXIDE ");
    reveal_strlit("TPMDEV  ");
    reveal_strlit("INTL");
    reveal_strlit("\\_SB_");
    reveal_with_fuel(le_bytes, 5);
    lemma_tpm_device_image();
}

/// Appends `part`. Where `rest` then completes `whole`, the sums of what is
/// there and of `part` add up.
fn emit(out: &mut Vec<u8>, part: &[u8], rest: Ghost<Seq<u8>>, whole: Ghost<Seq<u8>>)
    requires
        old(out)@ + (part@ + rest@) == whole@,
    ensures
        final(out)@ + rest@ == whole@,
        byte_sum(final(out)@) == byte_sum(old(out)@) + byte_sum(part@),
{
    append(out, part);
    proof {
        lemma_byte_sum_concat(old(out)@, part@);
        assert(old(out)@ + part@ + rest@ =~= old(out)@ + (part@ + rest@));
    }
}

/// Appends the cases.
fn emit_ppi_cases(out: &mut Vec<u8>)
    ensures
        final(out)@ == old(out)@ + ppi_cases(0),
        byte_sum(final(out)@) == byte_sum(old(out)@) + 9505,
{
    proof {
        lemma_ppi_cases_image();
        lemma_part_sums();
    }
    let ghost whole = out@ + ppi_cases(0);
    emit(out, &CASE_0, Ghost(ppi_cases(1)), Ghost(whole));
    emit(out, &CASE_1, Ghost(ppi_cases(2)), Ghost(whole));
    emit(out, &CASE_2, Ghost(ppi_cases(3)), Ghost(whole));
    emit(out, &CASE_3, Ghost(ppi_cases(4)), Ghost(whole));
    emit(out, &CASE_4, Ghost(ppi_cases(5)), Ghost(whole));
    emit(out, &CASE_5, Ghost(ppi_cases(6)), Ghost(whole));
    emit(out, &CASE_6, Ghost(ppi_cases(7)), Ghost(whole));
    emit(out, &CASE_7, Ghost(ppi_cases(8)), Ghost(whole));
    let ghost before = out@;
    append(out, &CASE_8);
    proof {
        lemma_byte_sum_concat(before, CASE_8@);
    }
}

/// Appends `_DSM`.
fn emit_dsm_method(out: &mut Vec<u8>)
    ensures
        final(out)@ == old(out)@ + dsm_method(),
        byte_sum(final(out)@) == byte_sum(old(out)@) + 13779,
{
    proof {
        lemma_dsm_method_image();
        lemma_ppi_switch_image();
        lemma_part_sums();
    }
    let ghost whole = out@ + dsm_method();
    emit(out, &DSM_HEAD, Ghost(ppi_switch() + DSM_TAIL@), Ghost(whole));
    let ghost after_cases = SWITCH_TAIL@ + DSM_TAIL@;
    assert(ppi_switch() + DSM_TAIL@ =~= SWITCH_HEAD@ + (ppi_cases(0) + after_cases));
    emit(out, &SWITCH_HEAD, Ghost(ppi_cases(0) + after_cases), Ghost(whole));
    let ghost before_cases = out@;
    emit_ppi_cases(out);
    assert(out@ + after_cases =~= before_cases + (ppi_cases(0) + after_cases));
    emit(out, &SWITCH_TAIL, Ghost(DSM_TAIL@), Ghost(whole));
    let ghost before = out@;
    append(out, &DSM_TAIL);
    proof {
        lemma_byte_sum_concat(before, DSM_TAIL@);
    }
}

/// Builds the SSDT with the TPM's device node.
///
/// A guest loads its CRB driver only for a device node with the hardware
/// identifier `MSFT0101`; the TPM2 table alone does not suffice. Without the
/// Physical Presence Interface it takes the TPM for broken.
pub fn build_acpi_tpm2_ssdt() -> (table: Vec<u8>)
    ensures
        table@ == tpm2_ssdt(),
        table@.len() == TPM2_SSDT_SIZE,
        byte_sum(table@) % 256 == 0,
{
    proof {
        lemma_tpm2_ssdt_image();
        lemma_tpm_device_image();
        lemma_part_sums();
    }
    let ghost whole = tpm2_ssdt();
    let mut t: Vec<u8> = Vec::new();
    assert(t@ + whole =~= whole);
    emit(&mut t, &SSDT_HEADER, Ghost(SCOPE_HEAD@ + tpm_device()), Ghost(whole));
    emit(&mut t, &SCOPE_HEAD, Ghost(tpm_device()), Ghost(whole));
    emit(
        &mut t,
        &DEVICE_HEAD,
        Ghost(DEVICE_CRS@ + (DEVICE_STA@ + dsm_method())),
        Ghost(whole),
    );
    emit(&mut t, &DEVICE_CRS, Ghost(DEVICE_STA@ + dsm_method()), Ghost(whole));
    emit(&mut t, &DEVICE_STA, Ghost(dsm_method()), Ghost(whole));
    emit_dsm_method(&mut t);
    t
}

/// What a reader finds in the TPM2 table: the signature, the size of the whole
/// table, the revision, the address of the control area, which is where locality
/// 0's control registers start, and the start method. Its bytes sum up to a
/// multiple of 256.
pub proof fn law_tpm2_table_fields()
    ensures
        ({
            let t = tpm2_table();
            &&& t.len() == TPM2_TABLE_SIZE
            &&& t.subrange(0, 4) == ascii("TPM2"@)
            &&& le_value(t.subrange(4, 8)) == t.len()
            &&& t[8] == 4
            &&& le_value(t.subrange(40, 48)) == TPM_CRB_BASE_ADDR + REG_CTRL_REQ
            &&& le_value(t.subrange(48, 52)) == START_METHOD_CRB
            &&& byte_sum(t) % 256 == 0
        }),
{
    broadcast use lemma_le_bytes_len;

    reveal_strlit("TPM2");
    reveal_strlit("OXIDE ");
    reveal_strlit("PROPIVM ");
    reveal_strlit("PRPL");
    let t = tpm2_table();
    let checksum = checksum_for(tpm2_table_with(0));
    let control = (TPM_CRB_BASE_ADDR + CONTROL_AREA_OFFSET) as nat;
    lemma_pow256_values();
    lemma_le_value_of_bytes(TPM2_TABLE_SIZE as nat, 4);
    lemma_le_value_of_bytes(control, 8);
    lemma_le_value_of_bytes(START_METHOD_CRB as nat, 4);
    assert(t.subrange(0, 4) =~= ascii("TPM2"@));
    assert(t.subrange(4, 8) =~= le_bytes(TPM2_TABLE_SIZE as nat, 4));
    assert(t.subrange(40, 48) =~= le_bytes(control, 8));
    assert(t.subrange(48, 52) =~= le_bytes(START_METHOD_CRB as nat, 4));
    assert(tpm2_table_with(0).update(9, checksum) =~= t);
    lemma_byte_sum_update(tpm2_table_with(0), 9, checksum);
}

/// The header of an ACPI table has its fixed size, and holds the checksum where
/// the loader script has it recomputed.
pub proof fn law_checksum_place(
    signature: Seq<char>,
    length: nat,
    revision: u8,
    checksum: u8,
    oem_table_id: Seq<char>,
    creator_id: Seq<char>,
    creator_revision: nat,
)
    requires
        signature.len() == 4,
        oem_table_id.len() == 8,
        creator_id.len() == 4,
    ensures
        ({
            let header = acpi_header(
                signature,
                length,
                revision,
                checksum,
                oem_table_id,
                creator_id,
                creator_revision,
            );
            &&& header.len() == ACPI_HEADER_SIZE
            &&& header[CHECKSUM_OFFSET as int] == checksum
        }),
{
    broadcast use lemma_le_bytes_len;

    reveal_strlit("OXIDE ");
}

/// What a reader finds in the header of the SSDT: the signature and the size of
/// the whole table.
pub proof fn law_ssdt_header()
    ensures
        tpm2_ssdt().len() == TPM2_SSDT_SIZE,
        tpm2_ssdt().subrange(0, 4) == ascii("SSDT"@),
        le_value(tpm2_ssdt().subrange(4, 8)) == tpm2_ssdt().len(),
{
    broadcast use lemma_le_bytes_len;

    reveal_strlit("SSDT");
    lemma_tpm2_ssdt_image();
    lemma_pow256_values();
    lemma_le_value_of_bytes(TPM2_SSDT_SIZE as nat, 4);
    assert(tpm2_ssdt().subrange(0, 4) =~= ascii("SSDT"@));
    assert(tpm2_ssdt().subrange(4, 8) =~= le_bytes(TPM2_SSDT_SIZE as nat, 4));
}

} // verus!
