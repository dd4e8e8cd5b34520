//! The firmware's loader script for a set of ACPI tables.
//!
//! Firmware takes the tables of the fw_cfg file `etc/acpi/tables` only with a
//! script beside it, in `etc/table-loader`. The script is a sequence of
//! commands of 128 bytes each: one that loads the file into memory, then one
//! for each table, which has the firmware recompute the table's checksum.

use crate::bytes::{append, ascii, le_bytes, le_value, padded, push_le, push_zeros};
use crate::bytes::{
    lemma_le_bytes_len, lemma_le_value_of_bytes, lemma_pow256_values, lemma_word_bytes,
};
use vstd::prelude::*;

verus! {

/// The size of a command.
pub const ENTRY_SIZE: usize = 128;

/// The size of a file name in a command, with the zero byte at its end.
pub const FILESZ: usize = 56;

/// The command that loads a file.
pub const CMD_ALLOCATE: u32 = 1;

/// The command that recomputes a checksum.
pub const CMD_ADD_CHECKSUM: u32 = 3;

/// The alignment of the loaded file.
pub const ALIGNMENT: u32 = 64;

/// The zone of the loaded file: high memory.
pub const ZONE_HIGH: u8 = 1;

/// Where the checksum stands in an ACPI table.
pub const CHECKSUM_OFFSET: u32 = 9;

/// The file that holds the tables.
pub open spec fn tables_file() -> Seq<u8> {
    ascii("etc/acpi/tables"@)
}

/// The command that loads the tables into high memory.
pub open spec fn allocate_entry() -> Seq<u8> {
    padded(
        le_bytes(CMD_ALLOCATE as nat, 4) + padded(tables_file(), FILESZ as int) + le_bytes(
            ALIGNMENT as nat,
            4,
        ) + seq![ZONE_HIGH],
        ENTRY_SIZE as int,
    )
}

/// The command that recomputes the checksum of the table of `len` bytes at
/// `start` in the file. Only the low 32 bits of both count.
pub open spec fn checksum_entry(start: usize, len: usize) -> Seq<u8> {
    padded(
        le_bytes(CMD_ADD_CHECKSUM as nat, 4) + padded(tables_file(), FILESZ as int) + le_bytes(
            start as nat % 0x1_0000_0000 + CHECKSUM_OFFSET as nat,
            4,
        ) + le_bytes(start as nat, 4) + le_bytes(len as nat, 4),
        ENTRY_SIZE as int,
    )
}

/// The script for the tables at `ranges`.
pub open spec fn table_loader(ranges: Seq<(usize, usize)>) -> Seq<u8>
    decreases ranges.len(),
{
    if ranges.len() == 0 {
        allocate_entry()
    } else {
        table_loader(ranges.drop_last()) + checksum_entry(ranges.last().0, ranges.last().1)
    }
}

/// Whether the place of the checksum byte of a table at `start` can be written
/// in 32 bits.
pub open spec fn checksum_place_fits(start: usize) -> bool {
    start as nat % 0x1_0000_0000 + CHECKSUM_OFFSET < 0x1_0000_0000
}

/// Builds the loader script for the ACPI tables that lie at `table_ranges`,
/// each a start and a length, in `etc/acpi/tables`.
pub fn build_fw_cfg_table_loader(table_ranges: &[(usize, usize)]) -> (script: Vec<u8>)
    requires
        forall|i: int|
            0 <= i < table_ranges@.len() ==> checksum_place_fits((#[trigger] table_ranges@[i]).0),
    ensures
        script@ == table_loader(table_ranges@),
        script@.len() == ENTRY_SIZE * (table_ranges@.len() + 1),
{
    let mut out: Vec<u8> = Vec::new();
    push_allocate_entry(&mut out);
    assert(out@ =~= allocate_entry());

    let mut i: usize = 0;
    assert(table_ranges@.take(0).len() == 0);
    while i < table_ranges.len()
        invariant
            i <= table_ranges@.len(),
            forall|j: int|
                0 <= j < table_ranges@.len() ==> checksum_place_fits(
                    (#[trigger] table_ranges@[j]).0,
                ),
            out@ == table_loader(table_ranges@.take(i as int)),
            out@.len() == ENTRY_SIZE * (i + 1),
        decreases table_ranges@.len() - i,
    {
        let (start, len) = table_ranges[i];
        assert(checksum_place_fits(table_ranges@[i as int].0));
        push_checksum_entry(&mut out, start, len);
        i = i + 1;
        assert(table_ranges@.take(i as int).drop_last() =~= table_ranges@.take(i - 1));
    }
    assert(table_ranges@.take(table_ranges@.len() as int) =~= table_ranges@);
    out
}

/// Appends the command that loads the tables.
fn push_allocate_entry(out: &mut Vec<u8>)
    ensures
        final(out)@ == old(out)@ + allocate_entry(),
        allocate_entry().len() == ENTRY_SIZE,
{
    broadcast use lemma_le_bytes_len;

    push_entry_head(out, CMD_ALLOCATE);
    push_le(out, ALIGNMENT as u64, 4);
    out.push(ZONE_HIGH);
    push_zeros(out, 63);
    assert(out@ =~= old(out)@ + allocate_entry());
}

/// Appends the command that recomputes the checksum of one table.
fn push_checksum_entry(out: &mut Vec<u8>, start: usize, len: usize)
    requires
        checksum_place_fits(start),
    ensures
        final(out)@ == old(out)@ + checksum_entry(start, len),
        checksum_entry(start, len).len() == ENTRY_SIZE,
{
    broadcast use lemma_le_bytes_len;

    push_entry_head(out, CMD_ADD_CHECKSUM);
    push_le(out, start as u64 % 0x1_0000_0000 + CHECKSUM_OFFSET as u64, 4);
    push_le(out, start as u64, 4);
    push_le(out, len as u64, 4);
    push_zeros(out, 56);
    assert(out@ =~= old(out)@ + checksum_entry(start, len));
}

/// Appends what every command starts with: its code, and the file it is about.
fn push_entry_head(out: &mut Vec<u8>, code: u32)
    ensures
        final(out)@ == old(out)@ + (le_bytes(code as nat, 4) + padded(
            tables_file(),
            FILESZ as int,
        )),
        tables_file().len() == 15,
{
    let name: [u8; 15] = [
        0x65, 0x74, 0x63, 0x2f, 0x61, 0x63, 0x70, 0x69, 0x2f, 0x74, 0x61, 0x62, 0x6c, 0x65, 0x73,
    ];
    proof {
        reveal_strlit("etc/acpi/tables");
        assert(name@ =~= tables_file());
    }
    push_le(out, code as u64, 4);
    append(out, &name);
    push_zeros(out, FILESZ - 15);
    assert(out@ =~= old(out)@ + (le_bytes(code as nat, 4) + padded(tables_file(), FILESZ as int)));
}

proof fn lemma_entry_lengths(start: usize, len: usize)
    ensures
        tables_file().len() == 15,
        allocate_entry().len() == ENTRY_SIZE,
        checksum_entry(start, len).len() == ENTRY_SIZE,
{
    broadcast use lemma_le_bytes_len;

    reveal_strlit("etc/acpi/tables");
}

/// The script has one command more than there are tables. It loads the tables
/// first, and then has the checksum of each recomputed, in the order of the
/// tables.
pub proof fn law_script_commands(ranges: Seq<(usize, usize)>, i: int)
    requires
        0 <= i < ranges.len(),
    ensures
        table_loader(ranges).len() == ENTRY_SIZE * (ranges.len() + 1),
        table_loader(ranges).subrange(0, ENTRY_SIZE as int) == allocate_entry(),
        table_loader(ranges).subrange(ENTRY_SIZE * (i + 1), ENTRY_SIZE * (i + 2))
            == checksum_entry(ranges[i].0, ranges[i].1),
    decreases ranges.len(),
{
    let last = ranges.last();
    let shorter = ranges.drop_last();
    lemma_entry_lengths(last.0, last.1);
    if shorter.len() == 0 {
        assert(table_loader(shorter) == allocate_entry());
        assert(table_loader(ranges).subrange(0, ENTRY_SIZE as int) =~= allocate_entry());
        assert(table_loader(ranges).subrange(ENTRY_SIZE * (i + 1), ENTRY_SIZE * (i + 2))
            =~= checksum_entry(last.0, last.1));
    } else {
        let j = if i < shorter.len() {
            i
        } else {
            0
        };
        law_script_commands(shorter, j);
        assert(table_loader(ranges).subrange(0, ENTRY_SIZE as int) =~= table_loader(
            shorter,
        ).subrange(0, ENTRY_SIZE as int));
        if i < shorter.len() {
            assert(table_loader(ranges).subrange(ENTRY_SIZE * (i + 1), ENTRY_SIZE * (i + 2))
                =~= table_loader(shorter).subrange(ENTRY_SIZE * (i + 1), ENTRY_SIZE * (i + 2)));
        } else {
            assert(table_loader(ranges).subrange(ENTRY_SIZE * (i + 1), ENTRY_SIZE * (i + 2))
                =~= checksum_entry(last.0, last.1));
        }
    }
}

/// What the firmware reads from the command for a table: the code, the name of
/// the file up to a zero byte, the place of the checksum byte, and the range
/// that the checksum covers.
pub proof fn law_checksum_command(start: usize, len: usize)
    requires
        start + CHECKSUM_OFFSET < 0x1_0000_0000,
        len < 0x1_0000_0000,
    ensures
        ({
            let entry = checksum_entry(start, len);
            &&& entry.len() == ENTRY_SIZE
            &&& le_value(entry.subrange(0, 4)) == CMD_ADD_CHECKSUM
            &&& entry.subrange(4, 19) == tables_file()
            &&& entry[19] == 0
            &&& le_value(entry.subrange(60, 64)) == start + CHECKSUM_OFFSET
            &&& le_value(entry.subrange(64, 68)) == start
            &&& le_value(entry.subrange(68, 72)) == len
        }),
{
    broadcast use lemma_le_bytes_len;

    lemma_entry_lengths(start, len);
    lemma_pow256_values();
    lemma_le_value_of_bytes(CMD_ADD_CHECKSUM as nat, 4);
    lemma_le_value_of_bytes(start as nat + CHECKSUM_OFFSET as nat, 4);
    lemma_le_value_of_bytes(start as nat, 4);
    lemma_le_value_of_bytes(len as nat, 4);
    let entry = checksum_entry(start, len);
    assert(entry.subrange(0, 4) =~= le_bytes(CMD_ADD_CHECKSUM as nat, 4));
    assert(entry.subrange(4, 19) =~= tables_file());
    assert(entry.subrange(60, 64) =~= le_bytes(start as nat + CHECKSUM_OFFSET as nat, 4));
    assert(entry.subrange(64, 68) =~= le_bytes(start as nat, 4));
    assert(entry.subrange(68, 72) =~= le_bytes(len as nat, 4));
}

/// What the firmware reads from the command that loads the tables.
pub proof fn law_allocate_command()
    ensures
        ({
            let entry = allocate_entry();
            &&& entry.len() == ENTRY_SIZE
            &&& le_value(entry.subrange(0, 4)) == CMD_ALLOCATE
            &&& entry.subrange(4, 19) == tables_file()
            &&& entry[19] == 0
            &&& le_value(entry.subrange(60, 64)) == ALIGNMENT
            &&& entry[64] == ZONE_HIGH
        }),
{
    broadcast use lemma_le_bytes_len;

    lemma_entry_lengths(0, 0);
    lemma_pow256_values();
    lemma_le_value_of_bytes(CMD_ALLOCATE as nat, 4);
    lemma_le_value_of_bytes(ALIGNMENT as nat, 4);
    let entry = allocate_entry();
    assert(entry.subrange(0, 4) =~= le_bytes(CMD_ALLOCATE as nat, 4));
    assert(entry.subrange(4, 19) =~= tables_file());
    assert(entry.subrange(60, 64) =~= le_bytes(ALIGNMENT as nat, 4));
}

/// Every byte of the command that loads the tables.
pub proof fn law_allocate_bytes(i: int)
    ensures
        ({
            let entry = allocate_entry();
            &&& entry.len() == 128
            &&& entry.take(19) == seq![
                0x01u8, 0, 0, 0,
                0x65, 0x74, 0x63, 0x2F, 0x61, 0x63, 0x70, 0x69, 0x2F, 0x74, 0x61, 0x62, 0x6C, 0x65,
                0x73,
            ]
            &&& entry.subrange(60, 65) == seq![0x40u8, 0, 0, 0, 0x01]
            &&& 19 <= i < 60 || 65 <= i < 128 ==> entry[i] == 0
        }),
{
    reveal_strlit("etc/acpi/tables");
    lemma_word_bytes(1);
    lemma_word_bytes(64);
}

/// Every byte of the command for a table: the place of the checksum byte, ninth
/// in the table, then the start and the length of the table, each in four bytes
/// with the lowest first.
pub proof fn law_checksum_bytes(start: usize, len: usize, i: int)
    requires
        checksum_place_fits(start),
    ensures
        ({
            let entry = checksum_entry(start, len);
            let place = start as nat % 0x1_0000_0000 + 9;
            &&& entry.len() == 128
            &&& entry.take(19) == seq![
                0x03u8, 0, 0, 0,
                0x65, 0x74, 0x63, 0x2F, 0x61, 0x63, 0x70, 0x69, 0x2F, 0x74, 0x61, 0x62, 0x6C, 0x65,
                0x73,
            ]
            &&& entry[60] == place % 0x100
            &&& entry[61] == place / 0x100 % 0x100
            &&& entry[62] == place / 0x1_0000 % 0x100
            &&& entry[63] == place / 0x100_0000
            &&& entry[64] == start % 0x100
            &&& entry[65] == start as nat / 0x100 % 0x100
            &&& entry[66] == start as nat / 0x1_0000 % 0x100
            &&& entry[67] == start as nat / 0x100_0000 % 0x100
            &&& entry[68] == len % 0x100
            &&& entry[69] == len as nat / 0x100 % 0x100
            &&& entry[70] == len as nat / 0x1_0000 % 0x100
            &&& entry[71] == len as nat / 0x100_0000 % 0x100
            &&& 19 <= i < 60 || 72 <= i < 128 ==> entry[i] == 0
        }),
{
    reveal_strlit("etc/acpi/tables");
    lemma_word_bytes(3);
    lemma_word_bytes(start as nat % 0x1_0000_0000 + 9);
    lemma_word_bytes(start as nat);
    lemma_word_bytes(len as nat);
}

/// The place of a checksum byte fits where the low half of the table's start
/// leaves room for nine more.
pub proof fn law_checksum_place_fits(start: usize)
    ensures
        checksum_place_fits(start) <==> start as nat % 0x1_0000_0000 < 0xFFFF_FFF7,
{
}

/// Every byte of a script: the first 128 load the tables, and the bytes from
/// 128 times `k` on are those of the command for the `k`-th table.
pub proof fn law_script_bytes(ranges: Seq<(usize, usize)>, k: int, i: int)
    requires
        1 <= k <= ranges.len(),
        0 <= i < 128,
    ensures
        table_loader(Seq::empty()) == allocate_entry(),
        table_loader(ranges).len() == 128 * (ranges.len() + 1),
        table_loader(ranges)[i] == allocate_entry()[i],
        table_loader(ranges)[128 * k + i] == checksum_entry(ranges[k - 1].0, ranges[k - 1].1)[i],
{
    law_script_commands(ranges, k - 1);
    assert(table_loader(ranges)[i] == table_loader(ranges).subrange(0, 128)[i]);
    assert(table_loader(ranges)[128 * k + i] == table_loader(ranges).subrange(
        128 * k,
        128 * (k + 1),
    )[i]);
}

} // verus!
