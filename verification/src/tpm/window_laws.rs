//! The register window as the guest's bytes see it: every offset, every width
//! and every byte.

use crate::bytes::{law_be_value, law_le_value, le_bytes, le_value, lemma_word_bytes};
use crate::tpm::crb::{
    answered, buffer_read, buffer_written, command, control_read, control_starts, control_value,
    control_written, crb_window, lemma_register_bits, power_on, register_value, register_written,
    starts_command, window_read, window_starts, window_written, Registers, TpmState,
};
use crate::tpm::laws::{
    after_accesses, after_steps, law_every_history, law_every_interleaving, lemma_le_bytes_pair,
    Access, Step,
};
use vstd::prelude::*;

verus! {

/// Which 32-bit register stands at which offset. Every other offset reads as
/// zero.
pub proof fn law_register_map(m: Registers, reg: int)
    ensures
        register_value(m, 0x00) == m.loc_state,
        register_value(m, 0x0C) == m.loc_sts,
        register_value(m, 0x30) == 0x2_4011,
        register_value(m, 0x34) == 0,
        register_value(m, 0x40) == m.ctrl_req,
        register_value(m, 0x44) == m.ctrl_sts,
        register_value(m, 0x4C) == m.ctrl_start,
        register_value(m, 0x50) == m.int_enable,
        register_value(m, 0x54) == m.int_sts,
        register_value(m, 0x58) == 0xF80,
        register_value(m, 0x5C) == 0xFED4_0080,
        register_value(m, 0x60) == 0,
        register_value(m, 0x64) == 0xF80,
        register_value(m, 0x68) == 0xFED4_0080,
        register_value(m, 0x6C) == 0,
        reg != 0x00 && reg != 0x0C && reg != 0x30 && reg != 0x40 && reg != 0x44 && reg != 0x4C
            && reg != 0x50 && reg != 0x54 && reg != 0x58 && reg != 0x5C && reg != 0x64 && reg
            != 0x68 ==> register_value(m, reg) == 0,
{
}

/// A four-byte read gives the 32-bit register around its offset, the lowest
/// byte first.
pub proof fn law_word_read(m: Registers, reg: int)
    requires
        0 <= reg,
    ensures
        ({
            let v = register_value(m, reg - reg % 4) as int;
            let read = control_read(m, reg, 4);
            &&& read == le_bytes(v as nat, 4)
            &&& read.len() == 4
            &&& read[0] == v % 0x100
            &&& read[1] == v / 0x100 % 0x100
            &&& read[2] == v / 0x1_0000 % 0x100
            &&& read[3] == v / 0x100_0000
            &&& reg < 0x80 ==> window_read(m, reg, 4) == read
        }),
{
    lemma_word_bytes(register_value(m, reg - reg % 4) as nat);
}

/// A read of eight bytes gives two registers, one of two bytes gives two of the
/// register's bytes with a zero past its end, one of one byte gives that byte,
/// and one of any other width gives zeros.
pub proof fn law_read_widths(m: Registers, reg: int, len: nat, i: int)
    requires
        0 <= reg,
        0 <= i < len,
    ensures
        control_read(m, reg, len).len() == len,
        ({
            let word = control_read(m, reg, 4);
            let next = control_read(m, reg + 4, 4);
            control_read(m, reg, len)[i] == if len == 1 {
                word[reg % 4]
            } else if len == 2 {
                if reg % 4 + i < 4 {
                    word[reg % 4 + i]
                } else {
                    0
                }
            } else if len == 4 {
                word[i]
            } else if len == 8 {
                if i < 4 {
                    word[i]
                } else {
                    next[i - 4]
                }
            } else {
                0
            }
        }),
{
    let slot = reg - reg % 4;
    lemma_word_bytes(register_value(m, slot) as nat);
    lemma_word_bytes(register_value(m, slot + 4) as nat);
    lemma_le_bytes_pair(register_value(m, slot) as nat, register_value(m, slot + 4) as nat);
}

/// Where a read goes: below 0x80 to the registers, from there to 0xFFF to the
/// data buffer, and beyond that nowhere. A read that runs past the buffer's end
/// gives zeros only.
pub proof fn law_read_routing(m: Registers, offset: int, len: nat, i: int)
    requires
        m.data.len() == 0xF80,
        0 <= i < len,
    ensures
        0 <= offset < 0x80 ==> window_read(m, offset, len) == control_read(m, offset, len),
        0x80 <= offset ==> {
            &&& window_read(m, offset, len).len() == len
            &&& window_read(m, offset, len)[i] == if offset + len <= 0x1000 {
                m.data[offset - 0x80 + i]
            } else {
                0
            }
        },
{
}

/// What a read of the data buffer gives, at any place in it.
pub proof fn law_buffer_bytes(m: Registers, at: int, len: nat, i: int)
    requires
        m.data.len() == 0xF80,
        0 <= at,
        0 <= i < len,
    ensures
        buffer_read(m, at, len).len() == len,
        buffer_read(m, at, len)[i] == if at + len <= 0xF80 {
            m.data[at + i]
        } else {
            0
        },
{
}

/// The invariant in full.
pub proof fn law_invariant_in_full(m: Registers)
    ensures
        m.wf() <==> {
            &&& m.data.len() == 0xF80
            &&& m.loc_state == 0x82
            &&& m.loc_sts == 0x01
            &&& m.ctrl_req == 0
            &&& m.state == TpmState::Idle ==> m.ctrl_sts == 0x02
            &&& m.state == TpmState::Ready ==> m.ctrl_sts == 0
            &&& m.ctrl_start == 0 || m.ctrl_start == 1
            &&& m.int_sts == 0
        },
{
}

/// The device after power-on in full: idle, with locality 0 assigned and
/// granted, and everything else zero.
pub proof fn law_power_on_in_full(i: int)
    requires
        0 <= i < 0xF80,
    ensures
        power_on().state == TpmState::Idle,
        power_on().loc_state == 0x82,
        power_on().loc_sts == 0x01,
        power_on().ctrl_req == 0,
        power_on().ctrl_sts == 0x02,
        power_on().ctrl_start == 0,
        power_on().int_enable == 0,
        power_on().int_sts == 0,
        power_on().data.len() == 0xF80,
        power_on().data[i] == 0,
{
}

/// What the registers that no write can change read as, in whatever state the
/// device is.
pub proof fn law_fixed_registers(m: Registers, reg: int)
    requires
        m.wf(),
    ensures
        window_read(m, 0x00, 4) == seq![0x82u8, 0, 0, 0],
        window_read(m, 0x0C, 4) == seq![0x01u8, 0, 0, 0],
        window_read(m, 0x30, 4) == seq![0x11u8, 0x40, 0x02, 0],
        window_read(m, 0x34, 4) == seq![0u8, 0, 0, 0],
        window_read(m, 0x40, 4) == seq![0u8, 0, 0, 0],
        window_read(m, 0x44, 4) == if m.state == TpmState::Idle {
            seq![0x02u8, 0, 0, 0]
        } else {
            seq![0u8, 0, 0, 0]
        },
        window_read(m, 0x54, 4) == seq![0u8, 0, 0, 0],
        window_read(m, 0x58, 4) == seq![0x80u8, 0x0F, 0, 0],
        window_read(m, 0x5C, 4) == seq![0x80u8, 0, 0xD4, 0xFE],
        window_read(m, 0x60, 4) == seq![0u8, 0, 0, 0],
        window_read(m, 0x64, 4) == seq![0x80u8, 0x0F, 0, 0],
        window_read(m, 0x68, 4) == seq![0x80u8, 0, 0xD4, 0xFE],
        window_read(m, 0x6C, 4) == seq![0u8, 0, 0, 0],
        0 <= reg < 0x80 && reg % 4 == 0 && reg != 0x00 && reg != 0x0C && reg != 0x30 && reg != 0x44
            && reg != 0x4C && reg != 0x50 && reg != 0x58 && reg != 0x5C && reg != 0x64 && reg
            != 0x68 ==> window_read(m, reg, 4) == seq![0u8, 0, 0, 0],
{
    law_word_read(m, 0x00);
    law_word_read(m, 0x0C);
    law_word_read(m, 0x30);
    law_word_read(m, 0x34);
    law_word_read(m, 0x40);
    law_word_read(m, 0x44);
    law_word_read(m, 0x54);
    law_word_read(m, 0x58);
    law_word_read(m, 0x5C);
    law_word_read(m, 0x60);
    law_word_read(m, 0x64);
    law_word_read(m, 0x68);
    law_word_read(m, 0x6C);
    if 0 <= reg < 0x80 {
        law_word_read(m, reg);
    }
}

/// The same after any history of whole accesses, and after any interleaving of
/// accesses and responses.
pub proof fn law_fixed_registers_always(history: Seq<Access>, steps: Seq<Step>)
    ensures
        ({
            let m = after_accesses(history);
            &&& window_read(m, 0x58, 4) == seq![0x80u8, 0x0F, 0, 0]
            &&& window_read(m, 0x5C, 4) == seq![0x80u8, 0, 0xD4, 0xFE]
            &&& window_read(m, 0x64, 4) == seq![0x80u8, 0x0F, 0, 0]
            &&& window_read(m, 0x68, 4) == seq![0x80u8, 0, 0xD4, 0xFE]
        }),
        ({
            let m = after_steps(steps);
            &&& window_read(m, 0x58, 4) == seq![0x80u8, 0x0F, 0, 0]
            &&& window_read(m, 0x5C, 4) == seq![0x80u8, 0, 0xD4, 0xFE]
            &&& window_read(m, 0x64, 4) == seq![0x80u8, 0x0F, 0, 0]
            &&& window_read(m, 0x68, 4) == seq![0x80u8, 0, 0xD4, 0xFE]
        }),
{
    law_every_history(history);
    law_every_interleaving(steps);
    law_fixed_registers(after_accesses(history), 0);
    law_fixed_registers(after_steps(steps), 0);
}

/// What a write stores in a 32-bit register: its first four bytes, with zeros
/// for those that it lacks, the lowest first.
pub proof fn law_written_value(bytes: Seq<u8>)
    ensures
        bytes.len() == 1 ==> control_value(bytes) == bytes[0],
        bytes.len() == 2 ==> control_value(bytes) == bytes[0] + bytes[1] * 0x100,
        bytes.len() == 4 || bytes.len() == 8 ==> control_value(bytes) == bytes[0] + bytes[1] * 0x100
            + bytes[2] * 0x1_0000 + bytes[3] * 0x100_0000,
{
    law_le_value(bytes);
    if bytes.len() == 8 {
        let low = bytes[0] + bytes[1] * 0x100 + bytes[2] * 0x1_0000 + bytes[3] * 0x100_0000;
        let high = bytes[4] + bytes[5] * 0x100 + bytes[6] * 0x1_0000 + bytes[7] * 0x100_0000;
        assert(le_value(bytes) == low + high * 0x1_0000_0000);
        lemma_low_half(low, high);
    }
}

/// A sum with a multiple of 2^32 keeps its low half.
proof fn lemma_low_half(low: int, high: int)
    requires
        0 <= low < 0x1_0000_0000,
    ensures
        (low + high * 0x1_0000_0000) % 0x1_0000_0000 == low,
{
}

/// The two lowest bits of a number.
proof fn lemma_low_bits(val: u32)
    ensures
        val & 1 != 0 <==> val % 2 == 1,
        val & 2 != 0 <==> val % 4 >= 2,
{
    assert(val & 1 != 0 <==> val % 2 == 1) by (bit_vector);
    assert(val & 2 != 0 <==> val % 4 >= 2) by (bit_vector);
}

/// A command starts where, and only where, an odd number is written to the
/// register at 0x4C of a device that is ready.
pub proof fn law_start_condition(m: Registers, reg: int, val: u32)
    ensures
        starts_command(m, reg, val) <==> reg == 0x4C && val % 2 == 1 && m.state == TpmState::Ready,
        starts_command(m, reg, val) ==> reg == 0x4C && val & 1 != 0 && m.state == TpmState::Ready,
{
    lemma_low_bits(val);
}

/// The same of the guest's bytes: a command starts where, and only where, one,
/// two, four or eight bytes of which the first is odd are written at 0x4C while
/// the device is ready.
pub proof fn law_start_bytes(m: Registers, offset: int, bytes: Seq<u8>)
    ensures
        window_starts(m, offset, bytes) <==> {
            &&& offset == 0x4C
            &&& bytes.len() == 1 || bytes.len() == 2 || bytes.len() == 4 || bytes.len() == 8
            &&& bytes[0] % 2 == 1
            &&& m.state == TpmState::Ready
        },
        control_starts(m, offset, bytes) <==> window_starts(m, offset, bytes),
        window_starts(m, offset, bytes) ==> offset == 0x04C && control_value(bytes) & 1 != 0
            && m.state == TpmState::Ready,
{
    law_written_value(bytes);
    lemma_low_bits(control_value(bytes));
}

/// What a write to a 32-bit register does, by the offset and the two lowest
/// bits. Every field that is not named stays as it was.
pub proof fn law_register_writes(m: Registers, reg: int, val: u32)
    ensures
        reg == 0x08 && val % 2 == 1 ==> register_written(m, reg, val) == (Registers {
            loc_state: m.loc_state | 0x02,
            loc_sts: m.loc_sts | 0x01,
            ..m
        }),
        reg == 0x40 && val % 4 >= 2 ==> register_written(m, reg, val) == (Registers {
            state: TpmState::Idle,
            ctrl_sts: 0x02,
            ctrl_req: 0,
            ..m
        }),
        reg == 0x40 && val % 4 == 1 ==> register_written(m, reg, val) == (Registers {
            state: TpmState::Ready,
            ctrl_sts: 0,
            ctrl_req: 0,
            ..m
        }),
        reg == 0x4C && val % 2 == 1 && m.state == TpmState::Ready ==> register_written(m, reg, val)
            == (Registers { ctrl_start: 1, ..m }),
        reg == 0x50 ==> register_written(m, reg, val) == (Registers { int_enable: val, ..m }),
        reg == 0x54 ==> register_written(m, reg, val) == (Registers {
            int_sts: m.int_sts & !val,
            ..m
        }),
        reg == 0x08 && val % 2 == 0 ==> register_written(m, reg, val) == m,
        reg == 0x40 && val % 4 == 0 ==> register_written(m, reg, val) == m,
        reg == 0x4C && (val % 2 == 0 || m.state == TpmState::Idle) ==> register_written(m, reg, val)
            == m,
        reg != 0x08 && reg != 0x40 && reg != 0x4C && reg != 0x50 && reg != 0x54
            ==> register_written(m, reg, val) == m,
{
    lemma_low_bits(val);
}

/// In a valid state, three registers take writes: the one at 0x40 switches the
/// power state, the one at 0x4C starts a command, the one at 0x50 holds what is
/// written. Nothing else changes anything.
pub proof fn law_writable_registers(m: Registers, reg: int, val: u32)
    requires
        m.wf(),
    ensures
        reg != 0x40 && reg != 0x4C && reg != 0x50 ==> register_written(m, reg, val) == m,
        register_written(m, reg, val).data == m.data,
        register_written(m, reg, val).loc_state == m.loc_state,
        register_written(m, reg, val).loc_sts == m.loc_sts,
        register_written(m, reg, val).int_sts == m.int_sts,
{
    lemma_register_bits(val);
    law_register_writes(m, reg, val);
}

/// Where a write goes: below 0x80 to the 32-bit register at that very offset,
/// where its width is one, two, four or eight bytes; from there to 0xFFF to the
/// data buffer, where all of it fits; and otherwise nowhere.
pub proof fn law_write_routing(m: Registers, offset: int, bytes: Seq<u8>, i: int)
    requires
        m.data.len() == 0xF80,
        0 <= i < 0xF80,
    ensures
        ({
            let width = bytes.len() == 1 || bytes.len() == 2 || bytes.len() == 4 || bytes.len() == 8;
            let written = window_written(m, offset, bytes);
            &&& 0 <= offset < 0x80 && width ==> written == register_written(
                m,
                offset,
                control_value(bytes),
            )
            &&& 0 <= offset < 0x80 && !width ==> written == m
            &&& 0x80 <= offset && offset + bytes.len() <= 0x1000 && offset < 0x1000 ==> {
                &&& written == (Registers { data: written.data, ..m })
                &&& written.data.len() == 0xF80
                &&& written.data[i] == if offset - 0x80 <= i < offset - 0x80 + bytes.len() {
                    bytes[i - (offset - 0x80)]
                } else {
                    m.data[i]
                }
            }
            &&& offset < 0 || offset + bytes.len() > 0x1000 && 0x80 <= offset || offset >= 0x1000
                ==> written == m
        }),
        control_written(m, offset, bytes) == if bytes.len() == 1 || bytes.len() == 2 || bytes.len()
            == 4 || bytes.len() == 8 {
            register_written(m, offset, control_value(bytes))
        } else {
            m
        },
{
}

/// What a write to the data buffer does, at any place in it.
pub proof fn law_buffer_write_bytes(m: Registers, at: int, bytes: Seq<u8>, i: int)
    requires
        m.data.len() == 0xF80,
        0 <= at,
        0 <= i < 0xF80,
    ensures
        ({
            let written = buffer_written(m, at, bytes);
            &&& written == (Registers { data: written.data, ..m })
            &&& written.data.len() == 0xF80
            &&& written.data[i] == if at + bytes.len() <= 0xF80 && at <= i < at + bytes.len() {
                bytes[i - at]
            } else {
                m.data[i]
            }
        }),
{
}

/// The command is the start of the data buffer, as long as its bytes 2 to 5
/// say, but no longer than the buffer.
pub proof fn law_command_bytes(data: Seq<u8>, i: int)
    requires
        data.len() == 0xF80,
    ensures
        ({
            let size = data[2] * 0x100_0000 + data[3] * 0x1_0000 + data[4] * 0x100 + data[5];
            &&& command(data).len() == if size < 0xF80 {
                size
            } else {
                0xF80
            }
            &&& 0 <= i < command(data).len() ==> command(data)[i] == data[i]
        }),
{
    law_be_value(data.subrange(2, 6));
}

/// A response is stored from the start of the data buffer on, as far as it
/// fits; what lies behind it stays, and the command is over.
pub proof fn law_response_bytes(m: Registers, rsp: Seq<u8>, i: int)
    requires
        m.data.len() == 0xF80,
        0 <= i < 0xF80,
    ensures
        ({
            let done = answered(m, rsp);
            &&& done == (Registers { data: done.data, ctrl_start: 0, ..m })
            &&& done.data.len() == 0xF80
            &&& done.data[i] == if i < rsp.len() {
                rsp[i]
            } else {
                m.data[i]
            }
        }),
{
}

/// The guest reads back the whole response where the buffer can take it, and
/// else as much of it as the buffer can take.
pub proof fn law_response_is_read_back(m: Registers, rsp: Seq<u8>)
    requires
        m.data.len() == 0xF80,
    ensures
        rsp.len() <= 0xF80 ==> window_read(answered(m, rsp), 0x80, rsp.len()) == rsp,
        rsp.len() >= 0xF80 ==> window_read(answered(m, rsp), 0x80, 0xF80) == rsp.take(0xF80),
{
    let done = answered(m, rsp);
    assert forall|i: int| 0 <= i < 0xF80 implies done.data[i] == if i < rsp.len() {
        rsp[i]
    } else {
        m.data[i]
    } by {
        law_response_bytes(m, rsp, i);
    }
    law_response_bytes(m, rsp, 0);
    if rsp.len() <= 0xF80 {
        assert(window_read(done, 0x80, rsp.len()) =~= rsp);
    }
    if rsp.len() >= 0xF80 {
        assert(window_read(done, 0x80, 0xF80) =~= rsp.take(0xF80));
    }
}

/// The guest-physical addresses of the window: five pages from 0xFED4_0000 on.
pub proof fn law_window_place(addr: int)
    ensures
        crb_window().contains(addr) <==> 0xFED4_0000 <= addr < 0xFED4_5000,
        crb_window().start == 0xFED4_0000,
        crb_window().len == 0x5000,
{
}

/// The commands that the device has run in the course of a history of whole
/// accesses, in order.
pub open spec fn commands_run(history: Seq<Access>) -> Seq<Seq<u8>>
    decreases history.len(),
{
    if history.len() == 0 {
        Seq::empty()
    } else {
        let before = after_accesses(history.drop_last());
        let run = commands_run(history.drop_last());
        match history.last() {
            Access::Write(offset, bytes, _) if window_starts(before, offset, bytes) => run.push(
                command(before.data),
            ),
            _ => run,
        }
    }
}

/// Of all accesses, only a write of an odd first byte at 0x4C of a device that
/// is ready has a command run. It has one command run, and that is the start of
/// the data buffer as the guest has left it.
pub proof fn law_one_command_for_each_start(history: Seq<Access>, access: Access, i: int)
    ensures
        commands_run(Seq::empty()) == Seq::<Seq<u8>>::empty(),
        ({
            let m = after_accesses(history);
            let run = commands_run(history);
            let next = commands_run(history.push(access));
            let size = m.data[2] * 0x100_0000 + m.data[3] * 0x1_0000 + m.data[4] * 0x100
                + m.data[5];
            let starts = access matches Access::Write(offset, bytes, _) && {
                &&& offset == 0x4C
                &&& bytes.len() == 1 || bytes.len() == 2 || bytes.len() == 4 || bytes.len() == 8
                &&& bytes[0] % 2 == 1
                &&& m.state == TpmState::Ready
            };
            &&& !starts ==> next == run
            &&& starts ==> {
                &&& next.len() == run.len() + 1
                &&& next.drop_last() == run
                &&& next.last().len() == if size < 0xF80 {
                    size
                } else {
                    0xF80
                }
                &&& 0 <= i < next.last().len() ==> next.last()[i] == m.data[i]
            }
        }),
{
    let m = after_accesses(history);
    law_every_history(history);
    law_command_bytes(m.data, i);
    assert(history.push(access).drop_last() =~= history);
    if let Access::Write(offset, bytes, _) = access {
        law_start_bytes(m, offset, bytes);
    }
}

} // verus!
