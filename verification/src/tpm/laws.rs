//! Laws of the CRB device, as the guest sees it.

use crate::bytes::{
    be_value, le_bytes, le_value, lemma_le_bytes_len, lemma_le_value_bound,
    lemma_le_value_of_bytes, lemma_pow256_values, overwritten, padded, zeros,
};
use crate::mmio::{resolves_to, MmioRegion};
use crate::tpm::crb::{
    answered, buffer_read, buffer_written, command, control_read, control_starts, control_value,
    control_written, crb_window, fitting, is_register_width, lemma_register_bits, power_on,
    register_value, register_written, starts_command, window_read, window_starts, window_written,
    Registers, TpmState, CTRL_REQ_CMD_READY, CTRL_REQ_GO_IDLE, CTRL_START_START, CTRL_STS_FATAL,
    CTRL_STS_IDLE, DATA_BUF_ADDR, REG_CTRL_CMD_HADDR, REG_CTRL_CMD_LADDR, REG_CTRL_CMD_SIZE,
    REG_CTRL_REQ, REG_CTRL_RSP_ADDR_HI, REG_CTRL_RSP_ADDR_LO, REG_CTRL_RSP_SIZE, REG_CTRL_START,
    REG_CTRL_STS, REG_INTF_ID_HI, REG_INTF_ID_LO, REG_INT_ENABLE, REG_INT_STS, REG_LOC_STATE,
    REG_LOC_STS,
};
use crate::tpm::{
    TPM_CRB_BASE_ADDR, TPM_CRB_SIZE, TPM_DATA_BUFFER_OFFSET, TPM_DATA_BUFFER_SIZE,
    TPM_LOCALITY_SIZE,
};
use vstd::prelude::*;

verus! {

/// A four-byte write stores the value that was meant.
pub proof fn law_word_write(v: u32)
    ensures
        is_register_width(le_bytes(v as nat, 4).len()),
        control_value(le_bytes(v as nat, 4)) == v,
{
    lemma_pow256_values();
    lemma_le_value_of_bytes(v as nat, 4);
    lemma_le_bytes_len(v as nat, 4);
}

/// A zero register reads as zero bytes.
proof fn lemma_zero_word()
    ensures
        le_bytes(0, 4) == zeros(4),
{
    reveal_with_fuel(le_bytes, 5);
}

/// The device satisfies its invariant after power-on, and every write and
/// every response keep it.
pub proof fn law_invariant(m: Registers, offset: int, bytes: Seq<u8>, rsp: Seq<u8>)
    requires
        m.wf(),
    ensures
        power_on().wf(),
        window_written(m, offset, bytes).wf(),
        answered(m, rsp).wf(),
{
    lemma_register_bits(control_value(bytes));
}

/// One step in a device's life, for a host that lets other accesses through
/// while a command runs: a guest write, the response to a command, or a reset.
pub enum Step {
    Write(int, Seq<u8>),
    Answer(Seq<u8>),
    Reset,
}

/// The device after `steps`, from power-on.
pub open spec fn after_steps(steps: Seq<Step>) -> Registers
    decreases steps.len(),
{
    if steps.len() == 0 {
        power_on()
    } else {
        let before = after_steps(steps.drop_last());
        match steps.last() {
            Step::Write(offset, bytes) => window_written(before, offset, bytes),
            Step::Answer(rsp) => answered(before, rsp),
            Step::Reset => power_on(),
        }
    }
}

/// The invariant holds after any steps in any order.
pub proof fn law_every_interleaving(steps: Seq<Step>)
    ensures
        after_steps(steps).wf(),
    decreases steps.len(),
{
    if steps.len() > 0 {
        let before = after_steps(steps.drop_last());
        law_every_interleaving(steps.drop_last());
        match steps.last() {
            Step::Write(offset, bytes) => law_invariant(before, offset, bytes, Seq::empty()),
            Step::Answer(rsp) => law_invariant(before, 0, Seq::empty(), rsp),
            Step::Reset => {},
        }
    }
}

/// One whole access: a guest read; a guest write, with the response to the
/// command that it starts, if it starts one; or a reset.
pub enum Access {
    Read(int, nat),
    Write(int, Seq<u8>, Seq<u8>),
    Reset,
}

/// The device after one whole access.
pub open spec fn served(m: Registers, access: Access) -> Registers {
    match access {
        Access::Read(_, _) => m,
        Access::Write(offset, bytes, rsp) => {
            let written = window_written(m, offset, bytes);
            if window_starts(m, offset, bytes) {
                answered(written, rsp)
            } else {
                written
            }
        },
        Access::Reset => power_on(),
    }
}

/// The device after a history of whole accesses, from power-on.
pub open spec fn after_accesses(history: Seq<Access>) -> Registers
    decreases history.len(),
{
    if history.len() == 0 {
        power_on()
    } else {
        served(after_accesses(history.drop_last()), history.last())
    }
}

/// After any history of whole accesses the invariant holds, and no command is
/// left running.
pub proof fn law_every_history(history: Seq<Access>)
    ensures
        after_accesses(history).wf(),
        after_accesses(history).ctrl_start == 0,
    decreases history.len(),
{
    if history.len() > 0 {
        let before = after_accesses(history.drop_last());
        law_every_history(history.drop_last());
        if let Access::Write(offset, bytes, rsp) = history.last() {
            law_invariant(before, offset, bytes, rsp);
            law_invariant(window_written(before, offset, bytes), offset, bytes, rsp);
        }
    }
}

/// What the registers read as after any history: locality 0 is assigned and
/// granted, the interface is CRB, no request and no command is pending, no
/// interrupt is raised, and the buffer registers name the data buffer.
pub proof fn law_registers_after_history(history: Seq<Access>)
    ensures
        ({
            let m = after_accesses(history);
            &&& register_value(m, REG_LOC_STATE as int) == 0x82
            &&& register_value(m, REG_LOC_STS as int) == 1
            &&& register_value(m, REG_INTF_ID_LO as int) == 0x0002_4011
            &&& register_value(m, REG_INTF_ID_HI as int) == 0
            &&& register_value(m, REG_CTRL_REQ as int) == 0
            &&& register_value(m, REG_CTRL_START as int) == 0
            &&& register_value(m, REG_INT_STS as int) == 0
            &&& register_value(m, REG_CTRL_CMD_SIZE as int) == 0xF80
            &&& register_value(m, REG_CTRL_RSP_SIZE as int) == 0xF80
            &&& register_value(m, REG_CTRL_CMD_LADDR as int) == 0xFED4_0080
            &&& register_value(m, REG_CTRL_RSP_ADDR_LO as int) == 0xFED4_0080
            &&& register_value(m, REG_CTRL_CMD_HADDR as int) == 0
            &&& register_value(m, REG_CTRL_RSP_ADDR_HI as int) == 0
        }),
{
    law_every_history(history);
}

/// A power-state request: a write to the request register with one of its bits
/// set.
pub open spec fn is_request(offset: int, bytes: Seq<u8>) -> bool {
    &&& offset == REG_CTRL_REQ
    &&& is_register_width(bytes.len())
    &&& control_value(bytes) & CTRL_REQ_CMD_READY != 0 || control_value(bytes) & CTRL_REQ_GO_IDLE
        != 0
}

/// The last power-state request since power-on or reset.
pub open spec fn last_request(history: Seq<Access>) -> Option<u32>
    decreases history.len(),
{
    if history.len() == 0 {
        None
    } else {
        match history.last() {
            Access::Write(offset, bytes, _) if is_request(offset, bytes) => Some(
                control_value(bytes),
            ),
            Access::Reset => None,
            _ => last_request(history.drop_last()),
        }
    }
}

/// Whether the device is idle by its last power-state request: there was none,
/// or it asked to go idle.
pub open spec fn idle_by_request(history: Seq<Access>) -> bool {
    match last_request(history) {
        Some(val) => val & CTRL_REQ_GO_IDLE != 0,
        None => true,
    }
}

/// The last power-state request since power-on or reset decides whether the
/// device is idle, what the control status reads as, and whether a start
/// request is honoured.
pub proof fn law_last_request_decides(history: Seq<Access>, start: Seq<u8>)
    requires
        is_register_width(start.len()),
        control_value(start) & CTRL_START_START != 0,
    ensures
        ({
            let m = after_accesses(history);
            let idle = idle_by_request(history);
            &&& m.state == if idle {
                TpmState::Idle
            } else {
                TpmState::Ready
            }
            &&& register_value(m, REG_CTRL_STS as int) == if idle {
                CTRL_STS_IDLE
            } else {
                0
            }
            &&& window_starts(m, REG_CTRL_START as int, start) <==> !idle
        }),
    decreases history.len(),
{
    law_every_history(history);
    if history.len() > 0 {
        law_last_request_decides(history.drop_last(), start);
    }
}

/// A read leaves no trace: whatever comes after it, the device is as it would
/// be without the read.
pub proof fn law_reads_leave_no_trace(
    before: Seq<Access>,
    offset: int,
    len: nat,
    after: Seq<Access>,
)
    ensures
        after_accesses(before.push(Access::Read(offset, len)) + after) == after_accesses(
            before + after,
        ),
    decreases after.len(),
{
    let with_read = before.push(Access::Read(offset, len));
    if after.len() == 0 {
        assert(with_read + after =~= with_read);
        assert(before + after =~= before);
        assert(with_read.drop_last() =~= before);
    } else {
        law_reads_leave_no_trace(before, offset, len, after.drop_last());
        assert((with_read + after).drop_last() =~= with_read + after.drop_last());
        assert((before + after).drop_last() =~= before + after.drop_last());
    }
}

/// Localities other than 0 read as zero and take no writes.
pub proof fn law_other_localities(m: Registers, offset: int, len: nat, bytes: Seq<u8>)
    requires
        offset >= TPM_LOCALITY_SIZE,
    ensures
        window_read(m, offset, len) == zeros(len),
        window_written(m, offset, bytes) == m,
        !window_starts(m, offset, bytes),
{
}

/// In every state the interface identifier says CRB.
pub proof fn law_interface_identifier(m: Registers)
    ensures
        window_read(m, REG_INTF_ID_LO as int, 4) == le_bytes(0x0002_4011, 4),
{
}

/// The fatal-error bit of the control status is never set, and the idle bit is
/// set exactly in the idle state.
pub proof fn law_control_status(m: Registers)
    requires
        m.wf(),
    ensures
        register_value(m, REG_CTRL_STS as int) & CTRL_STS_FATAL == 0,
        register_value(m, REG_CTRL_STS as int) & CTRL_STS_IDLE != 0 <==> m.state
            == TpmState::Idle,
{
    lemma_register_bits(CTRL_STS_FATAL);
    lemma_register_bits(CTRL_STS_IDLE);
}

/// A power-state request is served at once: whatever is written to the request
/// register, it reads as zero.
pub proof fn law_requests_are_served(m: Registers, bytes: Seq<u8>)
    requires
        m.wf(),
    ensures
        window_read(
            window_written(m, REG_CTRL_REQ as int, bytes),
            REG_CTRL_REQ as int,
            4,
        ) == zeros(4),
{
    lemma_zero_word();
}

/// Making ready leads to the ready state, whatever the state before.
pub proof fn law_cmd_ready(m: Registers, bytes: Seq<u8>)
    requires
        m.wf(),
        is_register_width(bytes.len()),
        control_value(bytes) & CTRL_REQ_CMD_READY != 0,
        control_value(bytes) & CTRL_REQ_GO_IDLE == 0,
    ensures
        window_written(m, REG_CTRL_REQ as int, bytes) == (Registers {
            state: TpmState::Ready,
            ctrl_sts: 0,
            ..m
        }),
{
}

/// Going idle leads to the idle state, whatever the state before, and also
/// where the request to make ready comes with it. The control status is then
/// as it was after power-on.
pub proof fn law_go_idle(m: Registers, bytes: Seq<u8>)
    requires
        m.wf(),
        is_register_width(bytes.len()),
        control_value(bytes) & CTRL_REQ_GO_IDLE != 0,
    ensures
        ({
            let idle = window_written(m, REG_CTRL_REQ as int, bytes);
            &&& idle == (Registers { state: TpmState::Idle, ctrl_sts: CTRL_STS_IDLE, ..m })
            &&& window_read(idle, REG_CTRL_STS as int, 4) == window_read(
                power_on(),
                REG_CTRL_STS as int,
                4,
            )
        }),
{
}

/// A write into the data buffer is read back, and leaves the bytes around it
/// as they were.
pub proof fn law_buffer_write_is_read_back(
    m: Registers,
    at: int,
    bytes: Seq<u8>,
    other: int,
    len: nat,
)
    requires
        m.wf(),
        0 <= at,
        at + bytes.len() <= TPM_DATA_BUFFER_SIZE,
        0 <= other,
        other + len <= at || at + bytes.len() <= other,
    ensures
        ({
            let written = window_written(m, TPM_DATA_BUFFER_OFFSET + at, bytes);
            &&& buffer_read(buffer_written(m, at, bytes), at, bytes.len()) == bytes
            &&& window_read(written, TPM_DATA_BUFFER_OFFSET + at, bytes.len()) == bytes
            &&& window_read(written, TPM_DATA_BUFFER_OFFSET + other, len) == window_read(
                m,
                TPM_DATA_BUFFER_OFFSET + other,
                len,
            )
            &&& written == (Registers { data: written.data, ..m })
        }),
{
    let data = overwritten(m.data, at, bytes);
    assert(data.subrange(at, at + bytes.len()) =~= bytes);
    if other + len <= TPM_DATA_BUFFER_SIZE {
        assert(data.subrange(other, other + len) =~= m.data.subrange(other, other + len));
    }
}

/// An access that runs past the end of the data buffer reads zeros, and writes
/// nothing.
pub proof fn law_buffer_overrun(m: Registers, at: int, len: nat, bytes: Seq<u8>)
    requires
        0 <= at < TPM_DATA_BUFFER_SIZE,
    ensures
        at + len > TPM_DATA_BUFFER_SIZE ==> window_read(m, TPM_DATA_BUFFER_OFFSET + at, len)
            == zeros(len),
        at + bytes.len() > TPM_DATA_BUFFER_SIZE ==> window_written(
            m,
            TPM_DATA_BUFFER_OFFSET + at,
            bytes,
        ) == m,
{
}

/// In the idle state nothing that the guest writes starts a command, and a
/// start request is ignored.
pub proof fn law_idle_starts_nothing(m: Registers, offset: int, bytes: Seq<u8>)
    requires
        m.wf(),
        m.state == TpmState::Idle,
    ensures
        !window_starts(m, offset, bytes),
        window_written(m, REG_CTRL_START as int, bytes) == m,
{
}

/// Two writes in a row into the data buffer are one write of all their bytes,
/// so it does not matter in what pieces the guest stores a command.
pub proof fn law_adjacent_writes(m: Registers, at: int, first: Seq<u8>, second: Seq<u8>)
    requires
        m.wf(),
        0 <= at,
        at + first.len() + second.len() <= TPM_DATA_BUFFER_SIZE,
    ensures
        window_written(
            window_written(m, TPM_DATA_BUFFER_OFFSET + at, first),
            TPM_DATA_BUFFER_OFFSET + at + first.len(),
            second,
        ) == window_written(m, TPM_DATA_BUFFER_OFFSET + at, first + second),
{
    let once = overwritten(m.data, at, first);
    assert(overwritten(once, at + first.len(), second) =~= overwritten(
        m.data,
        at,
        first + second,
    ));
    assert(overwritten(once, at + first.len(), Seq::empty()) =~= once);
    assert(overwritten(m.data, at, Seq::empty()) =~= m.data);
    if second.len() == 0 {
        assert(first + second =~= first);
    }
}

/// A guest that has a command in the data buffer, makes the device ready and
/// starts it, has exactly this command run.
pub proof fn law_command_reaches_backend(
    m: Registers,
    cmd: Seq<u8>,
    ready: Seq<u8>,
    start: Seq<u8>,
)
    requires
        m.wf(),
        6 <= cmd.len() <= TPM_DATA_BUFFER_SIZE,
        be_value(cmd.subrange(2, 6)) == cmd.len(),
        window_read(m, TPM_DATA_BUFFER_OFFSET as int, cmd.len()) == cmd,
        is_register_width(ready.len()),
        control_value(ready) & CTRL_REQ_CMD_READY != 0,
        control_value(ready) & CTRL_REQ_GO_IDLE == 0,
        is_register_width(start.len()),
        control_value(start) & CTRL_START_START != 0,
    ensures
        ({
            let waiting = window_written(m, REG_CTRL_REQ as int, ready);
            &&& window_starts(waiting, REG_CTRL_START as int, start)
            &&& command(waiting.data) == cmd
        }),
{
    assert(m.data.subrange(2, 6) =~= m.data.subrange(0, cmd.len() as int).subrange(2, 6));
    assert(m.data.take(cmd.len() as int) =~= m.data.subrange(0, cmd.len() as int));
}

/// While a command runs, the start register reads as one. Once it has been
/// answered, the start register reads as zero and the data buffer as the
/// response, as far as it fits; the bytes behind it are as they were, and so is
/// everything else.
pub proof fn law_response_reaches_guest(m: Registers, start: Seq<u8>, rsp: Seq<u8>)
    requires
        m.wf(),
        window_starts(m, REG_CTRL_START as int, start),
    ensures
        ({
            let running = window_written(m, REG_CTRL_START as int, start);
            let done = answered(running, rsp);
            let n = fitting(rsp).len();
            &&& window_read(running, REG_CTRL_START as int, 4) == le_bytes(1, 4)
            &&& window_read(done, REG_CTRL_START as int, 4) == zeros(4)
            &&& window_read(done, TPM_DATA_BUFFER_OFFSET as int, n) == fitting(rsp)
            &&& window_read(
                done,
                TPM_DATA_BUFFER_OFFSET + n,
                (TPM_DATA_BUFFER_SIZE - n) as nat,
            ) == window_read(
                m,
                TPM_DATA_BUFFER_OFFSET + n,
                (TPM_DATA_BUFFER_SIZE - n) as nat,
            )
            &&& done == (Registers { data: done.data, ctrl_start: 0, ..m })
        }),
{
    lemma_zero_word();
    let part = fitting(rsp);
    let data = overwritten(m.data, 0, part);
    assert(data.subrange(0, part.len() as int) =~= part);
    assert(data.subrange(part.len() as int, data.len() as int) =~= m.data.subrange(
        part.len() as int,
        data.len() as int,
    ));
}

/// A command is never longer than the data buffer, and is its beginning.
pub proof fn law_command_fits(data: Seq<u8>)
    requires
        data.len() == TPM_DATA_BUFFER_SIZE,
    ensures
        command(data).len() <= TPM_DATA_BUFFER_SIZE,
        command(data).len() <= be_value(data.subrange(2, 6)),
        command(data) == data.subrange(0, command(data).len() as int),
{
}

/// A read of one or two bytes gives the bytes of the register around it that
/// lie at its offset; where the second of two bytes lies past the register, it
/// is zero.
pub proof fn law_narrow_reads(m: Registers, reg: int)
    requires
        0 <= reg < TPM_DATA_BUFFER_OFFSET,
    ensures
        ({
            let whole = window_read(m, reg, 4);
            let k = reg % 4;
            &&& window_read(m, reg, 1) == whole.subrange(k, k + 1)
            &&& k < 3 ==> window_read(m, reg, 2) == whole.subrange(k, k + 2)
            &&& k == 3 ==> window_read(m, reg, 2) == seq![whole[3], 0u8]
        }),
{
    lemma_le_bytes_len(register_value(m, reg - reg % 4) as nat, 4);
}

/// A read of eight bytes gives two registers in a row: the same as two reads of
/// four bytes.
pub proof fn law_wide_reads(m: Registers, reg: int)
    requires
        0 <= reg,
    ensures
        control_read(m, reg, 8) == control_read(m, reg, 4) + control_read(m, reg + 4, 4),
        reg + 4 < TPM_DATA_BUFFER_OFFSET ==> window_read(m, reg, 8) == window_read(m, reg, 4)
            + window_read(m, reg + 4, 4),
{
    let slot = reg - reg % 4;
    lemma_le_bytes_pair(register_value(m, slot) as nat, register_value(m, slot + 4) as nat);
}

/// The eight bytes of a pair of 32-bit numbers.
pub proof fn lemma_le_bytes_pair(low: nat, high: nat)
    requires
        low < 0x1_0000_0000,
    ensures
        le_bytes(low + high * 0x1_0000_0000, 8) == le_bytes(low, 4) + le_bytes(high, 4),
{
    let v = low + high * 0x1_0000_0000;
    reveal_with_fuel(le_bytes, 9);
    assert(v / 256 / 256 / 256 / 256 == high);
    assert(v % 256 == low % 256);
    assert(v / 256 % 256 == low / 256 % 256);
    assert(v / 256 / 256 % 256 == low / 256 / 256 % 256);
    assert(v / 256 / 256 / 256 % 256 == low / 256 / 256 / 256 % 256);
}

/// A write stores one 32-bit value in one register. A narrow write is the
/// four-byte write with zeros behind it, and an eight-byte write the four-byte
/// write of its first half.
pub proof fn law_write_widths(m: Registers, reg: int, bytes: Seq<u8>)
    requires
        is_register_width(bytes.len()),
    ensures
        ({
            let word = if bytes.len() == 8 {
                bytes.take(4)
            } else {
                padded(bytes, 4)
            };
            &&& word.len() == 4
            &&& control_value(bytes) == le_value(word)
            &&& control_written(m, reg, bytes) == register_written(m, reg, control_value(bytes))
            &&& control_written(m, reg, bytes) == control_written(m, reg, word)
            &&& control_starts(m, reg, bytes) == control_starts(m, reg, word)
        }),
{
    let word = if bytes.len() == 8 {
        bytes.take(4)
    } else {
        padded(bytes, 4)
    };
    reveal_with_fuel(le_value, 9);
    lemma_le_value_bound(word);
    lemma_pow256_values();
}

/// The command and response registers name the data buffer: its guest-physical
/// address, which lies in the device's window where the data buffer starts, and
/// its size.
pub proof fn law_buffer_registers(m: Registers)
    ensures
        register_value(m, REG_CTRL_CMD_SIZE as int) == TPM_DATA_BUFFER_SIZE,
        register_value(m, REG_CTRL_RSP_SIZE as int) == TPM_DATA_BUFFER_SIZE,
        register_value(m, REG_CTRL_CMD_LADDR as int) + register_value(
            m,
            REG_CTRL_CMD_HADDR as int,
        ) * 0x1_0000_0000 == DATA_BUF_ADDR,
        register_value(m, REG_CTRL_RSP_ADDR_LO as int) + register_value(
            m,
            REG_CTRL_RSP_ADDR_HI as int,
        ) * 0x1_0000_0000 == DATA_BUF_ADDR,
        DATA_BUF_ADDR - TPM_CRB_BASE_ADDR == TPM_DATA_BUFFER_OFFSET,
{
}

/// What is written to the interrupt enable register is read back, all 32 bits
/// of it. No other register changes, nor the data buffer, and no command
/// starts.
pub proof fn law_interrupt_enable(m: Registers, val: u32, other: int)
    requires
        other != REG_INT_ENABLE,
    ensures
        ({
            let written = register_written(m, REG_INT_ENABLE as int, val);
            &&& register_value(written, REG_INT_ENABLE as int) == val
            &&& register_value(written, other) == register_value(m, other)
            &&& written.data == m.data
            &&& written.state == m.state
            &&& !starts_command(m, REG_INT_ENABLE as int, val)
        }),
        window_read(
            window_written(m, REG_INT_ENABLE as int, le_bytes(val as nat, 4)),
            REG_INT_ENABLE as int,
            4,
        ) == le_bytes(val as nat, 4),
{
    law_word_write(val);
}

/// Of the control registers, only the power-state request, the command start
/// and the interrupt enable register change the device when written; none of
/// them changes the data buffer.
pub proof fn law_inert_registers(m: Registers, reg: int, bytes: Seq<u8>)
    requires
        m.wf(),
        0 <= reg < TPM_DATA_BUFFER_OFFSET,
    ensures
        window_written(m, reg, bytes).data == m.data,
        reg != REG_CTRL_REQ && reg != REG_CTRL_START && reg != REG_INT_ENABLE ==> window_written(
            m,
            reg,
            bytes,
        ) == m,
{
    lemma_register_bits(control_value(bytes));
}

/// Writing a one to a bit of the interrupt status clears the bit, and writing
/// a zero leaves it.
pub proof fn law_interrupt_status(m: Registers, bytes: Seq<u8>, bit: u32)
    requires
        is_register_width(bytes.len()),
    ensures
        ({
            let v = control_value(bytes);
            let before = register_value(m, REG_INT_STS as int);
            let after = register_value(
                window_written(m, REG_INT_STS as int, bytes),
                REG_INT_STS as int,
            );
            &&& after & v == 0
            &&& v & bit == 0 ==> after & bit == before & bit
        }),
{
    let v = control_value(bytes);
    let before = register_value(m, REG_INT_STS as int);
    assert((before & !v) & v == 0) by (bit_vector);
    assert(v & bit == 0 ==> (before & !v) & bit == before & bit) by (bit_vector);
}

/// Once the device is attached, every address of its window resolves to its
/// slot, at the offset from the base address.
pub proof fn law_attached_window(regions: Seq<MmioRegion>, addr: int)
    requires
        TPM_CRB_BASE_ADDR <= addr < TPM_CRB_BASE_ADDR + TPM_CRB_SIZE,
    ensures
        resolves_to(
            regions.push(crb_window()),
            addr,
            regions.len() as int,
            addr - TPM_CRB_BASE_ADDR,
        ),
{
}

} // verus!
