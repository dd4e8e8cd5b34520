//! The CRB device model: the register window that the guest sees.
//!
//! Only locality 0 is implemented. The pages of the other localities read as
//! zero, and writes to them are ignored.

use crate::bytes::{
    be_value, copy_range, le_bytes, le_value, lemma_word_parts, overwrite, overwritten, padded,
    read_be, zeroed, zeros,
};
use crate::common::RWOp;
use crate::mmio::{conflicts, disjoint_regions, MmioBus, MmioRegion};
use crate::tpm::executor::{Executor, Runs};
use crate::tpm::{
    TpmBackend, TPM_CRB_BASE_ADDR, TPM_CRB_SIZE, TPM_DATA_BUFFER_OFFSET, TPM_DATA_BUFFER_SIZE,
    TPM_LOCALITY_SIZE,
};
use std::sync::Arc;
use vstd::prelude::*;

verus! {

// Register offsets in a locality's page.

/// Locality state, read-only.
pub const REG_LOC_STATE: usize = 0x000;

/// Locality control, write-only.
pub const REG_LOC_CTRL: usize = 0x008;

/// Locality status, read-only.
pub const REG_LOC_STS: usize = 0x00C;

/// Interface identifier, lower half, read-only.
pub const REG_INTF_ID_LO: usize = 0x030;

/// Interface identifier, upper half, read-only.
pub const REG_INTF_ID_HI: usize = 0x034;

/// Power-state requests.
pub const REG_CTRL_REQ: usize = 0x040;

/// Power state and error, read-only.
pub const REG_CTRL_STS: usize = 0x044;

/// Command cancellation, write-only.
pub const REG_CTRL_CANCEL: usize = 0x048;

/// Command start.
pub const REG_CTRL_START: usize = 0x04C;

/// Interrupt enable.
pub const REG_INT_ENABLE: usize = 0x050;

/// Interrupt status; writing a one clears the bit.
pub const REG_INT_STS: usize = 0x054;

/// Size of the command buffer, read-only.
pub const REG_CTRL_CMD_SIZE: usize = 0x058;

/// Address of the command buffer, lower half, read-only.
pub const REG_CTRL_CMD_LADDR: usize = 0x05C;

/// Address of the command buffer, upper half, read-only.
pub const REG_CTRL_CMD_HADDR: usize = 0x060;

/// Size of the response buffer, read-only.
pub const REG_CTRL_RSP_SIZE: usize = 0x064;

/// Address of the response buffer, lower half, read-only.
pub const REG_CTRL_RSP_ADDR_LO: usize = 0x068;

/// Address of the response buffer, upper half, read-only.
pub const REG_CTRL_RSP_ADDR_HI: usize = 0x06C;

// Register bits.

/// `LOC_STATE` bit 7: the register holds a valid value.
pub const LOC_STATE_REG_VALID: u32 = 0x80;

/// `LOC_STATE` bit 1: a locality is assigned.
pub const LOC_STATE_LOC_ASSIGNED: u32 = 0x02;

/// `LOC_CTRL` bit 0: request access.
pub const LOC_CTRL_REQUEST_ACCESS: u32 = 0x01;

/// `LOC_STS` bit 0: access is granted.
pub const LOC_STS_GRANTED: u32 = 0x01;

/// The interface identifier: type CRB (bits 3:0), version 1 (bits 7:4), CRB
/// supported (bit 14), CRB selected (bits 18:17).
pub const INTF_ID_LO: u32 = 0x0002_4011;

/// The upper half of the interface identifier: revision 0.
pub const INTF_ID_HI: u32 = 0;

/// `CTRL_STS` bit 0: fatal error.
pub const CTRL_STS_FATAL: u32 = 0x01;

/// `CTRL_STS` bit 1: idle.
pub const CTRL_STS_IDLE: u32 = 0x02;

/// `CTRL_REQ` bit 0: make ready for a command.
pub const CTRL_REQ_CMD_READY: u32 = 0x01;

/// `CTRL_REQ` bit 1: go idle.
pub const CTRL_REQ_GO_IDLE: u32 = 0x02;

/// `CTRL_START` bit 0: start the command, or: a command is running.
pub const CTRL_START_START: u32 = 0x01;

/// The guest-physical address of locality 0's data buffer.
pub const DATA_BUF_ADDR: usize = TPM_CRB_BASE_ADDR + TPM_DATA_BUFFER_OFFSET;

/// The name of the device.
pub const DEVICE_NAME: &'static str = "tpm-crb";

/// The device's window of guest-physical addresses.
pub open spec fn crb_window() -> MmioRegion {
    MmioRegion { start: TPM_CRB_BASE_ADDR, len: TPM_CRB_SIZE }
}

/// The device's power state.
#[derive(Clone, Copy, PartialEq, Eq, Structural, Debug)]
pub enum TpmState {
    Idle,
    Ready,
}

/// What the device holds.
#[verifier::ext_equal]
pub struct Registers {
    pub state: TpmState,
    pub loc_state: u32,
    pub loc_sts: u32,
    pub ctrl_req: u32,
    pub ctrl_sts: u32,
    pub ctrl_start: u32,
    pub int_enable: u32,
    pub int_sts: u32,
    pub data: Seq<u8>,
}

impl Registers {
    /// What holds of the device at every moment: the data buffer has its full
    /// size, locality 0 is assigned and granted, power-state requests are
    /// already served, no fatal error is reported, the idle bit follows the
    /// power state, and no interrupt is pending.
    pub open spec fn wf(self) -> bool {
        &&& self.data.len() == TPM_DATA_BUFFER_SIZE
        &&& self.loc_state == 0x82
        &&& self.loc_sts == LOC_STS_GRANTED
        &&& self.ctrl_req == 0
        &&& self.ctrl_sts == if self.state == TpmState::Idle {
            CTRL_STS_IDLE
        } else {
            0
        }
        &&& self.ctrl_start == 0 || self.ctrl_start == CTRL_START_START
        &&& self.int_sts == 0
    }
}

/// The device after power-on.
pub open spec fn power_on() -> Registers {
    Registers {
        state: TpmState::Idle,
        loc_state: 0x82,
        loc_sts: LOC_STS_GRANTED,
        ctrl_req: 0,
        ctrl_sts: CTRL_STS_IDLE,
        ctrl_start: 0,
        int_enable: 0,
        int_sts: 0,
        data: zeros(TPM_DATA_BUFFER_SIZE as nat),
    }
}

/// The value of the 32-bit register at `reg`. Offsets without a readable
/// register read as zero.
pub open spec fn register_value(m: Registers, reg: int) -> u32 {
    if reg == REG_LOC_STATE {
        m.loc_state
    } else if reg == REG_LOC_STS {
        m.loc_sts
    } else if reg == REG_INTF_ID_LO {
        INTF_ID_LO
    } else if reg == REG_INTF_ID_HI {
        INTF_ID_HI
    } else if reg == REG_CTRL_REQ {
        m.ctrl_req
    } else if reg == REG_CTRL_STS {
        m.ctrl_sts
    } else if reg == REG_CTRL_START {
        m.ctrl_start
    } else if reg == REG_INT_ENABLE {
        m.int_enable
    } else if reg == REG_INT_STS {
        m.int_sts
    } else if reg == REG_CTRL_CMD_SIZE || reg == REG_CTRL_RSP_SIZE {
        TPM_DATA_BUFFER_SIZE as u32
    } else if reg == REG_CTRL_CMD_LADDR || reg == REG_CTRL_RSP_ADDR_LO {
        DATA_BUF_ADDR as u32
    } else if reg == REG_CTRL_CMD_HADDR || reg == REG_CTRL_RSP_ADDR_HI {
        (DATA_BUF_ADDR as int / 0x1_0000_0000) as u32
    } else {
        0
    }
}

/// Whether writing `val` at `reg` starts a command.
pub open spec fn starts_command(m: Registers, reg: int, val: u32) -> bool {
    reg == REG_CTRL_START && val & CTRL_START_START != 0 && m.state == TpmState::Ready
}

/// The device after a power-state request. Where both bits are set, the
/// device ends up idle.
pub open spec fn state_requested(m: Registers, val: u32) -> Registers {
    if val & CTRL_REQ_GO_IDLE != 0 {
        Registers { state: TpmState::Idle, ctrl_sts: CTRL_STS_IDLE, ctrl_req: 0, ..m }
    } else if val & CTRL_REQ_CMD_READY != 0 {
        Registers { state: TpmState::Ready, ctrl_sts: 0, ctrl_req: 0, ..m }
    } else {
        m
    }
}

/// The device after `val` is written to the 32-bit register at `reg`, before
/// a command that this starts has been answered.
pub open spec fn register_written(m: Registers, reg: int, val: u32) -> Registers {
    if reg == REG_LOC_CTRL && val & LOC_CTRL_REQUEST_ACCESS != 0 {
        Registers {
            loc_state: m.loc_state | LOC_STATE_LOC_ASSIGNED,
            loc_sts: m.loc_sts | LOC_STS_GRANTED,
            ..m
        }
    } else if reg == REG_CTRL_REQ {
        state_requested(m, val)
    } else if starts_command(m, reg, val) {
        Registers { ctrl_start: CTRL_START_START, ..m }
    } else if reg == REG_INT_ENABLE {
        Registers { int_enable: val, ..m }
    } else if reg == REG_INT_STS {
        Registers { int_sts: m.int_sts & !val, ..m }
    } else {
        m
    }
}

/// The length of the command in the data buffer: what its header says, but no
/// more than the buffer holds.
pub open spec fn command_len(data: Seq<u8>) -> int {
    let size = be_value(data.subrange(2, 6));
    if size < TPM_DATA_BUFFER_SIZE {
        size as int
    } else {
        TPM_DATA_BUFFER_SIZE as int
    }
}

/// The command in the data buffer.
pub open spec fn command(data: Seq<u8>) -> Seq<u8> {
    data.take(command_len(data))
}

/// As much of a response as the data buffer can take.
pub open spec fn fitting(rsp: Seq<u8>) -> Seq<u8> {
    if rsp.len() < TPM_DATA_BUFFER_SIZE {
        rsp
    } else {
        rsp.take(TPM_DATA_BUFFER_SIZE as int)
    }
}

/// The device after the running command has been answered with `rsp`.
pub open spec fn answered(m: Registers, rsp: Seq<u8>) -> Registers {
    Registers { data: overwritten(m.data, 0, fitting(rsp)), ctrl_start: 0, ..m }
}

/// What a read of `len` bytes at `at` in the data buffer returns.
pub open spec fn buffer_read(m: Registers, at: int, len: nat) -> Seq<u8> {
    if at + len <= TPM_DATA_BUFFER_SIZE {
        m.data.subrange(at, at + len)
    } else {
        zeros(len)
    }
}

/// The device after `bytes` are written at `at` in the data buffer.
pub open spec fn buffer_written(m: Registers, at: int, bytes: Seq<u8>) -> Registers {
    if at + bytes.len() <= TPM_DATA_BUFFER_SIZE {
        Registers { data: overwritten(m.data, at, bytes), ..m }
    } else {
        m
    }
}

/// The widths of an access to the control registers.
pub open spec fn is_register_width(len: nat) -> bool {
    len == 1 || len == 2 || len == 4 || len == 8
}

/// What a read of `len` bytes at the control register `reg` returns. A read of
/// one or two bytes gives those bytes of the 32-bit register around it that
/// lie at `reg`, with zeros past its end; a read of four bytes gives the whole
/// register, and one of eight bytes the next one too.
pub open spec fn control_read(m: Registers, reg: int, len: nat) -> Seq<u8> {
    let slot = reg - reg % 4;
    let low = register_value(m, slot) as nat;
    if len == 1 || len == 2 {
        padded(le_bytes(low, 4), 5).subrange(reg % 4, reg % 4 + len)
    } else if len == 4 {
        le_bytes(low, len)
    } else if len == 8 {
        le_bytes(low + register_value(m, slot + 4) as nat * 0x1_0000_0000, len)
    } else {
        zeros(len)
    }
}

/// The 32-bit value that a write of `bytes` stores in a control register.
pub open spec fn control_value(bytes: Seq<u8>) -> u32 {
    (le_value(bytes) % 0x1_0000_0000) as u32
}

/// The device after `bytes` are written at the control register `reg`.
pub open spec fn control_written(m: Registers, reg: int, bytes: Seq<u8>) -> Registers {
    if is_register_width(bytes.len()) {
        register_written(m, reg, control_value(bytes))
    } else {
        m
    }
}

/// Whether writing `bytes` at the control register `reg` starts a command.
pub open spec fn control_starts(m: Registers, reg: int, bytes: Seq<u8>) -> bool {
    is_register_width(bytes.len()) && starts_command(m, reg, control_value(bytes))
}

/// Whether `offset` lies in the page of locality 0.
pub open spec fn in_locality_0(offset: int) -> bool {
    0 <= offset < TPM_LOCALITY_SIZE
}

/// What a guest read of `len` bytes at `offset` in the window returns.
pub open spec fn window_read(m: Registers, offset: int, len: nat) -> Seq<u8> {
    if !in_locality_0(offset) {
        zeros(len)
    } else if offset >= TPM_DATA_BUFFER_OFFSET {
        buffer_read(m, offset - TPM_DATA_BUFFER_OFFSET, len)
    } else {
        control_read(m, offset, len)
    }
}

/// The device after a guest write of `bytes` at `offset` in the window, before
/// a command that this starts has been answered.
pub open spec fn window_written(m: Registers, offset: int, bytes: Seq<u8>) -> Registers {
    if !in_locality_0(offset) {
        m
    } else if offset >= TPM_DATA_BUFFER_OFFSET {
        buffer_written(m, offset - TPM_DATA_BUFFER_OFFSET, bytes)
    } else {
        control_written(m, offset, bytes)
    }
}

/// Whether a guest write of `bytes` at `offset` in the window starts a
/// command.
pub open spec fn window_starts(m: Registers, offset: int, bytes: Seq<u8>) -> bool {
    0 <= offset < TPM_DATA_BUFFER_OFFSET && control_starts(m, offset, bytes)
}

/// The device's registers.
#[derive(Clone, Copy)]
struct Control {
    state: TpmState,
    loc_state: u32,
    loc_sts: u32,
    ctrl_req: u32,
    ctrl_sts: u32,
    ctrl_start: u32,
    int_enable: u32,
    int_sts: u32,
}

/// The device's registers and data buffer.
struct CrbRegs {
    control: Control,
    data_buf: Vec<u8>,
}

impl CrbRegs {
    spec fn model(self) -> Registers {
        Registers {
            state: self.control.state,
            loc_state: self.control.loc_state,
            loc_sts: self.control.loc_sts,
            ctrl_req: self.control.ctrl_req,
            ctrl_sts: self.control.ctrl_sts,
            ctrl_start: self.control.ctrl_start,
            int_enable: self.control.int_enable,
            int_sts: self.control.int_sts,
            data: self.data_buf@,
        }
    }

    #[verifier::type_invariant]
    spec fn inv(self) -> bool {
        self.model().wf()
    }

    /// The registers after power-on.
    fn new() -> (regs: CrbRegs)
        ensures
            regs.model() == power_on(),
    {
        proof {
            lemma_register_bits(0);
        }
        CrbRegs {
            control: Control {
                state: TpmState::Idle,
                loc_state: LOC_STATE_REG_VALID | LOC_STATE_LOC_ASSIGNED,
                loc_sts: LOC_STS_GRANTED,
                ctrl_req: 0,
                ctrl_sts: CTRL_STS_IDLE,
                ctrl_start: 0,
                int_enable: 0,
                int_sts: 0,
            },
            data_buf: zeroed(TPM_DATA_BUFFER_SIZE),
        }
    }
}

/// The CRB device, in front of an executor of TPM commands.
///
/// Only [`TpmCrb::mmio_rw`] has commands run, through the device's own executor
/// and its record. What else the device does works for any `B`.
pub struct TpmCrb<B> {
    regs: CrbRegs,
    executor: Executor<B>,
}

impl<B> View for TpmCrb<B> {
    type V = Registers;

    closed spec fn view(&self) -> Registers {
        self.regs.model()
    }
}

impl<B: TpmBackend> TpmCrb<B> {
    /// A device after power-on in front of `backend`.
    pub fn create(backend: Arc<B>) -> (dev: TpmCrb<B>)
        ensures
            dev@ == power_on(),
            dev@.wf(),
            dev.backend() == *backend,
            dev.executed() == Seq::<Seq<u8>>::empty(),
    {
        TpmCrb { regs: CrbRegs::new(), executor: Executor::new(backend) }
    }
}

impl<B> TpmCrb<B> {
    /// The backend behind the device.
    pub closed spec fn backend(&self) -> B {
        self.executor.backend()
    }

    /// The commands that the device has run on the backend, in order.
    pub closed spec fn executed(&self) -> Seq<Seq<u8>> {
        self.executor.executed()
    }

    /// A handle on the backend behind the device.
    pub fn backend_handle(&self) -> (backend: Arc<B>)
        ensures
            *backend == self.backend(),
    {
        self.executor.handle()
    }

    /// Registers the device's window with `mmio`, and returns its slot.
    pub fn attach(&self, mmio: &mut MmioBus) -> (slot: usize)
        requires
            !conflicts(old(mmio)@, crb_window()),
        ensures
            disjoint_regions(final(mmio)@),
            final(mmio)@ == old(mmio)@.push(crb_window()),
            slot == old(mmio)@.len(),
    {
        match mmio.register(TPM_CRB_BASE_ADDR, TPM_CRB_SIZE) {
            Ok(slot) => slot,
            Err(_) => {
                assert(false);
                0
            },
        }
    }

    /// Serves one guest access up to the point where a command that it starts
    /// has to run, and returns that command. Its response is then owed to
    /// [`TpmCrb::finish_rw`]. A host that guards the device with a lock can
    /// release it in between.
    pub fn begin_rw(&mut self, rwo: &mut RWOp) -> (cmd: Option<Vec<u8>>)
        ensures
            final(self)@.wf(),
            final(self).backend() == old(self).backend(),
            final(self).executed() == old(self).executed(),
            match *old(rwo) {
                RWOp::Read(ro) => {
                    &&& cmd is None
                    &&& final(self)@ == old(self)@
                    &&& *final(rwo) matches RWOp::Read(done)
                    &&& done.offset == ro.offset
                    &&& done.data@ == window_read(old(self)@, ro.offset as int, ro.data@.len())
                },
                RWOp::Write(wo) => {
                    &&& *final(rwo) == *old(rwo)
                    &&& final(self)@ == window_written(old(self)@, wo.offset as int, wo.data@)
                    &&& cmd is Some <==> window_starts(old(self)@, wo.offset as int, wo.data@)
                    &&& cmd matches Some(c) ==> c@ == command(old(self)@.data)
                },
            },
    {
        proof {
            use_type_invariant(&self.regs);
        }
        let offset: usize = rwo.offset();
        let locality: usize = offset / TPM_LOCALITY_SIZE;
        let reg: usize = offset % TPM_LOCALITY_SIZE;

        if locality != 0 {
            if let RWOp::Read(ro) = rwo {
                ro.fill_zero();
            }
            return None;
        }
        if reg >= TPM_DATA_BUFFER_OFFSET {
            self.data_buf_rw(reg - TPM_DATA_BUFFER_OFFSET, rwo);
            None
        } else {
            self.control_reg_rw(reg, rwo)
        }
    }

    /// Takes the response to the command that [`TpmCrb::begin_rw`] returned.
    pub fn finish_rw(&mut self, rsp: &[u8])
        ensures
            final(self)@ == answered(old(self)@, rsp@),
            final(self)@.wf(),
            final(self).backend() == old(self).backend(),
            final(self).executed() == old(self).executed(),
    {
        proof {
            use_type_invariant(&self.regs);
        }
        let len: usize = if rsp.len() < TPM_DATA_BUFFER_SIZE {
            rsp.len()
        } else {
            TPM_DATA_BUFFER_SIZE
        };
        let part = copy_range(rsp, 0, len);
        assert(part@ =~= fitting(rsp@));
        overwrite(&mut self.regs.data_buf, 0, &part);
        self.regs.control.ctrl_start = 0;
    }

    /// Serves an access at the control register `reg`.
    pub fn control_reg_rw(&mut self, reg: usize, rwo: &mut RWOp) -> (cmd: Option<Vec<u8>>)
        requires
            *old(rwo) matches RWOp::Read(ro) ==> ro.data@.len() == 8 ==> reg - reg % 4 + 4
                <= usize::MAX,
        ensures
            final(self)@.wf(),
            final(self).backend() == old(self).backend(),
            final(self).executed() == old(self).executed(),
            match *old(rwo) {
                RWOp::Read(ro) => {
                    &&& cmd is None
                    &&& final(self)@ == old(self)@
                    &&& *final(rwo) matches RWOp::Read(done)
                    &&& done.offset == ro.offset
                    &&& done.data@ == control_read(old(self)@, reg as int, ro.data@.len())
                },
                RWOp::Write(wo) => {
                    &&& *final(rwo) == *old(rwo)
                    &&& final(self)@ == control_written(old(self)@, reg as int, wo.data@)
                    &&& cmd is Some <==> control_starts(old(self)@, reg as int, wo.data@)
                    &&& cmd matches Some(c) ==> c@ == command(old(self)@.data)
                },
            },
    {
        proof {
            use_type_invariant(&self.regs);
        }
        match rwo {
            RWOp::Read(ro) => {
                let slot: usize = reg - reg % 4;
                let len: usize = ro.len();
                let low: u64 = self.reg_read(slot) as u64;
                if len == 1 || len == 2 {
                    proof {
                        lemma_word_parts(low as nat, len as nat);
                    }
                    let byte: usize = reg % 4;
                    let scale: u64 = if byte == 0 {
                        1
                    } else if byte == 1 {
                        0x100
                    } else if byte == 2 {
                        0x1_0000
                    } else {
                        0x100_0000
                    };
                    ro.write_uint(low / scale);
                } else if len == 4 {
                    ro.write_uint(low);
                } else if len == 8 {
                    let high: u64 = self.reg_read(slot + 4) as u64;
                    ro.write_uint(low + high * 0x1_0000_0000);
                } else {
                    ro.fill_zero();
                }
                None
            },
            RWOp::Write(wo) => {
                let len: usize = wo.len();
                if len == 1 || len == 2 || len == 4 || len == 8 {
                    let val: u64 = wo.read_uint() % 0x1_0000_0000;
                    self.reg_write(reg, val as u32)
                } else {
                    None
                }
            },
        }
    }

    /// The value of the 32-bit register at `reg`.
    pub fn reg_read(&self, reg: usize) -> (val: u32)
        ensures
            val == register_value(self@, reg as int),
            self@.wf(),
    {
        proof {
            use_type_invariant(&self.regs);
        }
        match reg {
            REG_LOC_STATE => self.regs.control.loc_state,
            REG_LOC_STS => self.regs.control.loc_sts,
            REG_INTF_ID_LO => INTF_ID_LO,
            REG_INTF_ID_HI => INTF_ID_HI,
            REG_CTRL_REQ => self.regs.control.ctrl_req,
            REG_CTRL_STS => self.regs.control.ctrl_sts,
            REG_CTRL_START => self.regs.control.ctrl_start,
            REG_INT_ENABLE => self.regs.control.int_enable,
            REG_INT_STS => self.regs.control.int_sts,
            REG_CTRL_CMD_SIZE => TPM_DATA_BUFFER_SIZE as u32,
            REG_CTRL_CMD_LADDR => DATA_BUF_ADDR as u32,
            REG_CTRL_CMD_HADDR => (DATA_BUF_ADDR as u64 / 0x1_0000_0000) as u32,
            REG_CTRL_RSP_SIZE => TPM_DATA_BUFFER_SIZE as u32,
            REG_CTRL_RSP_ADDR_LO => DATA_BUF_ADDR as u32,
            REG_CTRL_RSP_ADDR_HI => (DATA_BUF_ADDR as u64 / 0x1_0000_0000) as u32,
            _ => 0,
        }
    }

    /// Stores `val` in the 32-bit register at `reg`, and returns the command
    /// that this starts.
    pub fn reg_write(&mut self, reg: usize, val: u32) -> (cmd: Option<Vec<u8>>)
        ensures
            final(self)@.wf(),
            final(self).backend() == old(self).backend(),
            final(self).executed() == old(self).executed(),
            final(self)@ == register_written(old(self)@, reg as int, val),
            cmd is Some <==> starts_command(old(self)@, reg as int, val),
            cmd matches Some(c) ==> c@ == command(old(self)@.data),
    {
        proof {
            use_type_invariant(&self.regs);
            lemma_register_bits(val);
        }
        let mut control = self.regs.control;
        match reg {
            REG_LOC_CTRL => {
                // Access is granted unconditionally. Relinquishing and seizing
                // mean nothing where there is one locality.
                if val & LOC_CTRL_REQUEST_ACCESS != 0 {
                    control.loc_state = control.loc_state | LOC_STATE_LOC_ASSIGNED;
                    control.loc_sts = control.loc_sts | LOC_STS_GRANTED;
                }
            },
            REG_CTRL_REQ => {
                // A request is served at once, so its bit reads as zero.
                if val & CTRL_REQ_CMD_READY != 0 {
                    control.state = TpmState::Ready;
                    control.ctrl_sts = control.ctrl_sts & !(CTRL_STS_IDLE | CTRL_STS_FATAL);
                    control.ctrl_req = 0;
                }
                if val & CTRL_REQ_GO_IDLE != 0 {
                    control.state = TpmState::Idle;
                    control.ctrl_sts = CTRL_STS_IDLE;
                    control.ctrl_req = 0;
                }
            },
            REG_CTRL_START => {
                if val & CTRL_START_START == 0 || control.state != TpmState::Ready {
                    return None;
                }
                control.ctrl_start = CTRL_START_START;
                self.regs.control = control;
                return Some(self.take_command());
            },
            REG_INT_ENABLE => {
                control.int_enable = val;
            },
            REG_INT_STS => {
                control.int_sts = control.int_sts & !val;
            },
            // Cancellation is not passed on to the executor.
            REG_CTRL_CANCEL => {},
            _ => {},
        }
        self.regs.control = control;
        None
    }

    /// The command in the data buffer.
    fn take_command(&self) -> (cmd: Vec<u8>)
        ensures
            cmd@ == command(self@.data),
    {
        proof {
            use_type_invariant(&self.regs);
        }
        let buf = self.regs.data_buf.as_slice();
        let size_field = copy_range(buf, 2, 4);
        let size: u64 = read_be(size_field.as_slice());
        let len: usize = if size < TPM_DATA_BUFFER_SIZE as u64 {
            size as usize
        } else {
            TPM_DATA_BUFFER_SIZE
        };
        let cmd = copy_range(buf, 0, len);
        assert(cmd@ =~= command(self@.data));
        cmd
    }

    /// Serves an access at `at` in the data buffer.
    pub fn data_buf_rw(&mut self, at: usize, rwo: &mut RWOp)
        ensures
            final(self)@.wf(),
            final(self).backend() == old(self).backend(),
            final(self).executed() == old(self).executed(),
            match *old(rwo) {
                RWOp::Read(ro) => {
                    &&& final(self)@ == old(self)@
                    &&& *final(rwo) matches RWOp::Read(done)
                    &&& done.offset == ro.offset
                    &&& done.data@ == buffer_read(old(self)@, at as int, ro.data@.len())
                },
                RWOp::Write(wo) => {
                    &&& *final(rwo) == *old(rwo)
                    &&& final(self)@ == buffer_written(old(self)@, at as int, wo.data@)
                },
            },
    {
        proof {
            use_type_invariant(&self.regs);
        }
        match rwo {
            RWOp::Read(ro) => {
                let len: usize = ro.len();
                if at <= TPM_DATA_BUFFER_SIZE && len <= TPM_DATA_BUFFER_SIZE - at {
                    ro.write_bytes(copy_range(self.regs.data_buf.as_slice(), at, len));
                } else {
                    ro.fill_zero();
                }
            },
            RWOp::Write(wo) => {
                let len: usize = wo.len();
                if at <= TPM_DATA_BUFFER_SIZE && len <= TPM_DATA_BUFFER_SIZE - at {
                    overwrite(&mut self.regs.data_buf, at, &wo.data);
                }
            },
        }
    }

    /// The name of the device.
    pub fn device_name(&self) -> (name: &'static str)
        ensures
            name@ == "tpm-crb"@,
    {
        DEVICE_NAME
    }

    /// Returns the device to its state after power-on.
    pub fn reset(&mut self)
        ensures
            final(self)@ == power_on(),
            final(self)@.wf(),
            final(self).backend() == old(self).backend(),
            final(self).executed() == old(self).executed(),
    {
        self.regs = CrbRegs::new();
    }
}

impl<B: Runs> TpmCrb<B> {
    /// Serves one guest access, running the command that it starts.
    ///
    /// A read leaves the device as it is. A write that starts a command has the
    /// command in the data buffer run once, and leaves the device as
    /// the response to it says, whatever that is.
    pub fn mmio_rw(&mut self, rwo: &mut RWOp)
        ensures
            final(self)@.wf(),
            final(self).backend() == old(self).backend(),
            final(self).executed() == (match *old(rwo) {
                RWOp::Write(wo) if window_starts(old(self)@, wo.offset as int, wo.data@) => old(
                    self,
                ).executed().push(command(old(self)@.data)),
                _ => old(self).executed(),
            }),
            old(self)@.ctrl_start == 0 ==> final(self)@.ctrl_start == 0,
            match *old(rwo) {
                RWOp::Read(ro) => {
                    &&& final(self)@ == old(self)@
                    &&& *final(rwo) matches RWOp::Read(done)
                    &&& done.offset == ro.offset
                    &&& done.data@ == window_read(old(self)@, ro.offset as int, ro.data@.len())
                },
                RWOp::Write(wo) => {
                    let written = window_written(old(self)@, wo.offset as int, wo.data@);
                    &&& *final(rwo) == *old(rwo)
                    &&& if window_starts(old(self)@, wo.offset as int, wo.data@) {
                        exists|rsp: Seq<u8>|
                            {
                                &&& #[trigger] old(self).backend().answers(
                                    command(old(self)@.data),
                                    rsp,
                                )
                                &&& final(self)@ == answered(written, rsp)
                            }
                    } else {
                        final(self)@ == written
                    }
                },
            },
    {
        if let Some(cmd) = self.begin_rw(rwo) {
            let rsp = B::run(&mut self.executor, cmd.as_slice());
            self.finish_rw(rsp.as_slice());
        }
    }
}

/// How the register bits combine.
pub proof fn lemma_register_bits(val: u32)
    ensures
        LOC_STATE_REG_VALID | LOC_STATE_LOC_ASSIGNED == 0x82,
        0x82u32 | LOC_STATE_LOC_ASSIGNED == 0x82,
        LOC_STS_GRANTED | LOC_STS_GRANTED == LOC_STS_GRANTED,
        CTRL_STS_IDLE & !(CTRL_STS_IDLE | CTRL_STS_FATAL) == 0,
        0u32 & !(CTRL_STS_IDLE | CTRL_STS_FATAL) == 0,
        CTRL_STS_IDLE & CTRL_STS_FATAL == 0,
        CTRL_STS_IDLE & CTRL_STS_IDLE == CTRL_STS_IDLE,
        0u32 & val == 0,
        0u32 & !val == 0,
{
    assert(0x80u32 | 0x02u32 == 0x82) by (bit_vector);
    assert(0x82u32 | 0x02u32 == 0x82) by (bit_vector);
    assert(0x01u32 | 0x01u32 == 0x01) by (bit_vector);
    assert(0x02u32 & !(0x02u32 | 0x01u32) == 0) by (bit_vector);
    assert(0u32 & !(0x02u32 | 0x01u32) == 0) by (bit_vector);
    assert(0x02u32 & 0x01u32 == 0) by (bit_vector);
    assert(0x02u32 & 0x02u32 == 0x02) by (bit_vector);
    assert(0u32 & val == 0) by (bit_vector);
    assert(0u32 & !val == 0) by (bit_vector);
}

} // verus!
