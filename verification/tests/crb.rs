use std::sync::{Arc, Mutex};
use vtpm::common::{RWOp, ReadOp, WriteOp};
use vtpm::mmio::MmioBus;
use vtpm::tpm::crb::DEVICE_NAME;
use vtpm::tpm::{
    TpmBackend, TpmCrb, TPM_CRB_BASE_ADDR, TPM_CRB_SIZE, TPM_DATA_BUFFER_OFFSET,
    TPM_DATA_BUFFER_SIZE, TPM_LOCALITY_SIZE,
};

struct Recorder {
    seen: Mutex<Vec<Vec<u8>>>,
    reply: Vec<u8>,
}

impl TpmBackend for Recorder {
    fn execute_cmd(&self, cmd: &[u8]) -> Vec<u8> {
        self.seen.lock().unwrap().push(cmd.to_vec());
        self.reply.clone()
    }
}

fn recorder(reply: Vec<u8>) -> Arc<Recorder> {
    Arc::new(Recorder { seen: Mutex::new(Vec::new()), reply })
}

fn seen(backend: &Arc<Recorder>) -> Vec<Vec<u8>> {
    backend.seen.lock().unwrap().clone()
}

fn read(dev: &mut TpmCrb<Recorder>, offset: usize, len: usize) -> Vec<u8> {
    let mut op = RWOp::Read(ReadOp { offset, data: vec![0xEE; len] });
    dev.mmio_rw(&mut op);
    match op {
        RWOp::Read(ro) => {
            assert_eq!(ro.offset, offset);
            ro.data
        }
        RWOp::Write(_) => panic!("a read became a write"),
    }
}

fn read32(dev: &mut TpmCrb<Recorder>, offset: usize) -> u32 {
    let b = read(dev, offset, 4);
    u32::from_le_bytes([b[0], b[1], b[2], b[3]])
}

fn write(dev: &mut TpmCrb<Recorder>, offset: usize, data: &[u8]) {
    let mut op = RWOp::Write(WriteOp::new(offset, data.to_vec()));
    dev.mmio_rw(&mut op);
    match op {
        RWOp::Write(wo) => {
            assert_eq!(wo.offset, offset);
            assert_eq!(wo.data, data);
        }
        RWOp::Read(_) => panic!("a write became a read"),
    }
}

fn write32(dev: &mut TpmCrb<Recorder>, offset: usize, val: u32) {
    write(dev, offset, &val.to_le_bytes());
}

#[test]
fn registers_after_power_on() {
    let mut dev = TpmCrb::create(recorder(vec![]));
    assert_eq!(read32(&mut dev, 0x00), 0x82);
    assert_eq!(read32(&mut dev, 0x08), 0);
    assert_eq!(read32(&mut dev, 0x0C), 1);
    assert_eq!(read32(&mut dev, 0x30), 0x0002_4011);
    assert_eq!(read32(&mut dev, 0x34), 0);
    assert_eq!(read32(&mut dev, 0x40), 0);
    assert_eq!(read32(&mut dev, 0x44), 2);
    assert_eq!(read32(&mut dev, 0x48), 0);
    assert_eq!(read32(&mut dev, 0x4C), 0);
    assert_eq!(read32(&mut dev, 0x50), 0);
    assert_eq!(read32(&mut dev, 0x54), 0);
    assert_eq!(read32(&mut dev, 0x58), 0xF80);
    assert_eq!(read32(&mut dev, 0x5C), 0xFED4_0080);
    assert_eq!(read32(&mut dev, 0x60), 0);
    assert_eq!(read32(&mut dev, 0x64), 0xF80);
    assert_eq!(read32(&mut dev, 0x68), 0xFED4_0080);
    assert_eq!(read32(&mut dev, 0x6C), 0);
    assert_eq!(read32(&mut dev, 0x70), 0);
    assert_eq!(read(&mut dev, 0x80, 0xF80), vec![0u8; 0xF80]);
}

#[test]
fn window_layout() {
    assert_eq!(TPM_CRB_SIZE, 5 * TPM_LOCALITY_SIZE);
    assert_eq!(TPM_DATA_BUFFER_OFFSET + TPM_DATA_BUFFER_SIZE, TPM_LOCALITY_SIZE);
    assert_eq!(TPM_CRB_BASE_ADDR, 0xFED4_0000);
}

#[test]
fn register_read_widths() {
    let mut dev = TpmCrb::create(recorder(vec![]));
    assert_eq!(read(&mut dev, 0x30, 1), vec![0x11]);
    assert_eq!(read(&mut dev, 0x30, 2), vec![0x11, 0x40]);
    assert_eq!(read(&mut dev, 0x30, 4), vec![0x11, 0x40, 0x02, 0x00]);
    assert_eq!(read(&mut dev, 0x30, 8), vec![0x11, 0x40, 0x02, 0x00, 0, 0, 0, 0]);
    // Size and lower address half in one read.
    assert_eq!(read(&mut dev, 0x58, 8), vec![0x80, 0x0F, 0, 0, 0x80, 0x00, 0xD4, 0xFE]);
    // The last slot before the data buffer is followed by no register.
    assert_eq!(read(&mut dev, 0x7C, 8), vec![0; 8]);
    // Other widths read as zero.
    assert_eq!(read(&mut dev, 0x30, 3), vec![0; 3]);
    assert_eq!(read(&mut dev, 0x30, 16), vec![0; 16]);
    assert_eq!(read(&mut dev, 0x30, 0), Vec::<u8>::new());
    // A narrow read within a slot gives the bytes that lie there.
    assert_eq!(read(&mut dev, 0x31, 1), vec![0x40]);
    assert_eq!(read(&mut dev, 0x5E, 2), vec![0xD4, 0xFE]);
    assert_eq!(read(&mut dev, 0x5D, 2), vec![0x00, 0xD4]);
    assert_eq!(read(&mut dev, 0x32, 1), vec![0x02]);
    assert_eq!(read(&mut dev, 0x5F, 1), vec![0xFE]);
    // Past the slot's end there are zeros.
    assert_eq!(read(&mut dev, 0x5F, 2), vec![0xFE, 0x00]);
    // Wider reads start at the slot.
    assert_eq!(read(&mut dev, 0x31, 4), vec![0x11, 0x40, 0x02, 0x00]);
    assert_eq!(read(&mut dev, 0x5A, 8), vec![0x80, 0x0F, 0, 0, 0x80, 0x00, 0xD4, 0xFE]);
}

#[test]
fn narrow_reads_are_parts_of_wide_ones() {
    let mut dev = TpmCrb::create(recorder(vec![]));
    write32(&mut dev, 0x50, 0xA1B2_C3D4);
    for reg in 0..0x80usize {
        let whole = read(&mut dev, reg, 4);
        let k = reg % 4;
        assert_eq!(read(&mut dev, reg, 1), whole[k..k + 1].to_vec());
        if k < 3 {
            assert_eq!(read(&mut dev, reg, 2), whole[k..k + 2].to_vec());
        }
        if reg < 0x7C {
            let mut pair = whole.clone();
            pair.extend_from_slice(&read(&mut dev, reg + 4, 4));
            assert_eq!(read(&mut dev, reg, 8), pair);
        }
    }
}

#[test]
fn registers_one_by_one() {
    let backend = recorder(vec![]);
    let mut dev = TpmCrb::create(Arc::clone(&backend));
    assert_eq!(dev.reg_read(0x30), 0x0002_4011);
    assert_eq!(dev.reg_write(0x50, 0xFFFF_FFFF), None);
    assert_eq!(dev.reg_read(0x50), 0xFFFF_FFFF);
    assert_eq!(dev.reg_read(0x54), 0);
    assert_eq!(dev.reg_write(0x40, 1), None);
    assert_eq!(dev.reg_write(0x4C, 1), Some(vec![]));
    assert_eq!(dev.reg_read(0x4C), 1);
    let mut op = RWOp::Read(ReadOp::new(0, 1));
    assert_eq!(dev.control_reg_rw(0x5F, &mut op), None);
    assert!(matches!(op, RWOp::Read(ro) if ro.data == vec![0xFE]));
    let mut op = RWOp::Write(WriteOp::new(0, vec![1; 8]));
    assert_eq!(dev.control_reg_rw(usize::MAX, &mut op), None);
    let mut op = RWOp::Read(ReadOp::new(0, 2));
    assert_eq!(dev.control_reg_rw(usize::MAX, &mut op), None);
    let mut op = RWOp::Write(WriteOp::new(0, vec![3, 4]));
    dev.data_buf_rw(0xF7E, &mut op);
    let mut op = RWOp::Read(ReadOp::new(0, 2));
    dev.data_buf_rw(0xF7E, &mut op);
    assert!(matches!(op, RWOp::Read(ro) if ro.data == vec![3, 4]));
    let mut op = RWOp::Read(ReadOp::new(0, 2));
    dev.data_buf_rw(usize::MAX, &mut op);
    assert!(matches!(op, RWOp::Read(ro) if ro.data == vec![0, 0]));
    assert!(seen(&backend).is_empty());
}

#[test]
fn executor_handle() {
    let backend = recorder(vec![5]);
    let dev = TpmCrb::create(Arc::clone(&backend));
    assert!(Arc::ptr_eq(&backend, &dev.backend_handle()));
    assert_eq!(dev.backend_handle().execute_cmd(&[1]), vec![5]);
}

#[test]
fn last_request_decides() {
    let backend = recorder(vec![1]);
    let mut dev = TpmCrb::create(Arc::clone(&backend));
    write32(&mut dev, 0x40, 1);
    write32(&mut dev, 0x40, 0);
    write32(&mut dev, 0x40, 4);
    write(&mut dev, 0x40, &[2, 0, 0]);
    write32(&mut dev, 0x50, 2);
    read(&mut dev, 0x40, 4);
    assert_eq!(read32(&mut dev, 0x44), 0);
    write32(&mut dev, 0x4C, 1);
    assert_eq!(seen(&backend).len(), 1);
    assert_eq!(read32(&mut dev, 0x4C), 0);
    dev.reset();
    assert_eq!(read32(&mut dev, 0x44), 2);
    write32(&mut dev, 0x4C, 1);
    assert_eq!(seen(&backend).len(), 1);
}

#[test]
fn other_localities_are_inert() {
    let backend = recorder(vec![1]);
    let mut dev = TpmCrb::create(Arc::clone(&backend));
    for locality in 1..5usize {
        let base = locality * TPM_LOCALITY_SIZE;
        assert_eq!(read(&mut dev, base + 0x30, 4), vec![0; 4]);
        assert_eq!(read(&mut dev, base + 0x80, 16), vec![0; 16]);
        write32(&mut dev, base + 0x40, 1);
        write32(&mut dev, base + 0x4C, 1);
        write(&mut dev, base + 0x80, &[7; 16]);
    }
    assert_eq!(read32(&mut dev, 0x44), 2);
    assert_eq!(read(&mut dev, 0x80, 16), vec![0; 16]);
    assert!(seen(&backend).is_empty());
}

#[test]
fn power_state_requests() {
    let mut dev = TpmCrb::create(recorder(vec![]));
    write32(&mut dev, 0x40, 1);
    assert_eq!(read32(&mut dev, 0x40), 0);
    assert_eq!(read32(&mut dev, 0x44), 0);
    write32(&mut dev, 0x40, 2);
    assert_eq!(read32(&mut dev, 0x40), 0);
    assert_eq!(read32(&mut dev, 0x44), 2);
    // Both at once end idle.
    write32(&mut dev, 0x40, 1);
    write32(&mut dev, 0x40, 3);
    assert_eq!(read32(&mut dev, 0x44), 2);
    // Other bits ask for nothing.
    write32(&mut dev, 0x40, 0xFFFF_FFFC);
    assert_eq!(read32(&mut dev, 0x44), 2);
}

#[test]
fn register_write_widths() {
    let mut dev = TpmCrb::create(recorder(vec![]));
    write(&mut dev, 0x50, &[0xAB]);
    assert_eq!(read32(&mut dev, 0x50), 0xAB);
    write(&mut dev, 0x50, &[0x34, 0x12]);
    assert_eq!(read32(&mut dev, 0x50), 0x1234);
    write(&mut dev, 0x50, &[1, 2, 3, 4]);
    assert_eq!(read32(&mut dev, 0x50), 0x0403_0201);
    // An eight-byte write stores its low half in the one register.
    write(&mut dev, 0x50, &[5, 6, 7, 8, 0xFF, 0xFF, 0xFF, 0xFF]);
    assert_eq!(read32(&mut dev, 0x50), 0x0807_0605);
    assert_eq!(read32(&mut dev, 0x54), 0);
    // Other widths, and offsets within a slot, are ignored.
    write(&mut dev, 0x50, &[9, 9, 9]);
    write(&mut dev, 0x51, &[9]);
    write(&mut dev, 0x50, &[]);
    assert_eq!(read32(&mut dev, 0x50), 0x0807_0605);
}

#[test]
fn inert_registers() {
    let mut dev = TpmCrb::create(recorder(vec![]));
    for reg in [
        0x00usize, 0x08, 0x0C, 0x30, 0x34, 0x44, 0x48, 0x54, 0x58, 0x5C, 0x60, 0x64, 0x68, 0x6C,
        0x70,
    ] {
        let before = read(&mut dev, reg, 4);
        write32(&mut dev, reg, 0xFFFF_FFFF);
        assert_eq!(read(&mut dev, reg, 4), before);
    }
    assert_eq!(read32(&mut dev, 0x00), 0x82);
    assert_eq!(read32(&mut dev, 0x0C), 1);
    assert_eq!(read32(&mut dev, 0x44), 2);
    assert_eq!(read32(&mut dev, 0x54), 0);
}

#[test]
fn data_buffer_access() {
    let mut dev = TpmCrb::create(recorder(vec![]));
    write(&mut dev, 0x90, &[1, 2, 3]);
    assert_eq!(read(&mut dev, 0x8F, 5), vec![0, 1, 2, 3, 0]);
    // Up to the last byte.
    write(&mut dev, 0xFFE, &[0xAA, 0xBB]);
    assert_eq!(read(&mut dev, 0xFFE, 2), vec![0xAA, 0xBB]);
    // Past it.
    assert_eq!(read(&mut dev, 0xFFE, 3), vec![0; 3]);
    write(&mut dev, 0xFFE, &[1, 2, 3]);
    assert_eq!(read(&mut dev, 0xFFE, 2), vec![0xAA, 0xBB]);
    assert_eq!(read(&mut dev, 0x80, 0xF81), vec![0; 0xF81]);
}

#[test]
fn start_is_ignored_unless_ready() {
    let backend = recorder(vec![1, 2, 3]);
    let mut dev = TpmCrb::create(Arc::clone(&backend));
    write32(&mut dev, 0x4C, 1);
    assert!(seen(&backend).is_empty());
    write32(&mut dev, 0x40, 1);
    write32(&mut dev, 0x4C, 2);
    assert!(seen(&backend).is_empty());
    write32(&mut dev, 0x40, 2);
    write32(&mut dev, 0x4C, 1);
    assert!(seen(&backend).is_empty());
    assert_eq!(read32(&mut dev, 0x4C), 0);
    assert_eq!(read(&mut dev, 0x80, 3), vec![0; 3]);
}

#[test]
fn command_and_response() {
    let reply = vec![0x80, 0x01, 0, 0, 0, 10, 0, 0, 0, 0];
    let backend = recorder(reply.clone());
    let mut dev = TpmCrb::create(Arc::clone(&backend));
    let cmd = [0x80, 0x01, 0, 0, 0, 12, 0, 0, 0x01, 0x44, 0, 0];
    write(&mut dev, 0x80, &cmd);
    write(&mut dev, 0x80 + 12, &[0x55; 4]);
    write32(&mut dev, 0x40, 1);
    write32(&mut dev, 0x4C, 1);
    assert_eq!(seen(&backend), vec![cmd.to_vec()]);
    assert_eq!(read32(&mut dev, 0x4C), 0);
    assert_eq!(read(&mut dev, 0x80, 10), reply);
    // Behind the response the buffer is as it was.
    assert_eq!(read(&mut dev, 0x8A, 6), vec![0, 0, 0x55, 0x55, 0x55, 0x55]);
    // The device stays ready.
    assert_eq!(read32(&mut dev, 0x44), 0);
}

#[test]
fn command_sizes() {
    let backend = recorder(vec![]);
    let mut dev = TpmCrb::create(Arc::clone(&backend));
    write32(&mut dev, 0x40, 1);
    // An empty buffer states size zero.
    write32(&mut dev, 0x4C, 1);
    // A size past the end of the buffer is cut.
    write(&mut dev, 0x80, &[1, 2, 0xFF, 0xFF, 0xFF, 0xFF, 7]);
    write32(&mut dev, 0x4C, 1);
    write(&mut dev, 0x82, &[0, 0, 0x0F, 0x80]);
    write32(&mut dev, 0x4C, 1);
    write(&mut dev, 0x82, &[0, 0, 0x0F, 0x7F]);
    write32(&mut dev, 0x4C, 1);
    let seen = seen(&backend);
    assert_eq!(seen[0], Vec::<u8>::new());
    assert_eq!(seen[1].len(), 0xF80);
    assert_eq!(&seen[1][..8], &[1, 2, 0xFF, 0xFF, 0xFF, 0xFF, 7, 0]);
    assert_eq!(seen[2].len(), 0xF80);
    assert_eq!(seen[3].len(), 0xF7F);
}

#[test]
fn long_response_is_cut() {
    let reply: Vec<u8> = (0..0x1000usize).map(|i| i as u8).collect();
    let mut dev = TpmCrb::create(recorder(reply.clone()));
    write32(&mut dev, 0x40, 1);
    write32(&mut dev, 0x4C, 1);
    assert_eq!(read(&mut dev, 0x80, 0xF80), reply[..0xF80].to_vec());
}

#[test]
fn two_phases() {
    let mut dev = TpmCrb::create(recorder(vec![]));
    write(&mut dev, 0x80, &[0, 0, 0, 0, 0, 7, 9]);
    write32(&mut dev, 0x40, 1);
    let mut op = RWOp::Write(WriteOp::new(0x4C, vec![1, 0, 0, 0]));
    let cmd = dev.begin_rw(&mut op);
    assert_eq!(cmd, Some(vec![0, 0, 0, 0, 0, 7, 9]));
    assert_eq!(read32(&mut dev, 0x4C), 1);
    dev.finish_rw(&[4, 5]);
    assert_eq!(read32(&mut dev, 0x4C), 0);
    assert_eq!(read(&mut dev, 0x80, 7), vec![4, 5, 0, 0, 0, 7, 9]);
    let mut op = RWOp::Read(ReadOp::new(0x30, 4));
    assert_eq!(dev.begin_rw(&mut op), None);
}

#[test]
fn reset_returns_to_power_on() {
    let mut dev = TpmCrb::create(recorder(vec![]));
    write(&mut dev, 0x80, &[1, 2, 3]);
    write32(&mut dev, 0x50, 0xFFFF);
    write32(&mut dev, 0x40, 1);
    dev.reset();
    assert_eq!(read(&mut dev, 0x80, 3), vec![0; 3]);
    assert_eq!(read32(&mut dev, 0x50), 0);
    assert_eq!(read32(&mut dev, 0x44), 2);
}

#[test]
fn name() {
    let dev = TpmCrb::create(recorder(vec![]));
    assert_eq!(dev.device_name(), "tpm-crb");
    assert_eq!(DEVICE_NAME, "tpm-crb");
}

#[test]
fn attached_device_is_found() {
    let mut bus = MmioBus::new();
    assert_eq!(bus.register(0x1000, 0x1000), Ok(0));
    let dev = TpmCrb::create(recorder(vec![]));
    assert_eq!(dev.attach(&mut bus), 1);
    assert_eq!(bus.find(0xFED4_0000), Some((1, 0)));
    assert_eq!(bus.find(0xFED4_0080), Some((1, 0x80)));
    assert_eq!(bus.find(0xFED4_4FFF), Some((1, 0x4FFF)));
    assert_eq!(bus.find(0xFED4_5000), None);
    assert_eq!(bus.find(0xFED3_FFFF), None);
    assert_eq!(bus.find(0x1800), Some((0, 0x800)));
}
