use vtpm::mmio::{MmioBus, RegisterError};

#[test]
fn windows_do_not_overlap() {
    let mut bus = MmioBus::new();
    assert_eq!(bus.find(0), None);
    assert_eq!(bus.register(0x1000, 0x100), Ok(0));
    assert_eq!(bus.register(0x1100, 0x100), Ok(1));
    assert_eq!(bus.register(0x10FF, 1), Err(RegisterError::Conflict));
    assert_eq!(bus.register(0x0FFF, 2), Err(RegisterError::Conflict));
    assert_eq!(bus.register(0, usize::MAX), Err(RegisterError::Conflict));
    assert!(bus.conflicts_with(0x11FF, 1));
    assert!(!bus.conflicts_with(0x1200, usize::MAX));
    assert!(bus.conflicts_with(0x10, usize::MAX));
    assert_eq!(bus.register(0x0FFF, 1), Ok(2));
    assert_eq!(bus.find(0x1000), Some((0, 0)));
    assert_eq!(bus.find(0x11FF), Some((1, 0xFF)));
    assert_eq!(bus.find(0x0FFF), Some((2, 0)));
    assert_eq!(bus.find(0x1200), None);
}

#[test]
fn windows_lie_in_range() {
    let mut bus = MmioBus::new();
    assert_eq!(bus.register(0x1000, 0), Err(RegisterError::OutOfRange));
    assert_eq!(bus.register(usize::MAX, 1), Err(RegisterError::OutOfRange));
    assert_eq!(bus.register(usize::MAX - 1, 1), Ok(0));
    assert_eq!(bus.find(usize::MAX - 1), Some((0, 0)));
    assert_eq!(bus.find(usize::MAX), None);
}
