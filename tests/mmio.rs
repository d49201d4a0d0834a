use emu6502::mmio::Mmio;

#[test]
fn regions_and_gap() {
    let mut m = Mmio::new();
    m.write_byte(0x0010, 0xAA);
    m.write_byte(0x1000, 0xBB);
    m.write_byte(0x8001, 0xCC);
    assert_eq!(m.read_byte(0x0010), 0xAA);
    assert_eq!(m.read_byte(0x1000), 0x00);
    assert_eq!(m.read_byte(0x8001), 0xCC);
    assert_eq!(m.rom[1], 0xCC);
}

#[test]
fn bulk_read_through_memory_map() {
    let mut m = Mmio::new();
    m.write(0x07FE, &[1, 2]);
    assert_eq!(m.read(0x07FE, 2), Some(vec![1, 2]));
    assert_eq!(m.read(0x07FE, 3), Some(vec![1, 2, 0]));
    assert_eq!(m.read(0x0000, 0), Some(vec![]));
    m.write(0xFFFE, &[5, 6]);
    assert_eq!(m.read(0xFFFE, 2), Some(vec![5, 6]));
    assert_eq!(m.read(0xFFFE, 3), None);
}

#[test]
fn bulk_write_wraps_address_space() {
    let mut m = Mmio::new();
    m.write(0xFFFF, &[7, 8]);
    assert_eq!(m.read_byte(0xFFFF), 7);
    assert_eq!(m.read_byte(0x0000), 8);
}
