use aoi::memory::Memory;
use aoi::types::AoType;

#[test]
fn untouched_cells_read_zero() {
    let m = Memory::new();
    assert_eq!(m.get(0), AoType::AoInt(0));
    assert_eq!(m.get(u32::MAX), AoType::AoInt(0));
    assert_eq!(m.get(0x0102_0304), AoType::AoInt(0));
}

#[test]
fn set_then_get() {
    let mut m = Memory::new();
    m.set(0x0102_0304, AoType::AoString("x".to_string()));
    assert_eq!(m.get(0x0102_0304), AoType::AoString("x".to_string()));
    m.set(0x0102_0304, AoType::AoBool(true));
    assert_eq!(m.get(0x0102_0304), AoType::AoBool(true));
}

#[test]
fn writes_leave_other_cells_alone() {
    let mut m = Memory::new();
    m.set(5, AoType::AoInt(1));
    m.set(6, AoType::AoInt(2));
    m.set(u32::MAX, AoType::AoPtr(3));
    m.set(0x0001_0005, AoType::AoInt(4));
    assert_eq!(m.get(5), AoType::AoInt(1));
    assert_eq!(m.get(6), AoType::AoInt(2));
    assert_eq!(m.get(u32::MAX), AoType::AoPtr(3));
    assert_eq!(m.get(0x0001_0005), AoType::AoInt(4));
    assert_eq!(m.get(4), AoType::AoInt(0));
    assert_eq!(m.get(0x0000_0105), AoType::AoInt(0));
    assert_eq!(m.get(0x0100_0005), AoType::AoInt(0));
}

#[test]
fn reads_below_a_written_tile_read_zero() {
    let mut m = Memory::new();
    m.set(0x0300_0000, AoType::AoInt(1));
    m.set(0x0000_0300, AoType::AoInt(2));
    m.set(0x0003_0000, AoType::AoInt(3));
    assert_eq!(m.get(0x0100_0000), AoType::AoInt(0));
    assert_eq!(m.get(0x0000_0100), AoType::AoInt(0));
    assert_eq!(m.get(0x0001_0000), AoType::AoInt(0));
    assert_eq!(m.get(0x0300_0000), AoType::AoInt(1));
}
