use emu6502::memory::{MemoryError, MemoryType};
use emu6502::memory_map::{MemoryMap, MemoryMapError};

#[test]
fn memory_map() {
    // Create a new MemoryMap and assert that it is empty
    let memory_map = MemoryMap::new();
    assert_eq!(memory_map.count(), 0);
}

#[test]
fn memory_map_insert() {
    let mut memory_map = MemoryMap::new();
    memory_map.create("RAM".to_string(), MemoryType::RAM, 0x4000, 0x0000).unwrap();
    assert_eq!(memory_map.count(), 1);

    memory_map.create("ROM".to_string(), MemoryType::ROM, 0x8000, 0x8000).unwrap();
    assert_eq!(memory_map.count(), 2);
}

#[test]
fn memory_map_overlap() -> Result<(), String> {
    let mut memory_map = MemoryMap::new();
    memory_map.create("RAM".to_string(), MemoryType::RAM, 0x4000, 0x0000).unwrap();
    assert_eq!(memory_map.count(), 1);

    memory_map.create("ROM".to_string(), MemoryType::ROM, 0x8000, 0x8000).unwrap();
    assert_eq!(memory_map.count(), 2);

    match memory_map.create("More RAM".to_string(), MemoryType::RAM, 0x4000, 0x0000) {
        Ok(_) => Err(String::from("MemoryMap: Inserted device that overlaps with existing device")),
        Err(error) => match error {
            MemoryMapError::Overlap => Ok(()),
            _ => Err(String::from("MemoryMap: Inserted device that overlaps with existing device")),
        },
    }
}

#[test]
fn memory_map_unmapped() -> Result<(), String> {
    let mut memory_map = MemoryMap::new();
    memory_map.create("RAM".to_string(), MemoryType::RAM, 0x4000, 0x0000).unwrap();
    assert_eq!(memory_map.count(), 1);

    match memory_map.write(0x8000, 0x12) {
        Ok(_) => Err(String::from("MemoryMap: Wrote to an unmapped address")),
        Err(error) => match error {
            MemoryError::Unmapped => Ok(()),
            _ => Err(String::from("MemoryMap: Wrote to an unmapped address")),
        },
    }
}

#[test]
fn memory_map_read_write() {
    let mut memory_map = MemoryMap::new();
    memory_map.create("RAM".to_string(), MemoryType::RAM, 0x4000, 0x0000).unwrap();
    assert_eq!(memory_map.count(), 1);

    memory_map.create("ROM".to_string(), MemoryType::ROM, 0x8000, 0x8000).unwrap();
    assert_eq!(memory_map.count(), 2);

    memory_map.write(0x0000, 0x12).unwrap();
    assert_eq!(memory_map.read(0x0000).unwrap(), 0x12);

    memory_map.write(0x8000, 0x34).unwrap();
    assert_eq!(memory_map.read(0x8000).unwrap(), 0x00);
}

fn ram_and_rom() -> MemoryMap {
    let mut memory_map = MemoryMap::new();
    memory_map.create("RAM".to_string(), MemoryType::RAM, 0x4000, 0x0000).unwrap();
    memory_map.create("ROM".to_string(), MemoryType::ROM, 0x8000, 0x8000).unwrap();
    memory_map
}

#[test]
fn gap_between_devices_is_unmapped() {
    let mut memory_map = ram_and_rom();
    assert!(matches!(memory_map.write(0x4000, 0x01), Err(MemoryError::Unmapped)));
    assert!(matches!(memory_map.read(0x4000), Err(MemoryError::Unmapped)));
    assert!(matches!(memory_map.read(0x7FFF), Err(MemoryError::Unmapped)));
    assert_eq!(memory_map.read(0x3FFF).unwrap(), 0x00);
    assert_eq!(memory_map.read(0xFFFF).unwrap(), 0x00);
}

#[test]
fn empty_map_is_unmapped_everywhere() {
    let mut memory_map = MemoryMap::new();
    assert!(matches!(memory_map.read(0x0000), Err(MemoryError::Unmapped)));
    assert!(matches!(memory_map.write(0xFFFF, 1), Err(MemoryError::Unmapped)));
}

#[test]
fn write_goes_to_owner_at_its_own_offset() {
    let mut memory_map = MemoryMap::new();
    memory_map.create("LOW".to_string(), MemoryType::RAM, 0x10, 0x0000).unwrap();
    memory_map.create("HIGH".to_string(), MemoryType::RAM, 0x10, 0x1000).unwrap();
    memory_map.write(0x1003, 0xAB).unwrap();
    assert_eq!(memory_map.read(0x1003).unwrap(), 0xAB);
    assert_eq!(memory_map.read(0x0003).unwrap(), 0x00);
    assert_eq!(memory_map.read(0x1002).unwrap(), 0x00);
}

#[test]
fn overlap_at_start_end_and_enclosing() {
    let mut memory_map = MemoryMap::new();
    memory_map.create("A".to_string(), MemoryType::RAM, 0x100, 0x1000).unwrap();
    // start inside
    assert!(matches!(
        memory_map.create("B".to_string(), MemoryType::RAM, 0x100, 0x10FF),
        Err(MemoryMapError::Overlap)
    ));
    // end inside
    assert!(matches!(
        memory_map.create("C".to_string(), MemoryType::RAM, 0x100, 0x0F01),
        Err(MemoryMapError::Overlap)
    ));
    // encloses the registered range
    assert!(matches!(
        memory_map.create("D".to_string(), MemoryType::ROM, 0x1000, 0x0800),
        Err(MemoryMapError::Overlap)
    ));
    assert_eq!(memory_map.count(), 1);
    // adjacent ranges on both sides are accepted
    memory_map.create("E".to_string(), MemoryType::RAM, 0x100, 0x0F00).unwrap();
    memory_map.create("F".to_string(), MemoryType::RAM, 0x100, 0x1100).unwrap();
    assert_eq!(memory_map.count(), 3);
}

#[test]
fn mmio_is_backed_by_ram() {
    let mut memory_map = MemoryMap::new();
    memory_map.create("IO".to_string(), MemoryType::MMIO, 0x10, 0x4000).unwrap();
    memory_map.write(0x4001, 0x5A).unwrap();
    assert_eq!(memory_map.read(0x4001).unwrap(), 0x5A);
    assert_eq!(memory_map.entry(0).device_type(), "RAM");
}

#[test]
fn entries_describe_devices() {
    let memory_map = ram_and_rom();
    let ram = memory_map.entry(0);
    assert_eq!(ram.name(), "RAM");
    assert_eq!(ram.device_type(), "RAM");
    assert_eq!(ram.offset(), 0x0000);
    assert_eq!(ram.size(), 0x4000);
    let rom = memory_map.entry(1);
    assert_eq!(rom.name(), "ROM");
    assert_eq!(rom.device_type(), "ROM");
    assert_eq!(rom.offset(), 0x8000);
    assert_eq!(rom.size(), 0x8000);
}

#[test]
fn empty_device_blocks_no_range() {
    let mut memory_map = MemoryMap::new();
    memory_map.create("EMPTY".to_string(), MemoryType::RAM, 0, 0x0010).unwrap();
    memory_map.create("RAM".to_string(), MemoryType::RAM, 0x100, 0x0000).unwrap();
    assert_eq!(memory_map.count(), 2);
    memory_map.write(0x0010, 0x77).unwrap();
    assert_eq!(memory_map.read(0x0010).unwrap(), 0x77);
}
