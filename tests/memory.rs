use chip8::error::Chip8Error;
use chip8::memory::Memory;

#[test]
fn program_of_largest_size_loads() {
    let mut memory = Memory::new();
    let rom = vec![0xAB; 4096 - 0x200];
    assert_eq!(memory.load_rom(&rom), Ok(()));
    assert_eq!(memory.get_from_index(0x200), Ok(0xAB));
    assert_eq!(memory.get_from_index(0xFFF), Ok(0xAB));
    assert_eq!(memory.get_from_index(0x1FF), Ok(0));
}

#[test]
fn program_one_byte_too_large_is_refused() {
    let mut memory = Memory::new();
    let rom = vec![0xAB; 4096 - 0x200 + 1];
    assert_eq!(memory.load_rom(&rom), Err(Chip8Error::LoadError { size: 3585 }));
    assert_eq!(memory.get_from_index(0x200), Ok(0));
}

#[test]
fn initialize_writes_font() {
    let mut memory = Memory::new();
    memory.initialize();
    assert_eq!(memory.get_from_index(0), Ok(0xF0));
    assert_eq!(memory.get_from_index(5), Ok(0x20));
    assert_eq!(memory.get_from_index(79), Ok(0x80));
    assert_eq!(memory.get_from_index(80), Ok(0));
}

#[test]
fn access_past_memory_is_out_of_bounds() {
    let mut memory = Memory::new();
    assert_eq!(memory.get_from_index(4096), Err(Chip8Error::OutOfBounds { index: 4096 }));
    assert_eq!(memory.set_from_index(5000, 1), Err(Chip8Error::OutOfBounds { index: 5000 }));
    assert_eq!(memory.set_from_index(4095, 7), Ok(()));
    assert_eq!(memory.get_from_index(4095), Ok(7));
}

#[test]
fn read_and_write_ranges() {
    let mut memory = Memory::new();
    memory.write_range(0x300, &[1, 2, 3]);
    assert_eq!(memory.read_range(0x2FF, 5), vec![0, 1, 2, 3, 0]);
}
