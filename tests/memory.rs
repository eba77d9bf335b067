use emu_memory::address_space::AddressSpace;
use emu_memory::error::MemoryError;
use emu_memory::inspector::{decode_byte, goto, rows_of_bytes, snapshot_rows, ROW_WIDTH};
use emu_memory::physical::{readers_agree, PhysicalMemory};

fn filled_memory() -> PhysicalMemory {
    let memory = PhysicalMemory::create(32, 16, 16).unwrap();
    let mut guard = memory.acquire_write().unwrap();
    for i in 0..32usize {
        guard.write_byte(i, 0x41 + i as u8).unwrap();
    }
    guard.release();
    memory
}

#[test]
fn create_rejects_window_past_end() {
    assert_eq!(AddressSpace::create(32, 16, 20).err(), Some(MemoryError::InvalidLayout));
    assert!(matches!(PhysicalMemory::create(32, 16, 20), Err(MemoryError::InvalidLayout)));
}

#[test]
fn create_rejects_window_that_would_overflow() {
    assert_eq!(AddressSpace::create(32, usize::MAX, 2).err(), Some(MemoryError::InvalidLayout));
}

#[test]
fn create_accepts_window_ending_at_the_end() {
    let space = AddressSpace::create(32, 16, 16).unwrap();
    assert_eq!(space.size(), 32);
    assert_eq!(space.vram_base(), 16);
    assert_eq!(space.vram_size(), 16);
    assert_eq!(space.copy_bytes(), vec![0u8; 32]);
}

#[test]
fn empty_space_with_empty_window() {
    let space = AddressSpace::create(0, 0, 0).unwrap();
    assert_eq!(space.size(), 0);
    assert_eq!(space.read_byte(0), Err(MemoryError::OutOfBounds));
}

#[test]
fn read_and_write_bounds() {
    let mut space = AddressSpace::create(8, 0, 4).unwrap();
    assert_eq!(space.write_byte(7, 0xAB), Ok(()));
    assert_eq!(space.read_byte(7), Ok(0xAB));
    assert_eq!(space.read_byte(6), Ok(0));
    assert_eq!(space.write_byte(8, 1), Err(MemoryError::OutOfBounds));
    assert_eq!(space.read_byte(8), Err(MemoryError::OutOfBounds));
    assert_eq!(space.size(), 8);
}

#[test]
fn written_byte_is_seen_by_later_reader() {
    let memory = PhysicalMemory::create(32, 16, 16).unwrap();
    let mut writer = memory.acquire_write().unwrap();
    assert_eq!(writer.write_byte(5, 0x7F), Ok(()));
    assert_eq!(writer.read_byte(5), Ok(0x7F));
    assert_eq!(writer.write_byte(32, 1), Err(MemoryError::OutOfBounds));
    writer.release();
    let reader = memory.acquire_read().unwrap();
    assert_eq!(reader.read_byte(5), Ok(0x7F));
    assert_eq!(reader.read_byte(4), Ok(0));
    assert_eq!(reader.read_byte(32), Err(MemoryError::OutOfBounds));
    assert_eq!(reader.size(), 32);
    reader.release();
}

#[test]
fn several_readers_hold_the_memory_at_once() {
    let memory = filled_memory();
    let a = memory.acquire_read().unwrap();
    let b = memory.acquire_read().unwrap();
    let c = memory.acquire_read().unwrap();
    readers_agree(&a, &b, &memory);
    assert_eq!(a.copy_bytes(), b.copy_bytes());
    assert_eq!(c.read_byte(0), Ok(0x41));
    a.release();
    b.release();
    c.release();
    let w = memory.acquire_write().unwrap();
    assert_eq!(w.size(), 32);
    w.release();
}

#[test]
fn abandoned_write_poisons_the_memory() {
    let memory = PhysicalMemory::create(16, 0, 8).unwrap();
    let mut writer = memory.acquire_write().unwrap();
    writer.write_byte(0, 9).unwrap();
    writer.abandon();
    assert!(matches!(memory.acquire_read(), Err(MemoryError::LockPoisoned)));
    assert!(matches!(memory.acquire_write(), Err(MemoryError::LockPoisoned)));
    assert!(matches!(snapshot_rows(&memory, ROW_WIDTH), Err(MemoryError::LockPoisoned)));
    assert!(matches!(memory.acquire_read(), Err(MemoryError::LockPoisoned)));
}

#[test]
fn memory_reports_its_layout() {
    let memory = PhysicalMemory::create(64, 32, 16).unwrap();
    assert_eq!(memory.size(), 64);
    assert_eq!(memory.vram_base(), 32);
    assert_eq!(memory.vram_size(), 16);
}

#[test]
fn snapshot_of_two_full_rows() {
    let memory = filled_memory();
    let rows = snapshot_rows(&memory, ROW_WIDTH).unwrap();
    assert_eq!(rows.len(), 2);
    assert_eq!(rows[0].offset, 0);
    assert_eq!(rows[0].bytes, (0x41u8..=0x50).collect::<Vec<u8>>());
    assert_eq!(rows[0].text, "ABCDEFGHIJKLMNOP");
    assert_eq!(rows[1].offset, 16);
    assert_eq!(rows[1].bytes, (0x51u8..=0x60).collect::<Vec<u8>>());
    assert_eq!(rows[1].text, "QRSTUVWXYZ[\\]^_`");
    // the guard is given up: a writer can come in
    let w = memory.acquire_write().unwrap();
    w.release();
}

#[test]
fn last_row_is_short() {
    let bytes: Vec<u8> = (0u8..20).collect();
    let rows = rows_of_bytes(&bytes, 16);
    assert_eq!(rows.len(), 2);
    assert_eq!(rows[1].offset, 16);
    assert_eq!(rows[1].bytes, vec![16, 17, 18, 19]);
    assert_eq!(rows[1].text, "....");
}

#[test]
fn no_rows_for_empty_memory() {
    let rows = rows_of_bytes(&Vec::new(), 16);
    assert!(rows.is_empty());
    let memory = PhysicalMemory::create(0, 0, 0).unwrap();
    assert!(snapshot_rows(&memory, ROW_WIDTH).unwrap().is_empty());
}

#[test]
fn narrow_rows() {
    let bytes = vec![b'h', b'i', 0x0A, b'!', 0xFF];
    let rows = rows_of_bytes(&bytes, 2);
    assert_eq!(rows.len(), 3);
    assert_eq!(rows[0].text, "hi");
    assert_eq!(rows[1].offset, 2);
    assert_eq!(rows[1].text, ".!");
    assert_eq!(rows[2].offset, 4);
    assert_eq!(rows[2].text, ".");
}

#[test]
fn decoding_of_single_bytes() {
    assert_eq!(decode_byte(b'A'), b'A');
    assert_eq!(decode_byte(b' '), b' ');
    assert_eq!(decode_byte(b'~'), b'~');
    assert_eq!(decode_byte(0x00), b'.');
    assert_eq!(decode_byte(0x1F), b'.');
    assert_eq!(decode_byte(0x7F), b'.');
    assert_eq!(decode_byte(0x80), b'.');
    assert_eq!(decode_byte(0xFF), b'.');
}

#[test]
fn goto_past_end_is_invalid() {
    assert_eq!(goto(32, 40, ROW_WIDTH), Err(MemoryError::InvalidAddress));
    assert_eq!(goto(32, 32, ROW_WIDTH), Err(MemoryError::InvalidAddress));
}

#[test]
fn goto_finds_the_row() {
    assert_eq!(goto(32, 0, ROW_WIDTH), Ok(0));
    assert_eq!(goto(32, 15, ROW_WIDTH), Ok(0));
    assert_eq!(goto(32, 17, ROW_WIDTH), Ok(1));
    assert_eq!(goto(32, 31, ROW_WIDTH), Ok(1));
}

#[test]
fn video_window_is_read_under_the_guard() {
    let memory = filled_memory();
    let reader = memory.acquire_read().unwrap();
    assert_eq!(reader.copy_vram(), (0x51u8..=0x60).collect::<Vec<u8>>());
    reader.release();
    let mut space = AddressSpace::create(8, 2, 3).unwrap();
    space.write_byte(2, 7).unwrap();
    space.write_byte(4, 9).unwrap();
    space.write_byte(5, 1).unwrap();
    assert_eq!(space.copy_vram(), vec![7, 0, 9]);
    let empty = AddressSpace::create(8, 8, 0).unwrap();
    assert!(empty.copy_vram().is_empty());
}

#[test]
fn goto_row_shows_the_byte() {
    let memory = filled_memory();
    let rows = snapshot_rows(&memory, ROW_WIDTH).unwrap();
    for address in [0usize, 15, 16, 21, 31] {
        let row = goto(memory.size(), address, ROW_WIDTH).unwrap();
        assert!(rows[row].offset <= address);
        assert_eq!(rows[row].bytes[address % ROW_WIDTH], 0x41 + address as u8);
    }
}
