use neetan_dos::console::{vram_attr_addr, vram_char_addr, Console};
use neetan_dos::console_adapter::{fill_region, write_ank_at, write_jis, write_jis_char};
use neetan_dos::memory::{MemoryAccess, SparseMemory};
use neetan_dos::render::{
    append_ank_lossy_shift_jis, append_size_kb, display_width_for_prefix, right_align_bytes,
    shift_jis_codes, write_shift_jis,
};

fn cell(memory: &SparseMemory, row: u8, col: u8) -> (u8, u8) {
    let addr = vram_char_addr(row, col);
    (memory.read_byte(addr), memory.read_byte(addr + 1))
}

fn attr(memory: &SparseMemory, row: u8, col: u8) -> u16 {
    memory.read_word(vram_attr_addr(row, col))
}

#[test]
fn writes_half_and_full_width_characters() {
    let console = Console::new();
    let mut memory = SparseMemory::new();
    write_jis_char(&console, &mut memory, 3, 10, 0x41, 0xE1);
    assert_eq!(cell(&memory, 3, 10), (0x41, 0));
    assert_eq!(attr(&memory, 3, 10), 0xE1);
    write_jis_char(&console, &mut memory, 3, 20, 0x3042, 0x45);
    assert_eq!(cell(&memory, 3, 20), (0x10, 0x42));
    assert_eq!(cell(&memory, 3, 21), (0, 0));
    assert_eq!(attr(&memory, 3, 21), 0x45);
}

#[test]
fn runs_stop_at_the_right_edge() {
    let console = Console::new();
    let mut memory = SparseMemory::new();
    assert_eq!(write_jis(&console, &mut memory, 0, 76, &[0x41, 0x3042, 0x3044, 0x42], 1), 79);
    assert_eq!(cell(&memory, 0, 76), (0x41, 0));
    assert_eq!(cell(&memory, 0, 77), (0x10, 0x42));
    assert_eq!(cell(&memory, 0, 79), (0, 0));
    assert_eq!(write_ank_at(&console, &mut memory, 1, 78, b"XYZ", 1), 80);
    assert_eq!(cell(&memory, 1, 78), (b'X', 0));
    assert_eq!(cell(&memory, 1, 79), (b'Y', 0));
}

#[test]
fn fills_a_clipped_region() {
    let console = Console::new();
    let mut memory = SparseMemory::new();
    fill_region(&console, &mut memory, 23, 78, 5, 5, 0x2A, 7);
    assert_eq!(cell(&memory, 23, 78), (0x2A, 0));
    assert_eq!(cell(&memory, 24, 79), (0x2A, 0));
    assert_eq!(cell(&memory, 24, 77), (0, 0));
    assert_eq!(attr(&memory, 24, 79), 7);
}

#[test]
fn shift_jis_text_on_screen() {
    let text = [0x82, 0xA0, b'A', 0x01, 0x82];
    assert_eq!(shift_jis_codes(&text), vec![0x2422, 0x41, 0x3F, 0x82]);
    assert_eq!(display_width_for_prefix(&text, 100), 5);
    assert_eq!(display_width_for_prefix(&text, 1), 1);
    assert_eq!(display_width_for_prefix(&text, 3), 3);
    let mut ank = Vec::new();
    append_ank_lossy_shift_jis(&mut ank, &text);
    assert_eq!(ank, b"?A?\x82".to_vec());
    let console = Console::new();
    let mut memory = SparseMemory::new();
    assert_eq!(write_shift_jis(&console, &mut memory, 2, 0, &text, 1), 5);
    assert_eq!(cell(&memory, 2, 0), (0x04, 0x22));
    assert_eq!(cell(&memory, 2, 2), (b'A', 0));
}

#[test]
fn sizes_in_kb() {
    let mut out = Vec::new();
    append_size_kb(&mut out, 0);
    assert_eq!(out, b"1 KB".to_vec());
    let mut out = Vec::new();
    append_size_kb(&mut out, 1025);
    assert_eq!(out, b"2 KB".to_vec());
}

#[test]
fn right_aligned_text() {
    let console = Console::new();
    let mut memory = SparseMemory::new();
    right_align_bytes(&console, &mut memory, 0, b"END", 1);
    assert_eq!(cell(&memory, 0, 77), (b'E', 0));
    assert_eq!(cell(&memory, 0, 79), (b'D', 0));
}
