use neetan_dos::commands::format::{floppy_boot_sector, floppy_bpb_params, hdd_boot_sector, hdd_bpb_params};
use neetan_dos::dos_services::{
    buffered_input_key, buffered_input_start, dpb_from_bpb, expand_key, lookup_fnkey_sequence,
    read_bpb, BpbFields, BufferedInput,
};
use neetan_dos::memory::{MemoryAccess, SparseMemory};

fn fn_key_map() -> Vec<u8> {
    let mut map = vec![0u8; 386];
    map[0] = 0xFE;
    map[1] = b' ';
    map[2] = b'C';
    map[16 * 9..16 * 9 + 15].copy_from_slice(b"ABCDEFGHIJKLMNO");
    map[320 + 4 * 6] = 0x0B;
    map
}

#[test]
fn function_key_sequences() {
    let map = fn_key_map();
    assert_eq!(lookup_fnkey_sequence(&map, 0x62), Some(vec![0xFE, b' ', b'C']));
    assert_eq!(lookup_fnkey_sequence(&map, 0x6B), Some(b"ABCDEFGHIJKLMNO".to_vec()));
    assert_eq!(lookup_fnkey_sequence(&map, 0x3A), Some(vec![0x0B]));
    assert_eq!(lookup_fnkey_sequence(&map, 0x3B), Some(Vec::new()));
    assert_eq!(lookup_fnkey_sequence(&map, 0x10), None);
    assert_eq!(lookup_fnkey_sequence(&[], 0x62), Some(Vec::new()));
}

#[test]
fn key_expansion() {
    let map = fn_key_map();
    assert_eq!(expand_key(&map, 0x1E, b'a'), vec![b'a']);
    assert_eq!(expand_key(&map, 0x62, 0), vec![0xFE, b' ', b'C']);
    assert_eq!(expand_key(&map, 0x3B, 0), vec![0, 0x3B]);
    assert_eq!(expand_key(&map, 0x10, 0), vec![0, 0x10]);
}

#[test]
fn buffered_line_editing() {
    let mut memory = SparseMemory::new();
    memory.write_byte(0x500, 3);
    let line = buffered_input_start(&memory, 0x500).unwrap();
    assert_eq!(line, BufferedInput { buffer_addr: 0x500, max_chars: 3, current_pos: 0 });
    let (line, echo) = buffered_input_key(&mut memory, line, b'a');
    assert_eq!(echo, vec![b'a']);
    let line = line.unwrap();
    let (line, echo) = buffered_input_key(&mut memory, line, b'b');
    assert_eq!(echo, vec![b'b']);
    let line = line.unwrap();
    let (line, echo) = buffered_input_key(&mut memory, line, b'c');
    assert!(echo.is_empty());
    let line = line.unwrap();
    assert_eq!(line.current_pos, 2);
    let (line, echo) = buffered_input_key(&mut memory, line, 0x08);
    assert_eq!(echo, vec![0x08, b' ', 0x08]);
    let line = line.unwrap();
    let (line, echo) = buffered_input_key(&mut memory, line, 0x0D);
    assert!(line.is_none());
    assert_eq!(echo, b"\r\n".to_vec());
    assert_eq!(memory.read_byte(0x501), 1);
    assert_eq!(memory.read_byte(0x502), b'a');
    assert_eq!(memory.read_byte(0x503), 0x0D);
    memory.write_byte(0x600, 0);
    assert!(buffered_input_start(&memory, 0x600).is_none());
}

fn floppy_bpb() -> BpbFields {
    BpbFields {
        bytes_per_sector: 1024,
        sectors_per_cluster: 1,
        reserved_sectors: 1,
        num_fats: 2,
        root_entries: 192,
        total_sectors_16: 1232,
        media_descriptor: 0xFE,
        sectors_per_fat: 2,
        total_sectors_32: 0,
    }
}

#[test]
fn dpb_from_a_floppy_bpb() {
    let dpb = dpb_from_bpb(&floppy_bpb()).unwrap();
    assert_eq!(dpb.cluster_mask, 0);
    assert_eq!(dpb.cluster_shift, 0);
    assert_eq!(dpb.first_root_sector, 5);
    assert_eq!(dpb.first_data_sector, 11);
    assert_eq!(dpb.max_cluster, 1222);
    let mut hdd = floppy_bpb();
    hdd.sectors_per_cluster = 8;
    hdd.total_sectors_16 = 0;
    hdd.total_sectors_32 = 100_000;
    let dpb = dpb_from_bpb(&hdd).unwrap();
    assert_eq!(dpb.cluster_mask, 7);
    assert_eq!(dpb.cluster_shift, 3);
    assert_eq!(dpb.max_cluster as u32, (100_000u32 - 11) / 8 + 1);
}

#[test]
fn unusable_bpbs() {
    let mut b = floppy_bpb();
    b.sectors_per_cluster = 3;
    assert!(dpb_from_bpb(&b).is_none());
    let mut b = floppy_bpb();
    b.bytes_per_sector = 0;
    assert!(dpb_from_bpb(&b).is_none());
    let mut b = floppy_bpb();
    b.total_sectors_16 = 0;
    assert!(dpb_from_bpb(&b).is_none());
}

#[test]
fn bpb_from_memory() {
    let mut memory = SparseMemory::new();
    let base = 0x700;
    memory.write_word(base, 512);
    memory.write_byte(base + 2, 4);
    memory.write_word(base + 3, 1);
    memory.write_byte(base + 5, 2);
    memory.write_word(base + 6, 512);
    memory.write_word(base + 8, 0);
    memory.write_byte(base + 0x0A, 0xF8);
    memory.write_word(base + 0x0B, 40);
    memory.write_word(base + 0x15, 0x4567);
    memory.write_word(base + 0x17, 0x0123);
    let b = read_bpb(&memory, base);
    assert_eq!(b.bytes_per_sector, 512);
    assert_eq!(b.sectors_per_cluster, 4);
    assert_eq!(b.num_fats, 2);
    assert_eq!(b.media_descriptor, 0xF8);
    assert_eq!(b.sectors_per_fat, 40);
    assert_eq!(b.total_sectors_32, 0x0123_4567);
}

fn store(memory: &mut SparseMemory, base: u32, bytes: &[u8]) {
    for (i, b) in bytes.iter().enumerate() {
        memory.write_byte(base + i as u32, *b);
    }
}

#[test]
fn formatted_hdd_boot_sector_reads_back() {
    let bpb = hdd_bpb_params(512, 40960);
    let sector = hdd_boot_sector(512, 40960, &bpb, 17, 8, 17);
    let mut memory = SparseMemory::new();
    store(&mut memory, 0x2000, &sector);
    let b = read_bpb(&memory, 0x2000 + 11);
    assert_eq!(b.bytes_per_sector, 512);
    assert_eq!(b.sectors_per_cluster, bpb.sectors_per_cluster);
    assert_eq!(b.reserved_sectors, bpb.reserved_sectors);
    assert_eq!(b.num_fats, bpb.num_fats);
    assert_eq!(b.root_entries, bpb.root_entry_count);
    assert_eq!(b.total_sectors_16, 40960);
    assert_eq!(b.total_sectors_32, 0);
    assert_eq!(b.media_descriptor, bpb.media_descriptor);
    assert_eq!(b.sectors_per_fat, bpb.sectors_per_fat);

    let big = hdd_boot_sector(512, 100_000, &bpb, 17, 8, 17);
    store(&mut memory, 0x3000, &big);
    let b = read_bpb(&memory, 0x3000 + 11);
    assert_eq!(b.total_sectors_16, 0);
    assert_eq!(b.total_sectors_32, 100_000);
}

#[test]
fn formatted_floppy_boot_sector_reads_back() {
    let bpb = floppy_bpb_params(0x90);
    let sector = floppy_boot_sector(1024, 1232, &bpb, 8, 2);
    let mut memory = SparseMemory::new();
    store(&mut memory, 0x500, &sector);
    let b = read_bpb(&memory, 0x500 + 11);
    assert_eq!(b.bytes_per_sector, bpb.bytes_per_sector);
    assert_eq!(b.total_sectors_16, 1232);
    assert_eq!(b.total_sectors_32, 0);
    assert_eq!(b.sectors_per_fat, bpb.sectors_per_fat);
    assert!(dpb_from_bpb(&b).is_some());
}
