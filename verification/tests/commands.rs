use neetan_dos::commands::b3sum::{
    nibble_to_hex, print_digest, push_digest_hex, wildcard_display_prefix, DigestState,
    FileHashState,
};
use neetan_dos::commands::del::{consume_key, parse_switches};
use neetan_dos::commands::dir::{
    compare_entries, fcb_to_display_name, format_bare, format_decimal_with_commas,
    format_dos_date, format_standard, format_wide, parse_attr_filter, parse_sort_order,
    should_show_entry, sort_entries, AttrFilter, ReadDirEntry, SortOrder,
};
use neetan_dos::commands::dosmock::{error_message, parse_drive_arg};
use neetan_dos::commands::format::{
    fat_sectors_for, floppy_bpb_params, hdd_bpb_params, hdd_layout_solvable, solve_hdd_fat_layout,
    try_solve_hdd_fat_layout,
};
use neetan_dos::commands::mem::{
    bytes_to_kb_ceil, format_ems_line, format_largest_line, format_number, format_row,
    memory_report, MemoryArea, MemoryOverview,
};
use neetan_dos::commands::ren::{merge_wildcard_name, split_two_args};
use neetan_dos::commands::is_help_request;
use neetan_dos::memory::{MemoryAccess, SparseMemory};
use std::cmp::Ordering;

fn entry(name: &[u8; 11], attribute: u8, size: u32, date: u16, time: u16) -> ReadDirEntry {
    ReadDirEntry { name: *name, attribute, time, date, file_size: size }
}

#[test]
fn help_requests_are_recognized() {
    assert!(is_help_request(b"/?"));
    assert!(is_help_request(b"  foo /? bar "));
    assert!(is_help_request(b"a\t/?"));
    assert!(!is_help_request(b"/?x"));
    assert!(!is_help_request(b"x/?"));
    assert!(!is_help_request(b""));
    assert!(!is_help_request(b"/ ?"));
}

#[test]
fn dosmock_drive_arguments() {
    assert_eq!(parse_drive_arg(b"a:"), Some(0));
    assert_eq!(parse_drive_arg(b"C:\\"), Some(2));
    assert_eq!(parse_drive_arg(b"Z:/"), Some(25));
    assert_eq!(parse_drive_arg(b"C"), None);
    assert_eq!(parse_drive_arg(b"C:x"), None);
    assert_eq!(parse_drive_arg(b"1:"), None);
    assert_eq!(parse_drive_arg(b"C;"), None);
    assert_eq!(error_message(0x0005), "Target drive is not writable\r\n");
    assert_eq!(error_message(0x0050), "DOS mock files already exist\r\n");
    assert_eq!(error_message(0x001F), "Unable to create DOS mock files\r\n");
    assert_eq!(error_message(0x0002), "Unable to access target drive\r\n");
}

#[test]
fn md_and_rd_error_messages() {
    assert_eq!(neetan_dos::commands::md::error_message(0x0005), "Access denied\r\n");
    assert_eq!(neetan_dos::commands::md::error_message(0x000F), "Invalid drive\r\n");
    assert_eq!(neetan_dos::commands::md::error_message(0x0003), "Unable to create directory\r\n");
    assert_eq!(neetan_dos::commands::rd::error_message(0x0003), "Invalid path\r\n");
    assert_eq!(neetan_dos::commands::rd::error_message(0x0012), "Directory not empty\r\n");
    assert_eq!(neetan_dos::commands::rd::error_message(0x0099), "Disk error\r\n");
}

#[test]
fn ren_splits_two_arguments() {
    let (a, b) = split_two_args(b"  OLD.TXT   NEW.TXT  extra").unwrap();
    assert_eq!(a, b"OLD.TXT");
    assert_eq!(b, b"NEW.TXT");
    assert!(split_two_args(b"ONLY.TXT").is_none());
    assert!(split_two_args(b"ONLY.TXT   ").is_none());
    let (a, b) = split_two_args(b"A\tB").unwrap();
    assert_eq!((a, b), (&b"A"[..], &b"B"[..]));
}

#[test]
fn ren_merges_wildcards() {
    assert_eq!(&merge_wildcard_name(b"README  TXT", b"????????BAK"), b"README  BAK");
    assert_eq!(&merge_wildcard_name(b"README  TXT", b"NEW     ???"), b"NEW     TXT");
}

#[test]
fn del_parses_prompt_switch() {
    assert_eq!(parse_switches(b"*.TXT /P"), (&b"*.TXT"[..], true));
    assert_eq!(parse_switches(b"/p  *.BAK "), (&b"*.BAK"[..], true));
    assert_eq!(parse_switches(b"FILE.TXT"), (&b"FILE.TXT"[..], false));
    assert_eq!(parse_switches(b"/P"), (&b""[..], true));
    assert_eq!(parse_switches(b"A/X"), (&b"A/X"[..], false));
}

#[test]
fn del_consumes_one_key() {
    let mut memory = SparseMemory::new();
    memory.write_word(0x0524, 0x0510);
    memory.write_byte(0x0510, b'y');
    memory.write_byte(0x0528, 2);
    assert_eq!(consume_key(&mut memory), b'y');
    assert_eq!(memory.read_word(0x0524), 0x0512);
    assert_eq!(memory.read_byte(0x0528), 1);
    memory.write_word(0x0524, 0x0520);
    consume_key(&mut memory);
    assert_eq!(memory.read_word(0x0524), 0x0502);
    assert_eq!(memory.read_byte(0x0528), 0);
    consume_key(&mut memory);
    assert_eq!(memory.read_byte(0x0528), 0);
}

#[test]
fn mem_numbers_and_rows() {
    assert_eq!(format_number(0), "0");
    assert_eq!(format_number(999), "999");
    assert_eq!(format_number(1000), "1,000");
    assert_eq!(format_number(655360), "655,360");
    assert_eq!(format_number(4294967295), "4,294,967,295");
    assert_eq!(bytes_to_kb_ceil(0), 0);
    assert_eq!(bytes_to_kb_ceil(1), 1);
    assert_eq!(bytes_to_kb_ceil(1024), 1);
    assert_eq!(bytes_to_kb_ceil(1025), 2);
    assert_eq!(bytes_to_kb_ceil(u32::MAX), 4194304);
    assert_eq!(
        format_row("Conventional", 640, 58, 582),
        format!("{:<17}  {:>7}K    {:>7}K    {:>7}K", "Conventional", "640", "58", "582")
    );
    assert_eq!(
        format_ems_line("Total Expanded (EMS)", 1024, 1048576),
        format!("{:<20}  {:>7}K ({:>10} bytes)", "Total Expanded (EMS)", "1,024", "1,048,576")
    );
    assert_eq!(
        format_largest_line("Largest executable program size", 600, 614400),
        format!("{}  {:>7}K ({:>10} bytes)", "Largest executable program size", "600", "614,400")
    );
}

#[test]
fn mem_report_lists_present_areas() {
    let overview = MemoryOverview {
        conventional: MemoryArea { total_bytes: 655360, used_bytes: 59392, free_bytes: 595968 },
        umb: MemoryArea { total_bytes: 0, used_bytes: 0, free_bytes: 0 },
        xms: MemoryArea { total_bytes: 1048576, used_bytes: 65536, free_bytes: 983040 },
        largest_conventional_free_bytes: 595968,
        largest_umb_free_bytes: 0,
    };
    let lines = memory_report(&overview, None, true);
    assert_eq!(lines[0], "");
    assert_eq!(lines[1], "Memory Type          Total  =     Used  +     Free");
    assert_eq!(lines[3], format_row("Conventional", 640, 58, 582));
    assert_eq!(lines[4], format_row("Extended (XMS)", 1024, 64, 960));
    assert_eq!(lines[6], format_row("Total memory", 1664, 122, 1542));
    assert_eq!(lines[8], format_row("Total under 1 MB", 640, 58, 582));
    assert_eq!(lines[10], format_largest_line("Largest executable program size", 582, 595968));
    assert_eq!(lines[11], "MS-DOS is resident in the high memory area.");
    assert_eq!(lines.len(), 13);
    let with_ems = memory_report(&overview, Some((2048, 1024)), false);
    assert_eq!(with_ems[10], format_ems_line("Total Expanded (EMS)", 2048, 2097152));
    assert_eq!(with_ems[11], format_ems_line("Free Expanded (EMS)", 1024, 1048576));
    assert_eq!(with_ems.len(), 15);
}

#[test]
fn floppy_parameters() {
    let p = floppy_bpb_params(0x90);
    assert_eq!((p.bytes_per_sector, p.sectors_per_cluster, p.root_entry_count), (1024, 1, 192));
    assert_eq!((p.sectors_per_fat, p.media_descriptor, p.is_fat16), (2, 0xFE, false));
    let p = floppy_bpb_params(0x70);
    assert_eq!((p.bytes_per_sector, p.sectors_per_cluster, p.root_entry_count), (512, 2, 112));
    assert_eq!(p.sectors_per_fat, 3);
}

#[test]
fn fat_sector_counts() {
    // FAT12: (100 + 2) * 1.5 = 153 bytes -> 1 sector of 512.
    assert_eq!(fat_sectors_for(100, 512, false), 1);
    // FAT12: (1000 + 2) * 3 / 2 = 1503 bytes -> 3 sectors.
    assert_eq!(fat_sectors_for(1000, 512, false), 3);
    // FAT16: (10000 + 2) * 2 = 20004 bytes -> 40 sectors.
    assert_eq!(fat_sectors_for(10000, 512, true), 40);
}

#[test]
fn hdd_layout_for_a_20_megabyte_partition() {
    // 40960 sectors of 512 bytes: 4-sector clusters, FAT16.
    let (clusters12, spf12) = solve_hdd_fat_layout(40960, 512, 4, 1, 2, 512, false);
    assert_eq!((clusters12, spf12), (10216, 30));
    let p = hdd_bpb_params(512, 40960);
    assert_eq!(p.sectors_per_cluster, 4);
    assert!(p.is_fat16);
    assert_eq!(p.sectors_per_fat, 40);
    assert_eq!(p.media_descriptor, 0xF8);
    assert_eq!(p.root_entry_count, 512);
}

#[test]
fn hdd_layout_small_partition_stays_fat12() {
    // 8000 sectors of 512 bytes.
    let p = hdd_bpb_params(512, 8000);
    assert!(!p.is_fat16);
    assert_eq!(p.sectors_per_cluster, 4);
    assert_eq!(p.sectors_per_fat, 6);
}

#[test]
fn b3sum_hex_and_lines() {
    assert_eq!(nibble_to_hex(0), b'0');
    assert_eq!(nibble_to_hex(9), b'9');
    assert_eq!(nibble_to_hex(10), b'a');
    assert_eq!(nibble_to_hex(15), b'f');
    let mut digest = [0u8; 32];
    digest[0] = 0xAB;
    digest[31] = 0x01;
    let mut out = Vec::new();
    push_digest_hex(&mut out, &digest);
    assert_eq!(out.len(), 64);
    assert_eq!(&out[..2], b"ab");
    assert_eq!(&out[62..], b"01");
}

#[test]
fn b3sum_digest_of_abc() {
    let mut state = DigestState::new();
    state.update(b"ab");
    state.update(b"c");
    let line = print_digest(&state, b"A:\\ABC.TXT");
    assert_eq!(
        line,
        b"6437b3ac38465133ffb63b75273a8db548c558465d79db03fd359c6cd5bd9d85  A:\\ABC.TXT\r\n"
            .to_vec()
    );
}

#[test]
fn b3sum_file_hash_ends_on_empty_chunk() {
    let mut file = FileHashState { hash: DigestState::new(), display_path: b"X".to_vec() };
    assert!(file.absorb_chunk(b"abc").is_none());
    let line = file.absorb_chunk(b"").unwrap();
    assert!(line.starts_with(b"6437b3ac"));
    assert!(line.ends_with(b"  X\r\n"));
}

#[test]
fn b3sum_empty_input_digest() {
    let state = DigestState::new();
    let line = print_digest(&state, b"E");
    assert!(line.starts_with(b"af1349b9f5f9a1a6a0404dea36dcc9499bcb25c9adc112b7cc9a93cae41f3262"));
}

#[test]
fn b3sum_wildcard_prefixes() {
    assert_eq!(wildcard_display_prefix(b"A:\\DIR\\*.TXT"), b"A:\\DIR\\".to_vec());
    assert_eq!(wildcard_display_prefix(b"A:*.TXT"), b"A:".to_vec());
    assert_eq!(wildcard_display_prefix(b"*.TXT"), Vec::<u8>::new());
}

#[test]
fn dir_filters_entries() {
    let filter = AttrFilter::default();
    assert!(should_show_entry(&entry(b"FILE    TXT", 0x20, 1, 0, 0), &filter));
    assert!(!should_show_entry(&entry(b"HIDDEN  TXT", 0x02, 1, 0, 0), &filter));
    assert!(!should_show_entry(&entry(b"SYSTEM  SYS", 0x04, 1, 0, 0), &filter));
    assert!(!should_show_entry(&entry(b"LABEL      ", 0x08, 0, 0, 0), &filter));
    assert!(should_show_entry(&entry(b"SUBDIR     ", 0x10, 0, 0, 0), &filter));
    let all = parse_attr_filter(b"");
    assert!(should_show_entry(&entry(b"HIDDEN  TXT", 0x02, 1, 0, 0), &all));
    assert!(!should_show_entry(&entry(b"LABEL      ", 0x08, 0, 0, 0), &all));
    let dirs = parse_attr_filter(b"d");
    assert!(dirs.dirs_only && !dirs.show_hidden);
    assert!(!should_show_entry(&entry(b"FILE    TXT", 0x20, 1, 0, 0), &dirs));
    let hs = parse_attr_filter(b"HS");
    assert!(hs.show_hidden && hs.show_system && !hs.dirs_only);
}

#[test]
fn dir_sort_orders_parse() {
    assert_eq!(parse_sort_order(b""), SortOrder::Name);
    assert_eq!(parse_sort_order(b"n"), SortOrder::Name);
    assert_eq!(parse_sort_order(b"S"), SortOrder::Size);
    assert_eq!(parse_sort_order(b"S-"), SortOrder::SizeDesc);
    assert_eq!(parse_sort_order(b"-D"), SortOrder::DateDesc);
    assert_eq!(parse_sort_order(b"-"), SortOrder::Name);
    assert_eq!(parse_sort_order(b"-Q"), SortOrder::Name);
    assert_eq!(parse_sort_order(b"E"), SortOrder::Extension);
    assert_eq!(parse_sort_order(b"X"), SortOrder::Name);
}

#[test]
fn dir_sorts_directories_first_then_by_key() {
    let mut entries = vec![
        entry(b"ZETA    TXT", 0x20, 300, 0x5000, 0),
        entry(b"ALPHA   BAT", 0x20, 100, 0x5200, 0),
        entry(b"SUB        ", 0x10, 0, 0x5100, 0),
        entry(b"BETA    COM", 0x20, 200, 0x4F00, 0),
    ];
    sort_entries(&mut entries, SortOrder::Name);
    let names: Vec<&[u8]> = entries.iter().map(|e| &e.name[..]).collect();
    assert_eq!(names, vec![&b"SUB        "[..], b"ALPHA   BAT", b"BETA    COM", b"ZETA    TXT"]);
    sort_entries(&mut entries, SortOrder::SizeDesc);
    let sizes: Vec<u32> = entries.iter().map(|e| e.file_size).collect();
    assert_eq!(sizes, vec![0, 300, 200, 100]);
    sort_entries(&mut entries, SortOrder::Extension);
    let names: Vec<&[u8]> = entries.iter().map(|e| &e.name[..]).collect();
    assert_eq!(names, vec![&b"SUB        "[..], b"ALPHA   BAT", b"BETA    COM", b"ZETA    TXT"]);
    sort_entries(&mut entries, SortOrder::Date);
    let dates: Vec<u16> = entries.iter().map(|e| e.date).collect();
    assert_eq!(dates, vec![0x5100, 0x4F00, 0x5000, 0x5200]);
    assert_eq!(
        compare_entries(&entries[0], &entries[1], SortOrder::Name),
        Ordering::Less
    );
}

#[test]
fn dir_formats_entries() {
    let file = entry(b"README  TXT", 0x20, 1234567, (45 << 9) | (3 << 5) | 7, (13 << 11) | (5 << 5));
    assert_eq!(format_standard(&file), b"README   TXT 1,234,567 2025-03-07  13:05".to_vec());
    let dir = entry(b"GAMES      ", 0x10, 0, (44 << 9) | (12 << 5) | 31, 9 << 11);
    assert_eq!(format_standard(&dir), b"GAMES            <DIR>   2024-12-31  09:00".to_vec());
    assert_eq!(format_bare(&file), b"README.TXT".to_vec());
    assert_eq!(format_bare(&dir), b"GAMES".to_vec());
    assert_eq!(fcb_to_display_name(b"A       B  "), b"A.B".to_vec());
    let mut col = 3u8;
    let (cell, end) = format_wide(&dir, &mut col);
    assert_eq!(cell, b"[GAMES]        ".to_vec());
    assert!(!end);
    assert_eq!(col, 4);
    let (cell, end) = format_wide(&file, &mut col);
    assert_eq!(cell, b"README.TXT     ".to_vec());
    assert!(end);
    assert_eq!(col, 0);
    assert_eq!(format_decimal_with_commas(0), "0");
    assert_eq!(format_decimal_with_commas(1000000), "1,000,000");
    assert_eq!(format_dos_date(0), "1980-00-00");
}

#[test]
fn bounded_fat_solver_agrees_with_the_loop() {
    assert_eq!(try_solve_hdd_fat_layout(40960, 512, 4, 1, 2, 512, false), Some((10216, 30)));
    assert_eq!(
        try_solve_hdd_fat_layout(40960, 512, 4, 1, 2, 512, true),
        Some(solve_hdd_fat_layout(40960, 512, 4, 1, 2, 512, true))
    );
    assert_eq!(try_solve_hdd_fat_layout(0, 512, 4, 1, 2, 512, false), Some((0, 1)));
}

#[test]
fn hdd_layouts_of_real_partitions_are_solvable() {
    assert!(hdd_layout_solvable(512, 40960));
    assert!(hdd_layout_solvable(512, 8000));
    assert!(hdd_layout_solvable(256, 80000));
}
