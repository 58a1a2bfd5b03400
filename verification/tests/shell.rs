use neetan_dos::commands::copy::{
    concat_dest_name, concat_plan, concat_source_check, concat_sources_check, copy_arguments, parse_arg, ArgKind, CopyRequest,
};
use neetan_dos::commands::date::date_line;
use neetan_dos::commands::dir::{dir_options, ReadDirEntry, SortOrder};
use neetan_dos::commands::echo::{echo_output, EchoOutput};
use neetan_dos::commands::format::{
    fat_sectors_image, floppy_bpb_params, format_arguments, format_summary, format_warning,
    partition_table_sector,
};
use neetan_dos::commands::more::{more_page, more_step, MoreState};
use neetan_dos::commands::time::time_line;
use neetan_dos::commands::ver::version_line;
use neetan_dos::commands::xcopy::{destination_file_attributes, is_dot_directory, xcopy_arguments};
use neetan_dos::commands::diskcopy::{
    diskcopy_drives, diskcopy_job, DiskcopyDrives, DiskcopyPhase, DiskcopyReply, DiskcopyRequest,
};
use neetan_dos::commands::{parse_words, split_words};
use neetan_dos::memory::{MemoryAccess, SparseMemory};

fn entry(name: &[u8; 11], attribute: u8) -> ReadDirEntry {
    ReadDirEntry { name: *name, attribute, time: 0, date: 0, file_size: 0 }
}

#[test]
fn parse_words_splits_switches_from_words() {
    let (words, letters) = parse_words(b"a.txt /v\tb.txt /y");
    assert_eq!(words, vec![b"a.txt".to_vec(), b"b.txt".to_vec()]);
    assert_eq!(letters, b"VY".to_vec());
}

#[test]
fn split_words_drops_empty_pieces() {
    assert_eq!(split_words(b"  a \t bc "), vec![b"a".to_vec(), b"bc".to_vec()]);
    assert!(split_words(b"   ").is_empty());
}

#[test]
fn copy_pair_with_switches() {
    match copy_arguments(b" a.txt b.txt /v ") {
        Ok(CopyRequest::Pair { source, dest, verify, overwrite_all }) => {
            assert_eq!(source, ArgKind::Dos(b"a.txt".to_vec()));
            assert_eq!(dest, ArgKind::Dos(b"b.txt".to_vec()));
            assert!(verify);
            assert!(!overwrite_all);
        }
        other => panic!("unexpected {:?}", other),
    }
}

#[test]
fn copy_concatenation() {
    match copy_arguments(b"a + b c /y") {
        Ok(CopyRequest::Concat { sources, dest, verify, overwrite_all }) => {
            assert_eq!(sources, b"a+b".to_vec());
            assert_eq!(dest, b"c".to_vec());
            assert!(!verify);
            assert!(overwrite_all);
        }
        other => panic!("unexpected {:?}", other),
    }
}

#[test]
fn copy_errors() {
    assert_eq!(copy_arguments(b"   "), Err("Required parameter missing\r\n"));
    assert_eq!(copy_arguments(b"a.txt"), Err("Required parameter missing\r\n"));
    assert_eq!(
        copy_arguments(b"host:a host:b"),
        Err("Host-to-host copy is not supported\r\n")
    );
}

#[test]
fn copy_host_argument() {
    assert_eq!(parse_arg(b"HoSt:dir/f.txt"), ArgKind::Host(b"dir/f.txt".to_vec()));
    assert_eq!(parse_arg(b"hos"), ArgKind::Dos(b"hos".to_vec()));
}

#[test]
fn dir_options_defaults() {
    let o = dir_options(b"");
    assert!(!o.wide && !o.bare && !o.paged && !o.recursive);
    assert_eq!(o.sort_order, SortOrder::Unsorted);
    assert_eq!(o.path, b"*.*".to_vec());
    assert!(o.has_wildcard);
}

#[test]
fn dir_options_switches_and_path() {
    let o = dir_options(b"/w /s sub\\file.txt other");
    assert!(o.wide);
    assert!(o.recursive);
    assert!(!o.bare);
    assert_eq!(o.path, b"sub\\file.txt".to_vec());
    assert!(!o.has_wildcard);
    let o = dir_options(b"/o");
    assert_eq!(o.sort_order, SortOrder::Name);
}

#[test]
fn format_command_line() {
    assert_eq!(format_arguments(b"a: /q"), Ok((0, true, false)));
    assert_eq!(format_arguments(b"/V c:"), Ok((2, false, true)));
    assert_eq!(format_arguments(b""), Err("Required parameter missing\r\n"));
    assert_eq!(format_arguments(b"/q"), Err("Required parameter missing\r\n"));
    assert_eq!(format_arguments(b"foo"), Err("Invalid drive specification\r\n"));
}

#[test]
fn format_warning_names_the_drive() {
    assert_eq!(
        format_warning(2),
        "\r\nWARNING, ALL DATA ON DRIVE C: WILL BE LOST!\r\nProceed with Format (Y/N)?"
    );
}

#[test]
fn partition_sector_layout() {
    let sector = partition_table_sector(512, 1000, 8, 17);
    assert_eq!(sector.len(), 512);
    assert_eq!(&sector[..16], &[0x21, 0x81, 0, 0, 0, 0, 0, 0, 0, 1, 0, 0, 13, 2, 7, 0]);
    assert_eq!(&sector[16..32], b"NEETAN          ");
    assert!(sector[32..].iter().all(|&b| b == 0));
}

#[test]
fn fat_image_starts_with_media_byte() {
    let bpb = floppy_bpb_params(0x90);
    let fat = fat_sectors_image(&bpb, 1024);
    assert_eq!(fat.len(), 2048);
    assert_eq!(&fat[..4], &[0xFE, 0xFF, 0xFF, 0x00]);
    assert!(fat[3..].iter().all(|&b| b == 0));
}

#[test]
fn format_summary_for_a_floppy() {
    let bpb = floppy_bpb_params(0x90);
    assert_eq!(
        format_summary(1232, 1024, &bpb),
        "Format complete.\r\n\r\n       1261568 bytes total disk space\r\n       1250304 bytes available on disk\r\n"
    );
}

#[test]
fn more_stops_after_a_full_page() {
    let data = b"a\nb\nc";
    let page = more_page(data, 0, 22);
    assert_eq!(page.output, b"a\nb\n-- More --".to_vec());
    assert_eq!(page.resume_at, Some(4));
    let page = more_page(data, 0, 23);
    assert_eq!(page.output, b"a\n-- More --".to_vec());
    assert_eq!(page.resume_at, Some(2));
}

#[test]
fn more_runs_out_of_data() {
    let data = b"a\nb\nc";
    let page = more_page(data, 0, 0);
    assert_eq!(page.output, data.to_vec());
    assert_eq!(page.resume_at, None);
    let page = more_page(data, 5, 0);
    assert!(page.output.is_empty());
    assert_eq!(page.resume_at, None);
}

#[test]
fn more_counts_twenty_four_lines() {
    let data: Vec<u8> = b"x\n".repeat(30);
    let page = more_page(&data, 0, 0);
    assert_eq!(page.resume_at, Some(48));
    assert_eq!(&page.output[..48], &data[..48]);
}

#[test]
fn more_waits_for_a_key() {
    let data = b"a\nb\n";
    let step = more_step(data, MoreState::WaitKey { offset: 2 }, false);
    assert_eq!(step.next, MoreState::WaitKey { offset: 2 });
    assert!(step.output.is_empty());
    assert!(!step.take_key);
    let step = more_step(data, MoreState::WaitKey { offset: 2 }, true);
    assert_eq!(step.next, MoreState::Outputting { offset: 2, lines_shown: 0 });
    assert!(step.take_key);
    let mut erase = vec![b'\r'];
    erase.extend_from_slice(&[b' '; 40]);
    erase.push(b'\r');
    assert_eq!(step.output, erase);
}

#[test]
fn more_outputting_to_the_end_finishes() {
    let data = b"a\nb\n";
    let step = more_step(data, MoreState::Outputting { offset: 2, lines_shown: 0 }, false);
    assert_eq!(step.next, MoreState::Finished);
    assert_eq!(step.output, b"b\n".to_vec());
    let step = more_step(data, MoreState::Outputting { offset: 0, lines_shown: 23 }, false);
    assert_eq!(step.next, MoreState::WaitKey { offset: 2 });
    let step = more_step(data, MoreState::Finished, true);
    assert_eq!(step.next, MoreState::Finished);
    assert!(!step.take_key);
}

#[test]
fn date_line_format() {
    assert_eq!(date_line(2024, 3, 5, 2), b"Current date is Tue 03-05-2024\r\n".to_vec());
    assert_eq!(date_line(1999, 12, 31, 9), b"Current date is Sat 12-31-1999\r\n".to_vec());
}

#[test]
fn time_line_format() {
    assert_eq!(time_line(9, 5, 7), b"Current time is 09:05:07.00\r\n".to_vec());
    assert_eq!(time_line(23, 59, 0), b"Current time is 23:59:00.00\r\n".to_vec());
}

#[test]
fn version_line_format() {
    assert_eq!(version_line(6, 20), b"Neetan DOS 6.20\r\n\r\n".to_vec());
}

#[test]
fn echo_outputs() {
    assert_eq!(echo_output(b" /? "), EchoOutput::Help);
    assert_eq!(echo_output(b"hello"), EchoOutput::Text(b"hello\r\n".to_vec()));
    assert_eq!(echo_output(b""), EchoOutput::Text(b"\r\n".to_vec()));
}

#[test]
fn xcopy_command_line() {
    let o = xcopy_arguments(b" src\\*.* dst /s ").unwrap();
    assert_eq!(o.source, b"src\\*.*".to_vec());
    assert_eq!(o.dest, b"dst".to_vec());
    assert!(o.recursive);
    assert!(!o.copy_empty_dirs);
    assert!(!o.prompt_each);
    assert!(o.source_has_wildcard);
    let o = xcopy_arguments(b"/e /p a b").unwrap();
    assert!(o.recursive && o.copy_empty_dirs && o.prompt_each);
    assert!(!o.source_has_wildcard);
    assert_eq!(xcopy_arguments(b"a"), Err("Required parameter missing\r\n"));
    assert_eq!(xcopy_arguments(b""), Err("Required parameter missing\r\n"));
}

#[test]
fn xcopy_entry_helpers() {
    let e = entry(b"FOO     TXT", 0x31);
    assert_eq!(destination_file_attributes(&e, false), 0x21);
    assert_eq!(destination_file_attributes(&e, true), 0x20);
    assert!(is_dot_directory(&entry(b"..         ", 0x10)));
    assert!(is_dot_directory(&entry(b".          ", 0x10)));
    assert!(is_dot_directory(&entry(b"           ", 0x10)));
    assert!(!is_dot_directory(&e));
}

const DAUA_TABLE: u32 = 0x1000;

fn daua_memory() -> SparseMemory {
    let mut memory = SparseMemory::new();
    memory.write_byte(DAUA_TABLE, 0x90);
    memory.write_byte(DAUA_TABLE + 1, 0x91);
    memory.write_byte(DAUA_TABLE + 2, 0x80);
    memory
}

#[test]
fn diskcopy_command_line() {
    let memory = daua_memory();
    assert_eq!(
        diskcopy_drives(&memory, DAUA_TABLE, b"a: b: /v"),
        Ok(DiskcopyDrives {
            src_drive_index: 0,
            src_da_ua: 0x90,
            dst_drive_index: 1,
            dst_da_ua: 0x91,
            verify: true,
        })
    );
    assert_eq!(
        diskcopy_drives(&memory, DAUA_TABLE, b"B:"),
        Ok(DiskcopyDrives {
            src_drive_index: 1,
            src_da_ua: 0x91,
            dst_drive_index: 1,
            dst_da_ua: 0x91,
            verify: false,
        })
    );
    assert_eq!(diskcopy_drives(&memory, DAUA_TABLE, b" "), Err("Required parameter missing\r\n"));
    assert_eq!(diskcopy_drives(&memory, DAUA_TABLE, b"/v"), Err("Required parameter missing\r\n"));
    assert_eq!(diskcopy_drives(&memory, DAUA_TABLE, b"c:"), Err("Invalid drive specification\r\n"));
    assert_eq!(diskcopy_drives(&memory, DAUA_TABLE, b"a: d:"), Err("Invalid drive specification\r\n"));
    assert_eq!(diskcopy_drives(&memory, DAUA_TABLE, b"x"), Err("Invalid drive specification\r\n"));
}

fn two_drives(verify: bool) -> DiskcopyDrives {
    DiskcopyDrives { src_drive_index: 0, src_da_ua: 0x90, dst_drive_index: 1, dst_da_ua: 0x91, verify }
}

#[test]
fn diskcopy_geometry_checks() {
    let g = Some((2u16, 1u8, 2u8));
    assert!(diskcopy_job(two_drives(false), None, Some(4), g, Some(4)).is_err());
    assert_eq!(
        diskcopy_job(two_drives(false), g, Some(4), Some((3, 1, 2)), Some(4)).err(),
        Some("Drive types or diskette types not compatible\r\n")
    );
    assert_eq!(
        diskcopy_job(two_drives(false), g, Some(4), g, None).err(),
        Some("Invalid drive specification\r\n")
    );
    let job = diskcopy_job(two_drives(false), g, Some(4), g, Some(4)).unwrap();
    assert_eq!(job.total_tracks, 2);
    assert!(!job.same_drive);
}

#[test]
fn diskcopy_two_drive_run() {
    let g = Some((2u16, 1u8, 2u8));
    let mut job = diskcopy_job(two_drives(true), g, Some(4), g, Some(4)).unwrap();
    assert_eq!(job.start(), b"\r\nReading from source disk . . .\r\n".to_vec());
    assert_eq!(job.request(), DiskcopyRequest::Read { da_ua: 0x90, lba: 0, count: 2 });
    job.advance(DiskcopyReply::Data(Some(vec![1; 8])));
    assert_eq!(job.request(), DiskcopyRequest::Read { da_ua: 0x90, lba: 2, count: 2 });
    job.advance(DiskcopyReply::Data(Some(vec![2; 8])));
    assert_eq!(job.request(), DiskcopyRequest::Proceed);
    let step = job.advance(DiskcopyReply::Proceed);
    assert_eq!(step.output, b"\r\nWriting to destination disk . . .\r\n".to_vec());
    assert_eq!(job.request(), DiskcopyRequest::Write { da_ua: 0x91, lba: 0, start: 0, len: 8 });
    job.advance(DiskcopyReply::Written(true));
    assert_eq!(job.request(), DiskcopyRequest::Write { da_ua: 0x91, lba: 2, start: 8, len: 8 });
    job.advance(DiskcopyReply::Written(true));
    let step = job.advance(DiskcopyReply::Proceed);
    assert_eq!(step.output, b"\r\nVerifying . . .\r\n".to_vec());
    job.advance(DiskcopyReply::Data(Some(vec![1; 8])));
    assert_eq!(job.phase, DiskcopyPhase::VerifyTracks);
    let step = job.advance(DiskcopyReply::Data(Some(vec![2, 2, 2, 2, 2, 2, 2, 9])));
    assert_eq!(step.output, b"Verify error\r\n".to_vec());
    assert_eq!(job.request(), DiskcopyRequest::Finished(1));
}

#[test]
fn diskcopy_one_drive_prompts() {
    let g = Some((1u16, 1u8, 1u8));
    let one = DiskcopyDrives { src_drive_index: 1, src_da_ua: 0x91, dst_drive_index: 1, dst_da_ua: 0x91, verify: false };
    let mut job = diskcopy_job(one, g, Some(2), None, None).unwrap();
    assert_eq!(
        job.start(),
        b"Insert SOURCE diskette in drive B:\r\nPress any key to continue . . .".to_vec()
    );
    let step = job.advance(DiskcopyReply::NoKey);
    assert!(step.output.is_empty() && !step.take_key);
    let step = job.advance(DiskcopyReply::Key(b' '));
    assert!(step.take_key);
    assert_eq!(step.output, b"\r\n\r\nReading from source disk . . .\r\n".to_vec());
    job.advance(DiskcopyReply::Data(Some(vec![7, 7])));
    let step = job.advance(DiskcopyReply::Proceed);
    assert_eq!(
        step.output,
        b"\r\nInsert DESTINATION diskette in drive B:\r\nPress any key to continue . . .".to_vec()
    );
    job.advance(DiskcopyReply::Key(b'x'));
    job.advance(DiskcopyReply::Written(true));
    job.advance(DiskcopyReply::Proceed);
    assert_eq!(job.phase, DiskcopyPhase::Summary);
    let step = job.advance(DiskcopyReply::Proceed);
    assert_eq!(step.output, b"\r\nCopy complete.\r\n\r\nCopy another diskette (Y/N)?".to_vec());
    assert_eq!(step.invalidate_drive, Some(1));
    let step = job.advance(DiskcopyReply::Key(b'y'));
    assert_eq!(
        step.output,
        b"\r\n\r\nInsert SOURCE diskette in drive B:\r\nPress any key to continue . . .".to_vec()
    );
    assert!(job.disk_buffer.is_empty());
    assert_eq!(job.phase, DiskcopyPhase::PromptInsertSource);
}

#[test]
fn diskcopy_errors_end_the_command() {
    let g = Some((1u16, 1u8, 1u8));
    let mut job = diskcopy_job(two_drives(false), g, Some(2), g, Some(2)).unwrap();
    job.start();
    let step = job.advance(DiskcopyReply::Data(None));
    assert_eq!(step.output, b"Read error on source disk\r\n".to_vec());
    assert_eq!(job.phase, DiskcopyPhase::Done(1));
    let mut job = diskcopy_job(two_drives(false), g, Some(2), g, Some(2)).unwrap();
    job.start();
    job.advance(DiskcopyReply::Data(Some(vec![0, 0])));
    job.advance(DiskcopyReply::Proceed);
    let step = job.advance(DiskcopyReply::Written(false));
    assert_eq!(step.output, b"Write error on destination disk\r\n".to_vec());
    assert_eq!(job.request(), DiskcopyRequest::Finished(1));
}

use neetan_dos::commands::format_job::{
    format_job, format_target, FormatPhase, FormatReply, FormatRequest,
};

#[test]
fn format_command_line_and_drive() {
    let mut memory = daua_memory();
    memory.write_byte(DAUA_TABLE + 3, 0x50);
    assert_eq!(format_target(&memory, DAUA_TABLE, b"a: /q"), Ok((0, 0x90, true, false)));
    assert_eq!(format_target(&memory, DAUA_TABLE, b"C: /v"), Ok((2, 0x80, false, true)));
    assert_eq!(format_target(&memory, DAUA_TABLE, b"d:"), Err("Invalid drive specification\r\n"));
    assert_eq!(format_target(&memory, DAUA_TABLE, b"e:"), Err("Invalid drive specification\r\n"));
    assert_eq!(format_target(&memory, DAUA_TABLE, b""), Err("Required parameter missing\r\n"));
}

#[test]
fn format_refused_and_cancelled() {
    assert!(format_job(0, 0x90, None, Some(1024), false, false).is_err());
    let (mut job, question) = format_job(0, 0x90, Some((77, 2, 8)), Some(1024), false, false).unwrap();
    assert!(question.contains("DRIVE A:"));
    assert!(matches!(job.request(), FormatRequest::Key));
    let step = job.advance(FormatReply::NoKey);
    assert!(step.output.is_empty() && !step.take_key);
    let step = job.advance(FormatReply::Key(b'n'));
    assert_eq!(step.output, "\r\nFormat terminated.\r\n");
    assert!(step.take_key);
    assert_eq!(job.phase, FormatPhase::Done(0));
}

#[test]
fn format_floppy_steps() {
    let (mut job, _) = format_job(0, 0x90, Some((77, 2, 8)), Some(1024), false, true).unwrap();
    assert!(job.layout_is_ready());
    assert_eq!(job.total_tracks, 154);
    assert_eq!(job.total_sectors, 1232);
    job.advance(FormatReply::Key(b'Y'));
    assert_eq!(job.phase, FormatPhase::FormatTrack);
    match job.request() {
        FormatRequest::Write { da_ua, writes } => {
            assert_eq!(da_ua, 0x90);
            assert_eq!(writes.len(), 1);
            assert_eq!(writes[0].0, 0);
            assert_eq!(writes[0].1, vec![0xF6; 8192]);
        }
        other => panic!("unexpected {:?}", other),
    }
    job.advance(FormatReply::Written(true));
    assert_eq!(job.current_track, 1);
    job.current_track = job.total_tracks;
    assert!(matches!(job.request(), FormatRequest::Proceed));
    job.advance(FormatReply::Proceed);
    assert_eq!(job.phase, FormatPhase::WriteBootSector);
    match job.request() {
        FormatRequest::Write { writes, .. } => {
            assert_eq!(writes[0].0, 0);
            assert_eq!(&writes[0].1[..3], &[0xEB, 0x3C, 0x90]);
            assert_eq!(writes[0].1.len(), 1024);
        }
        other => panic!("unexpected {:?}", other),
    }
    job.advance(FormatReply::Written(true));
    match job.request() {
        FormatRequest::Write { writes, .. } => {
            assert_eq!(writes.len(), 2);
            assert_eq!(writes[0].0, 1);
            assert_eq!(writes[1].0, 3);
            assert_eq!(&writes[1].1[..4], &[0xFE, 0xFF, 0xFF, 0x00]);
        }
        other => panic!("unexpected {:?}", other),
    }
    job.advance(FormatReply::Written(true));
    match job.request() {
        FormatRequest::Write { writes, .. } => {
            assert_eq!(writes[0].0, 5);
            assert_eq!(writes[0].1, vec![0; 6 * 1024]);
        }
        other => panic!("unexpected {:?}", other),
    }
    job.advance(FormatReply::Written(true));
    assert_eq!(job.phase, FormatPhase::VerifyTrack);
    assert!(matches!(job.request(), FormatRequest::Read { da_ua: 0x90, lba: 0, count: 8 }));
    let step = job.advance(FormatReply::Read(false));
    assert_eq!(step.output, "Verify error\r\n");
    assert!(matches!(job.request(), FormatRequest::Finished(1)));
}

#[test]
fn format_summary_step() {
    let (mut job, _) = format_job(1, 0x90, Some((77, 2, 8)), Some(1024), true, false).unwrap();
    job.phase = FormatPhase::Summary;
    let step = job.advance(FormatReply::Proceed);
    assert_eq!(
        step.output,
        "Format complete.\r\n\r\n       1261568 bytes total disk space\r\n       1250304 bytes available on disk\r\n"
    );
    assert_eq!(step.invalidate_drive, Some(1));
    assert_eq!(job.phase, FormatPhase::Done(0));
}

#[test]
fn format_hard_disk_partition() {
    let (mut job, _) = format_job(3, 0x80, Some((100, 8, 17)), Some(512), false, false).unwrap();
    assert!(job.is_hdd);
    assert_eq!(job.partition_offset, 17);
    job.advance(FormatReply::Key(b'y'));
    assert_eq!(job.phase, FormatPhase::WritePartitionTable);
    match job.request() {
        FormatRequest::Write { writes, .. } => {
            assert_eq!(writes.len(), 2);
            assert_eq!(writes[0], (0, vec![0; 512]));
            assert_eq!(writes[1].0, 1);
            assert_eq!(&writes[1].1[..2], &[0x21, 0x81]);
        }
        other => panic!("unexpected {:?}", other),
    }
    job.advance(FormatReply::Written(true));
    match job.request() {
        FormatRequest::Write { writes, .. } => assert_eq!(writes[0].0, 17),
        other => panic!("unexpected {:?}", other),
    }
    let step = job.advance(FormatReply::Written(false));
    assert_eq!(step.output, "Write error\r\n");
}

use neetan_dos::cds::{current_directory_path, drive_choices, CdsLayout};
use neetan_dos::commands::cd::{cd_request, current_directory_line, CdRequest};
use neetan_dos::commands::dir::{dir_display_path, dir_footer, dir_header};
use neetan_dos::commands::set::{set_request, SetRequest};
use neetan_dos::editor::absolute_path;

const LAYOUT: CdsLayout = CdsLayout { base: 0x2000, entry_size: 0x58, path_offset: 0, flags_offset: 0x43 };

fn cds_memory() -> SparseMemory {
    let mut memory = SparseMemory::new();
    for (i, b) in b"C:\\DOS".iter().enumerate() {
        memory.write_byte(LAYOUT.base + 2 * LAYOUT.entry_size + i as u32, *b);
    }
    memory.write_word(LAYOUT.base + LAYOUT.flags_offset, 0x4000);
    memory.write_word(LAYOUT.base + 2 * LAYOUT.entry_size + LAYOUT.flags_offset, 0x4000);
    memory
}

#[test]
fn cds_paths_and_drives() {
    let memory = cds_memory();
    assert_eq!(current_directory_path(&memory, LAYOUT, 2), b"C:\\DOS".to_vec());
    assert_eq!(current_directory_path(&memory, LAYOUT, 0), b"A:\\".to_vec());
    assert_eq!(drive_choices(&memory, LAYOUT), vec![0, 2]);
    assert_eq!(current_directory_line(&memory, LAYOUT, 2), b"C:\\DOS\r\n".to_vec());
    assert_eq!(dir_display_path(&memory, LAYOUT, 2), "C:\\DOS");
}

#[test]
fn editor_absolute_paths() {
    let memory = cds_memory();
    assert_eq!(absolute_path(&memory, LAYOUT, 2, b"file.txt"), b"C:\\DOS\\file.txt".to_vec());
    assert_eq!(absolute_path(&memory, LAYOUT, 2, b"\\a\\b"), b"C:\\DOS\\a\\b".to_vec());
    assert_eq!(absolute_path(&memory, LAYOUT, 2, b"a:x"), b"A:\\x".to_vec());
    assert_eq!(absolute_path(&memory, LAYOUT, 0, b"c:\\x\\..\\y"), b"C:\\y".to_vec());
}

#[test]
fn cd_and_set_command_lines() {
    assert_eq!(cd_request(b" /? "), CdRequest::Help);
    assert_eq!(cd_request(b"  "), CdRequest::ShowCurrent);
    assert_eq!(cd_request(b" \\dos "), CdRequest::Change(b"\\dos".to_vec()));
    assert_eq!(set_request(b"/?"), SetRequest::Help);
    assert_eq!(set_request(b""), SetRequest::ShowAll);
    assert_eq!(
        set_request(b" PATH=A:\\;B:\\ "),
        SetRequest::Assign { name: b"PATH".to_vec(), value: b"A:\\;B:\\".to_vec() }
    );
    assert_eq!(set_request(b"A=B=C"), SetRequest::Assign { name: b"A".to_vec(), value: b"B=C".to_vec() });
    assert_eq!(set_request(b"PA"), SetRequest::ShowMatching(b"PA".to_vec()));
}

#[test]
fn dir_header_and_footer() {
    assert_eq!(
        dir_header(0, Some("DISK1"), "A:\\"),
        " Volume in drive A is DISK1\r\n Directory of A:\\\r\n\r\n"
    );
    assert_eq!(
        dir_header(2, None, "C:\\DOS"),
        " Volume in drive C has no label\r\n Directory of C:\\DOS\r\n\r\n"
    );
    assert_eq!(
        dir_footer(3, 1234567, 0),
        "        3 file(s)    1,234,567 bytes\r\n                        0 bytes free\r\n"
    );
}

use neetan_dos::commands::dir::AttrFilter;
use neetan_dos::commands::dir_listing::{collect_entries, subdir_path, DirListing, ListingNext};

fn listing(entries: Vec<ReadDirEntry>) -> DirListing {
    DirListing {
        entries,
        entry_index: 0,
        total_files: 0,
        total_bytes: 0,
        lines_shown: 0,
        wide_col: 0,
        wide: false,
        bare: false,
        paged: false,
        recursive: false,
        current_path: Vec::new(),
    }
}

fn sized(name: &[u8; 11], attribute: u8, size: u32) -> ReadDirEntry {
    ReadDirEntry { name: *name, attribute, time: 0, date: 0, file_size: size }
}

#[test]
fn listing_collects_filtered_sorted_entries() {
    let found = vec![
        sized(b"ZED     TXT", 0x20, 1),
        sized(b"HIDE    SYS", 0x02, 2),
        sized(b"SUB        ", 0x10, 0),
        sized(b"ABC     TXT", 0x20, 3),
        sized(b"VOLUME     ", 0x08, 0),
    ];
    let filter = AttrFilter::default();
    let shown = collect_entries(&found, &filter, SortOrder::Name);
    let names: Vec<[u8; 11]> = shown.iter().map(|e| e.name).collect();
    assert_eq!(names, vec![*b"SUB        ", *b"ABC     TXT", *b"ZED     TXT"]);
}

#[test]
fn bare_listing_steps() {
    let mut l = listing(vec![sized(b"A       TXT", 0x20, 10), sized(b"B          ", 0x20, 5)]);
    l.bare = true;
    l.recursive = true;
    l.current_path = b"C:\\SUB".to_vec();
    assert_eq!(l.step(), (b"C:\\SUB\\A.TXT\r\n".to_vec(), ListingNext::Listing));
    assert_eq!(l.step(), (b"C:\\SUB\\B\r\n".to_vec(), ListingNext::Listing));
    assert_eq!(l.total_files, 2);
    assert_eq!(l.total_bytes, 15);
    assert_eq!(l.step(), (Vec::new(), ListingNext::NextSubdir));
}

#[test]
fn wide_listing_ends_its_line() {
    let mut l = listing(vec![sized(b"A       TXT", 0x20, 1), sized(b"D          ", 0x10, 0)]);
    l.wide = true;
    assert_eq!(l.step().0, b"A.TXT          ".to_vec());
    assert_eq!(l.step().0, b"[D]            ".to_vec());
    assert_eq!(l.wide_col, 2);
    assert_eq!(l.step(), (b"\r\n".to_vec(), ListingNext::Footer));
    assert_eq!(l.wide_col, 0);
}

#[test]
fn empty_listing_is_not_found() {
    let mut l = listing(Vec::new());
    assert_eq!(l.step(), (b"File Not Found\r\n".to_vec(), ListingNext::NotFound));
}

#[test]
fn paged_listing_waits_after_a_screen() {
    let mut l = listing(vec![sized(b"A       TXT", 0x20, 1)]);
    l.paged = true;
    l.lines_shown = 22;
    let (line, next) = l.step();
    assert!(line.ends_with(b"\r\n"));
    assert_eq!(next, ListingNext::WaitKey);
}

#[test]
fn subdirectory_paths() {
    assert_eq!(subdir_path(b"C:\\", b"DOS        "), b"C:\\DOS".to_vec());
    assert_eq!(subdir_path(b"C:\\DOS", b"SUB     X  "), b"C:\\DOS\\SUB.X".to_vec());
}

use neetan_dos::commands::del_job::{del_plan, DelJob, DelPhase, DelPlan, DelReply, DelRequest};

#[test]
fn del_command_lines() {
    assert_eq!(del_plan(b"  "), DelPlan::Help);
    assert_eq!(del_plan(b"/?"), DelPlan::Help);
    assert_eq!(
        del_plan(b" c:\\tmp\\*.* "),
        DelPlan::Start { path: b"c:\\tmp\\*.*".to_vec(), prompt: false, confirm_all: true }
    );
    assert_eq!(
        del_plan(b"*.* /p"),
        DelPlan::Start { path: b"*.*".to_vec(), prompt: true, confirm_all: false }
    );
    assert_eq!(
        del_plan(b"a*.txt"),
        DelPlan::Start { path: b"a*.txt".to_vec(), prompt: false, confirm_all: false }
    );
    assert_eq!(del_plan(b"*"), DelPlan::Start { path: b"*".to_vec(), prompt: false, confirm_all: true });
}

#[test]
fn del_asks_before_deleting_everything() {
    let (mut job, out) = DelJob::new(false, true);
    assert_eq!(out, b"All files in directory will be deleted!\r\nAre you sure (Y/N)?".to_vec());
    assert_eq!(job.request(), DelRequest::Key);
    assert!(job.advance(DelReply::NoKey).is_empty());
    assert_eq!(job.advance(DelReply::Key(b'n')), b"\r\n".to_vec());
    assert_eq!(job.phase, DelPhase::Done(0));
}

#[test]
fn del_deletes_matching_files() {
    let (mut job, out) = DelJob::new(false, false);
    assert!(out.is_empty());
    assert_eq!(job.request(), DelRequest::FindFrom(0));
    job.advance(DelReply::Found(*b"SUB        ", 0x10, 1));
    assert_eq!(job.request(), DelRequest::FindFrom(1));
    job.advance(DelReply::Found(*b"A       TXT", 0x20, 2));
    assert_eq!(job.request(), DelRequest::Delete(*b"A       TXT"));
    job.advance(DelReply::Deleted(true));
    assert!(job.deleted_any);
    assert_eq!(job.request(), DelRequest::FindFrom(1));
    assert!(job.advance(DelReply::NoMore).is_empty());
    assert_eq!(job.request(), DelRequest::Finished(0));
}

#[test]
fn del_prompts_per_file() {
    let (mut job, _) = DelJob::new(true, false);
    let out = job.advance(DelReply::Found(*b"A       TXT", 0x20, 1));
    assert_eq!(out, b"A.TXT, Delete (Y/N)?".to_vec());
    assert_eq!(job.request(), DelRequest::Key);
    job.advance(DelReply::Key(b'y'));
    assert_eq!(job.request(), DelRequest::Delete(*b"A       TXT"));
    job.advance(DelReply::Deleted(false));
    assert!(!job.deleted_any);
    assert_eq!(job.advance(DelReply::NoMore), b"File not found\r\n".to_vec());
    assert_eq!(job.phase, DelPhase::Done(1));
}

use neetan_dos::commands::b3sum_run::{
    b3sum_argument, b3sum_words, B3sumPhase, B3sumReply, B3sumRequest, B3sumRun, ChunkError,
};

const ABC_DIGEST: &str = "6437b3ac38465133ffb63b75273a8db548c558465d79db03fd359c6cd5bd9d85";
const EMPTY_DIGEST: &str = "af1349b9f5f9a1a6a0404dea36dcc9499bcb25c9adc112b7cc9a93cae41f3262";

#[test]
fn b3sum_command_words() {
    assert_eq!(b3sum_words(b"  "), Err("Required parameter missing\r\n"));
    assert_eq!(b3sum_words(b" a.txt  b:*.* ").unwrap(), vec![b"a.txt".to_vec(), b"b:*.*".to_vec()]);
    let a = b3sum_argument(b"C:\\DIR\\..\\X\\*.TXT", 2);
    assert_eq!(a.display_path, b"C:\\X\\*.TXT".to_vec());
    assert_eq!(a.wildcard_prefix, b"C:\\X\\".to_vec());
    assert!(a.has_wildcard);
    assert_eq!(a.drive_index, 2);
}

#[test]
fn b3sum_hashes_a_file_in_chunks() {
    let mut run = B3sumRun::new(vec![b3sum_argument(b"A:\\ABC.TXT", 0)]);
    assert_eq!(run.request(), B3sumRequest::FindFrom { argument: 0, search_index: 0 });
    let out = run.advance(B3sumReply::Found { name: *b"ABC     TXT", file_size: 3, readable: true, next_index: 1 });
    assert!(out.is_empty());
    assert_eq!(run.request(), B3sumRequest::ReadChunk);
    assert!(run.advance(B3sumReply::Chunk(b"ab".to_vec())).is_empty());
    assert!(run.advance(B3sumReply::Chunk(b"c".to_vec())).is_empty());
    let line = run.advance(B3sumReply::Chunk(Vec::new()));
    assert_eq!(line, format!("{ABC_DIGEST}  A:\\ABC.TXT\r\n").into_bytes());
    assert_eq!(run.current, 1);
    assert_eq!(run.request(), B3sumRequest::Proceed);
    run.advance(B3sumReply::Proceed);
    assert_eq!(run.request(), B3sumRequest::Finished(0));
}

#[test]
fn b3sum_wildcards_print_each_match() {
    let mut run = B3sumRun::new(vec![b3sum_argument(b"A:\\*.TXT", 0)]);
    let line = run.advance(B3sumReply::Found { name: *b"E       TXT", file_size: 0, readable: false, next_index: 4 });
    assert_eq!(line, format!("{EMPTY_DIGEST}  A:\\E.TXT\r\n").into_bytes());
    assert_eq!(run.request(), B3sumRequest::FindFrom { argument: 0, search_index: 4 });
    assert!(run.matched_any);
    assert!(run.advance(B3sumReply::NoMore).is_empty());
    assert_eq!(run.current, 1);
}

#[test]
fn b3sum_errors() {
    let mut run = B3sumRun::new(vec![b3sum_argument(b"A:\\NONE.TXT", 0)]);
    assert_eq!(run.advance(B3sumReply::NoMore), b"File not found\r\n".to_vec());
    assert_eq!(run.phase, B3sumPhase::Done(1));
    let mut run = B3sumRun::new(vec![b3sum_argument(b"Z:\\X", 25)]);
    assert_eq!(run.request(), B3sumRequest::Proceed);
    assert_eq!(run.advance(B3sumReply::Proceed), b"Access denied\r\n".to_vec());
    let mut run = B3sumRun::new(vec![b3sum_argument(b"A:\\X", 0)]);
    run.advance(B3sumReply::Found { name: *b"X          ", file_size: 9, readable: false, next_index: 1 });
    assert_eq!(run.phase, B3sumPhase::Done(1));
    let mut run = B3sumRun::new(vec![b3sum_argument(b"A:\\X", 0)]);
    run.advance(B3sumReply::Found { name: *b"X          ", file_size: 9, readable: true, next_index: 1 });
    assert_eq!(
        run.advance(B3sumReply::ChunkFailed(ChunkError::InvalidDrive)),
        b"Invalid drive\r\n".to_vec()
    );
}

use neetan_dos::commands::dir_listing::{next_subdir, subdirs_found, SubdirStep};

fn dir_entry(name: &[u8; 11], attribute: u8) -> ReadDirEntry {
    ReadDirEntry { name: *name, attribute, time: 0, date: 0, file_size: 0 }
}

#[test]
fn recursive_listing_finds_subdirectories() {
    let found = vec![
        (dir_entry(b".          ", 0x10), Some(5)),
        (dir_entry(b"..         ", 0x10), Some(0)),
        (dir_entry(b"GAMES      ", 0x10), Some(7)),
        (dir_entry(b"NOTES   TXT", 0x20), None),
        (dir_entry(b"CDDIR      ", 0x10), None),
        (dir_entry(b"SAVE    DIR", 0x12), Some(9)),
    ];
    let subs = subdirs_found(&found, b"A:\\");
    assert_eq!(subs, vec![(7, b"A:\\GAMES".to_vec()), (9, b"A:\\SAVE.DIR".to_vec())]);
    let subs = subdirs_found(&found, b"A:\\TOP");
    assert_eq!(subs[0], (7, b"A:\\TOP\\GAMES".to_vec()));
}

#[test]
fn recursive_listing_goes_on_or_ends() {
    let mut stack = vec![(7, b"A:\\GAMES".to_vec()), (9, b"A:\\SAVE".to_vec())];
    let (out, step) = next_subdir(&mut stack, 0, 3, false);
    assert_eq!(out, b"\r\n".to_vec());
    assert_eq!(step, SubdirStep::Enter(9, b"A:\\SAVE".to_vec()));
    let (out, step) = next_subdir(&mut stack, 0, 3, true);
    assert!(out.is_empty());
    assert_eq!(step, SubdirStep::Enter(7, b"A:\\GAMES".to_vec()));
    let (out, step) = next_subdir(&mut stack, 0, 3, false);
    assert!(out.is_empty());
    assert_eq!(step, SubdirStep::Footer);
    let (out, step) = next_subdir(&mut stack, 0, 0, false);
    assert_eq!(out, b"File Not Found\r\n".to_vec());
    assert_eq!(step, SubdirStep::NotFound);
    let mut stack = vec![(7, b"Z:\\X".to_vec())];
    let (_, step) = next_subdir(&mut stack, 25, 1, false);
    assert_eq!(step, SubdirStep::Footer);
    assert_eq!(stack.len(), 1);
}

#[test]
fn diskcopy_writes_each_track_as_read() {
    let g = Some((3u16, 1u8, 2u8));
    let mut job = diskcopy_job(two_drives(false), g, Some(4), g, Some(4)).unwrap();
    job.start();
    let tracks: Vec<Vec<u8>> = (0..3u8).map(|t| (0..8u8).map(|i| t * 16 + i).collect()).collect();
    for (t, data) in tracks.iter().enumerate() {
        assert_eq!(
            job.request(),
            DiskcopyRequest::Read { da_ua: 0x90, lba: 2 * t as u32, count: 2 }
        );
        job.advance(DiskcopyReply::Data(Some(data.clone())));
    }
    job.advance(DiskcopyReply::Proceed);
    for (t, data) in tracks.iter().enumerate() {
        match job.request() {
            DiskcopyRequest::Write { da_ua, lba, start, len } => {
                assert_eq!((da_ua, lba), (0x91, 2 * t as u32));
                assert_eq!(&job.disk_buffer[start..start + len], data.as_slice());
            }
            other => panic!("expected a write, got {:?}", other),
        }
        job.advance(DiskcopyReply::Written(true));
    }
}

#[test]
fn concat_plan_splits_on_plus_and_skips_empty_names() {
    let plan = concat_plan(b"A.TXT++B.TXT+", b"C.TXT").unwrap();
    assert_eq!(plan, vec![b"A.TXT".to_vec(), b"B.TXT".to_vec()]);
}

#[test]
fn concat_plan_refuses_a_host_destination() {
    assert_eq!(
        concat_plan(b"A+B", b"host:OUT"),
        Err("Concatenation requires a DOS destination\r\n")
    );
}

#[test]
fn concat_plan_needs_one_source() {
    assert_eq!(concat_plan(b"++", b"C.TXT"), Err("Required parameter missing\r\n"));
}

#[test]
fn concat_sources_must_be_dos_paths_off_drive_z() {
    assert_eq!(concat_source_check(b"host:A", Some(0)), Err("Concatenation sources must be DOS paths\r\n"));
    assert_eq!(concat_source_check(b"A.TXT", None), Err("File not found\r\n"));
    assert_eq!(concat_source_check(b"Z:A.TXT", Some(25)), Err("Access denied\r\n"));
    assert_eq!(concat_source_check(b"A.TXT", Some(2)), Ok(()));
}

#[test]
fn concat_destination_directory_gets_concat() {
    assert_eq!(&concat_dest_name(None), b"CONCAT     ");
    assert_eq!(&concat_dest_name(Some(*b"OUT     TXT")), b"OUT     TXT");
}

#[test]
fn format_hdd_job_layout_is_ready() {
    let (job, _) = format_job(2, 0x80, Some((153, 8, 33)), Some(512), true, false).unwrap();
    assert!(job.layout_is_ready());
}

#[test]
fn concat_sources_report_the_first_refusal() {
    let tokens = vec![b"A.TXT".to_vec(), b"Z:B.TXT".to_vec(), b"host:C".to_vec()];
    assert_eq!(concat_sources_check(&tokens, &vec![Some(0), Some(25), None]), Err("Access denied\r\n"));
    assert_eq!(concat_sources_check(&tokens[..1].to_vec(), &vec![Some(0)]), Ok(()));
    let tokens = vec![b"host:C".to_vec(), b"A.TXT".to_vec()];
    assert_eq!(
        concat_sources_check(&tokens, &vec![None, None]),
        Err("Concatenation sources must be DOS paths\r\n")
    );
}
