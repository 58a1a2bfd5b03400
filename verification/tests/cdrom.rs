use neetan_dos::cdrom::{
    lba_to_redbook, read_address, redbook_to_lba, status_to_result, write_address,
    AudioChannelInfo, AudioStatus, CdAudioState, CdromIo, DiscRequest, MemoryDisc, MscdexState,
    TrackInfo,
};
use neetan_dos::memory::{MemoryAccess, SparseMemory};

#[test]
fn lba_to_redbook_conversion() {
    // LBA 0 -> 0:02:00 (150 frames = 2 seconds).
    assert_eq!(lba_to_redbook(0), (0, 2, 0));
    // LBA 1 -> 0:02:01.
    assert_eq!(lba_to_redbook(1), (0, 2, 1));
    // LBA 150 -> 0:04:00.
    assert_eq!(lba_to_redbook(150), (0, 4, 0));
    // LBA 4350 -> 1:00:00 (4500 frames).
    assert_eq!(lba_to_redbook(4350), (1, 0, 0));
}

#[test]
fn redbook_to_lba_conversion() {
    assert_eq!(redbook_to_lba(0, 2, 0), 0);
    assert_eq!(redbook_to_lba(0, 2, 1), 1);
    assert_eq!(redbook_to_lba(0, 4, 0), 150);
    assert_eq!(redbook_to_lba(1, 0, 0), 4350);
}

#[test]
fn redbook_lba_roundtrip() {
    for lba in [0, 1, 74, 75, 149, 150, 4349, 4350, 4500, 337499] {
        let (m, s, f) = lba_to_redbook(lba);
        assert_eq!(
            redbook_to_lba(m, s, f),
            lba,
            "roundtrip failed for LBA {lba}"
        );
    }
}

#[test]
fn redbook_to_lba_saturates_at_zero() {
    // MSF 0:00:00 = frame 0, which is before the 150-frame lead-in.
    assert_eq!(redbook_to_lba(0, 0, 0), 0);
}

#[test]
fn status_word_maps_to_error_codes() {
    assert_eq!(status_to_result(0x0100), Ok(()));
    assert_eq!(status_to_result(0x0300), Ok(()));
    assert_eq!(status_to_result(0x8103), Err(0x03));
    assert_eq!(status_to_result(0x8100), Err(0x01));
}

#[test]
fn address_fields_round_trip_in_both_modes() {
    let mut memory = SparseMemory::new();
    write_address(&mut memory, 0x1000, 0x0012_3456, 0);
    assert_eq!(memory.read_byte(0x1000), 0x56);
    assert_eq!(memory.read_byte(0x1003), 0x00);
    assert_eq!(read_address(&memory, 0x1000, 0), 0x0012_3456);
    write_address(&mut memory, 0x2000, 4350, 1);
    // frame, second, minute, 0
    assert_eq!(memory.read_byte(0x2000), 0);
    assert_eq!(memory.read_byte(0x2001), 0);
    assert_eq!(memory.read_byte(0x2002), 1);
    assert_eq!(read_address(&memory, 0x2000, 1), 4350);
}

#[test]
fn mscdex_state_starts_on_drive_q() {
    let state = MscdexState::new();
    assert_eq!(state.device_name, b"CD_101  ".to_vec());
    assert_eq!(state.drive_letter, 16);
    assert_eq!(state.open_count, 0);
}

fn test_disc() -> MemoryDisc {
    let mut data_sectors = Vec::new();
    for lba in 0..10u8 {
        let mut sector = vec![0u8; 2048];
        sector[0] = lba;
        data_sectors.push(sector);
    }
    let mut raw = vec![0u8; 2352];
    raw[0] = 0xAA;
    MemoryDisc {
        audio: AudioStatus {
            state: CdAudioState::Stopped,
            current_lba: 300,
            start_lba: 0,
            end_lba: 1000,
        },
        channel_info: AudioChannelInfo { input_channel: [0, 1, 2, 3], volume: [255, 255, 0, 0] },
        sector_count: 0x0001_2345,
        track_table: vec![
            TrackInfo { start_lba: 0, control: 0x41 },
            TrackInfo { start_lba: 200, control: 0x01 },
        ],
        leadout: 2000,
        raw_sectors: vec![raw],
        data_sectors,
        log: Vec::new(),
    }
}

fn request(memory: &mut SparseMemory, addr: u32, command: u8, transfer_seg: u16, transfer_off: u16) {
    memory.write_byte(addr + 2, command);
    memory.write_word(addr + 14, transfer_off);
    memory.write_word(addr + 16, transfer_seg);
}

#[test]
fn device_request_volume_size_and_status() {
    let mut memory = SparseMemory::new();
    let mut drive = test_disc();
    let mut state = MscdexState::new();
    request(&mut memory, 0x3000, 3, 0x0400, 0x0000);
    memory.write_byte(0x4000, 8);
    state.handle_device_request(&mut memory, &mut drive, 0x3000);
    assert_eq!(memory.read_word(0x4001), 0x2345);
    assert_eq!(memory.read_word(0x4003), 0x0001);
    assert_eq!(memory.read_word(0x3003), 0x0100);
}

#[test]
fn device_request_q_channel_finds_track() {
    let mut memory = SparseMemory::new();
    let mut drive = test_disc();
    let mut state = MscdexState::new();
    request(&mut memory, 0x3000, 3, 0x0400, 0x0000);
    memory.write_byte(0x4000, 12);
    state.handle_device_request(&mut memory, &mut drive, 0x3000);
    // current LBA 300 lies in track 2 (200..2000), 100 frames in.
    assert_eq!(memory.read_byte(0x4002), 2);
    assert_eq!(memory.read_byte(0x4003), 1);
    // 100 + 150 = 250 frames -> 0:03:25
    assert_eq!(memory.read_byte(0x4004), 0);
    assert_eq!(memory.read_byte(0x4005), 3);
    assert_eq!(memory.read_byte(0x4006), 25);
}

#[test]
fn device_request_play_sets_busy_and_open_close_count() {
    let mut memory = SparseMemory::new();
    let mut drive = test_disc();
    let mut state = MscdexState::new();
    request(&mut memory, 0x3000, 132, 0, 0);
    memory.write_byte(0x3000 + 13, 0);
    memory.write_word(0x3000 + 14, 500);
    memory.write_word(0x3000 + 16, 0);
    memory.write_word(0x3000 + 18, 75);
    memory.write_word(0x3000 + 20, 0);
    state.handle_device_request(&mut memory, &mut drive, 0x3000);
    assert_eq!(drive.log.len(), 1);
    assert!(matches!(drive.log[0], DiscRequest::Play { start_lba: 500, sector_count: 75 }));
    assert!(matches!(drive.audio.state, CdAudioState::Playing));
    assert_eq!(memory.read_word(0x3003), 0x0300);
    memory.write_byte(0x3002, 13);
    state.handle_device_request(&mut memory, &mut drive, 0x3000);
    assert_eq!(state.open_count, 1);
    memory.write_byte(0x3002, 14);
    state.handle_device_request(&mut memory, &mut drive, 0x3000);
    state.handle_device_request(&mut memory, &mut drive, 0x3000);
    assert_eq!(state.open_count, 0);
    memory.write_byte(0x3002, 133);
    state.handle_device_request(&mut memory, &mut drive, 0x3000);
    assert_eq!(drive.log.len(), 2);
    assert!(matches!(drive.log[1], DiscRequest::Stop));
    assert_eq!(memory.read_word(0x3003), 0x0100);
}

#[test]
fn device_request_unknown_command_is_an_error() {
    let mut memory = SparseMemory::new();
    let mut drive = test_disc();
    let mut state = MscdexState::new();
    request(&mut memory, 0x3000, 99, 0, 0);
    state.handle_device_request(&mut memory, &mut drive, 0x3000);
    assert_eq!(memory.read_word(0x3003), 0x8103);
}

#[test]
fn read_long_stops_at_unreadable_sector() {
    let mut memory = SparseMemory::new();
    let mut drive = test_disc();
    let mut state = MscdexState::new();
    request(&mut memory, 0x3000, 128, 0, 0);
    memory.write_byte(0x3000 + 13, 0);
    memory.write_word(0x3000 + 14, 0x0000);
    memory.write_word(0x3000 + 16, 0x0001); // transfer at 0x0001_0000
    memory.write_word(0x3000 + 18, 3);
    memory.write_word(0x3000 + 20, 8);
    memory.write_word(0x3000 + 22, 0);
    state.handle_device_request(&mut memory, &mut drive, 0x3000);
    assert_eq!(memory.read_byte(0x0001_0000), 8);
    assert_eq!(memory.read_byte(0x0001_0000 + 2048), 9);
    assert_eq!(memory.read_word(0x3003), 0x810F);
}

#[test]
fn memory_disc_reads_sectors_and_tracks() {
    let disc = test_disc();
    let mut buf = vec![0u8; 2352];
    assert_eq!(disc.read_sector_raw(0, &mut buf), Some(2352));
    assert_eq!(buf[0], 0xAA);
    assert_eq!(disc.read_sector_raw(1, &mut buf), None);
    assert_eq!(disc.read_sector_cooked(3, &mut buf), Some(2048));
    assert_eq!(buf[0], 3);
    assert_eq!(disc.track_count(), 2);
    assert_eq!(disc.track_info(2).map(|t| t.start_lba), Some(200));
    assert!(disc.track_info(0).is_none());
    assert!(disc.track_info(3).is_none());
    assert_eq!(disc.total_sectors(), 0x0001_2345);
    assert_eq!(disc.leadout_lba(), 2000);
}

use neetan_dos::cdrom::{read_cdrom_control_channel, write_cdrom_control_channel, CDROM_REQUEST_PTR_ADDR};

#[test]
fn control_channel_read_and_write() {
    let mut memory = SparseMemory::new();
    let mut drive = test_disc();
    memory.write_byte(0x4000, 8);
    assert_eq!(read_cdrom_control_channel(&mut memory, &drive, 0x4000), Ok(()));
    assert_eq!(memory.read_word(0x4001), 0x2345);
    memory.write_byte(0x4000, 99);
    assert_eq!(read_cdrom_control_channel(&mut memory, &drive, 0x4000), Err(3));

    memory.write_byte(0x5000, 2);
    assert_eq!(write_cdrom_control_channel(&memory, &mut drive, 0x5000), Ok(()));
    assert!(matches!(drive.log.last(), Some(DiscRequest::Stop)));
    memory.write_byte(0x5000, 0);
    assert_eq!(write_cdrom_control_channel(&memory, &mut drive, 0x5000), Ok(()));
    assert_eq!(drive.log.len(), 1);
    memory.write_byte(0x5000, 4);
    assert_eq!(write_cdrom_control_channel(&memory, &mut drive, 0x5000), Err(3));
}

#[test]
fn device_request_through_the_request_pointer() {
    let mut memory = SparseMemory::new();
    let mut drive = test_disc();
    let mut state = MscdexState::new();
    // The request block at 0300:0010 = 0x3010.
    memory.write_word(CDROM_REQUEST_PTR_ADDR, 0x0010);
    memory.write_word(CDROM_REQUEST_PTR_ADDR + 2, 0x0300);
    request(&mut memory, 0x3010, 3, 0x0400, 0x0000);
    memory.write_byte(0x4000, 8);
    state.cdrom_device_request(&mut memory, &mut drive);
    assert_eq!(memory.read_word(0x4001), 0x2345);
    assert_eq!(memory.read_word(0x3013), 0x0100);
}

#[test]
fn address_fields_read_back_what_was_written() {
    let mut memory = SparseMemory::new();
    for (lba, mode) in [(0u32, 0u8), (0x1234_5678, 0), (u32::MAX, 0), (0, 1), (449_850, 1), (1_151_849, 1)] {
        write_address(&mut memory, 0x600, lba, mode);
        assert_eq!(read_address(&memory, 0x600, mode), lba);
    }
}
