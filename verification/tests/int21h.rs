use neetan_dos::cds::CdsLayout;
use neetan_dos::console::{vram_char_addr, Console};
use neetan_dos::int21h::{
    int21h_02h_display_character, int21h_network_unsupported, int21h_route, CpuAccess, CpuRegisters, DosState,
    Int21Call,
};
use neetan_dos::iosys;
use neetan_dos::memory::{MemoryAccess, SparseMemory};

fn state() -> DosState {
    DosState {
        version: (6, 20),
        ctrl_break: false,
        switch_char: b'/',
        indos_addr: 0x0000_0A31,
        dbcs_table_addr: 0x0000_0B24,
        interim_console_flag: 0,
        current_drive: 0,
        current_psp: 0x1234,
        dta_segment: 0x1234,
        dta_offset: 0x0080,
        dta_address: 0x123C0,
        last_return_code: 0,
        last_termination_type: 0,
        allocation_strategy: 0,
        umb_link: false,
    }
}

/// The first MCB segment of upper memory when EMS is off.
const UMB_FIRST_MCB_SEGMENT: u16 = 0xC000;

fn iret_carry(memory: &SparseMemory, cpu: &CpuRegisters) -> bool {
    memory.read_word(cpu.iret_flags_addr()) & 0x0001 != 0
}

#[test]
fn int21h_dch_reports_netware_absent() {
    let dos = state();
    let mut memory = SparseMemory::new();
    let mut cpu = CpuRegisters::new();

    cpu.set_ax(0xDC7F);
    cpu.set_cx(0x1234);
    dos.int21h_dch_netware_connection_number(&mut cpu, &mut memory);

    assert_eq!(cpu.ax(), 0xDC00);
    assert_eq!(cpu.cx(), 0x1234, "AH=DCh leaves CX untouched on real DOS 6.20");
    assert!(!iret_carry(&memory, &cpu));
}

#[test]
fn carry_in_the_return_frame_is_set_and_cleared() {
    let dos = state();
    let mut memory = SparseMemory::new();
    let mut cpu = CpuRegisters::new();
    cpu.ss = 0x0100;
    cpu.sp = 0x0FF0;
    // Flags word at SS:SP+4 with other bits set.
    memory.write_word(0x1000 + 0x0FF4, 0x7202);
    cpu.set_ax(0x69FF);
    cpu.set_bx(0x0001);
    dos.int21h_69h_get_set_media_info(&mut cpu, &mut memory);
    assert_eq!(cpu.ax(), 0x0001);
    assert!(iret_carry(&memory, &cpu));
    assert_eq!(memory.read_word(0x1FF4), 0x7203);
    dos.int21h_dch_netware_connection_number(&mut cpu, &mut memory);
    assert_eq!(memory.read_word(0x1FF4), 0x7202);
}

#[test]
fn version_and_current_drive() {
    let mut dos = state();
    dos.current_drive = 2;
    let mut cpu = CpuRegisters::new();
    cpu.set_ax(0x30FF);
    cpu.set_bx(0xFFFF);
    dos.int21h_30h_get_version(&mut cpu);
    assert_eq!(cpu.ax(), 0x1406);
    assert_eq!(cpu.bx(), 0);
    cpu.set_ax(0x1977);
    dos.int21h_19h_get_current_drive(&mut cpu);
    assert_eq!(cpu.ax(), 0x1902);
}

#[test]
fn ctrl_break_is_set_swapped_and_read() {
    let mut dos = state();
    let mut cpu = CpuRegisters::new();
    cpu.set_ax(0x3301);
    cpu.set_dx(0xAB01);
    dos.int21h_33h_extended(&mut cpu);
    assert!(dos.ctrl_break);
    cpu.set_ax(0x3300);
    cpu.set_dx(0xAB00);
    dos.int21h_33h_extended(&mut cpu);
    assert_eq!(cpu.dx(), 0xAB01);
    cpu.set_ax(0x3302);
    cpu.set_dx(0x5500);
    dos.int21h_33h_extended(&mut cpu);
    assert!(!dos.ctrl_break);
    assert_eq!(cpu.dx(), 0x5501);
    cpu.set_ax(0x3303);
    dos.int21h_33h_extended(&mut cpu);
    assert_eq!(cpu.ax(), 0x33FF);
    cpu.set_ax(0x3306);
    cpu.set_dx(0x9999);
    dos.int21h_33h_extended(&mut cpu);
    assert_eq!(cpu.bx(), 0x1406);
    assert_eq!(cpu.dx(), 0);
    cpu.set_ax(0x3305);
    cpu.set_bx(0x7777);
    dos.int21h_33h_extended(&mut cpu);
    assert_eq!((cpu.ax(), cpu.bx()), (0x3305, 0x7777));
}

#[test]
fn switch_char_is_set_and_read() {
    let mut dos = state();
    let mut cpu = CpuRegisters::new();
    cpu.set_ax(0x3701);
    cpu.set_dx(0x002D);
    dos.int21h_37h_switch_char(&mut cpu);
    assert_eq!(dos.switch_char, b'-');
    assert_eq!(cpu.ax(), 0x3700);
    cpu.set_ax(0x3700);
    cpu.set_dx(0x1200);
    dos.int21h_37h_switch_char(&mut cpu);
    assert_eq!(cpu.dx(), 0x122D);
    cpu.set_ax(0x3702);
    dos.int21h_37h_switch_char(&mut cpu);
    assert_eq!(cpu.dx(), 0x12FF);
    assert_eq!(cpu.ax(), 0x3700);
    cpu.set_ax(0x3709);
    dos.int21h_37h_switch_char(&mut cpu);
    assert_eq!(cpu.ax(), 0x37FF);
}

#[test]
fn dbcs_table_and_interim_flag() {
    let mut dos = state();
    let mut cpu = CpuRegisters::new();
    cpu.set_ax(0x6300);
    dos.int21h_63h_dbcs_support(&mut cpu);
    assert_eq!(cpu.ds, 0x00B2);
    assert_eq!(cpu.si(), 0x0004);
    cpu.set_ax(0x6301);
    cpu.set_dx(0x0001);
    dos.int21h_63h_dbcs_support(&mut cpu);
    assert_eq!(dos.interim_console_flag, 1);
    cpu.set_ax(0x6302);
    cpu.set_dx(0xEE00);
    dos.int21h_63h_dbcs_support(&mut cpu);
    assert_eq!(cpu.dx(), 0xEE01);
}

#[test]
fn indos_psp_and_return_code() {
    let mut dos = state();
    let mut cpu = CpuRegisters::new();
    dos.int21h_34h_get_indos(&mut cpu);
    assert_eq!((cpu.es(), cpu.bx()), (0x00A3, 0x0001));
    cpu.set_bx(0x2000);
    dos.int21h_50h_set_psp(&cpu);
    cpu.set_bx(0);
    dos.int21h_51h_get_psp(&mut cpu);
    assert_eq!(cpu.bx(), 0x2000);
    cpu.set_bx(0);
    dos.int21h_62h_get_psp(&mut cpu);
    assert_eq!(cpu.bx(), 0x2000);
    dos.last_return_code = 3;
    dos.last_termination_type = 1;
    dos.int21h_4dh_get_return_code(&mut cpu);
    assert_eq!(cpu.ax(), 0x0103);
    dos.int21h_4dh_get_return_code(&mut cpu);
    assert_eq!(cpu.ax(), 0);
}

#[test]
fn dta_set_then_get() {
    let mut dos = state();
    let mut cpu = CpuRegisters::new();
    cpu.set_ds(0x3000);
    cpu.set_dx(0x0100);
    dos.int21h_1ah_set_dta(&cpu);
    assert_eq!(dos.dta_address, 0x30100);
    cpu.set_ds(0);
    cpu.set_dx(0);
    dos.int21h_2fh_get_dta(&mut cpu);
    assert_eq!((cpu.es(), cpu.bx()), (0x3000, 0x0100));
}

#[test]
fn vector_set_then_get() {
    let dos = state();
    let mut memory = SparseMemory::new();
    let mut cpu = CpuRegisters::new();
    cpu.set_ax(0x2521);
    cpu.set_ds(0xF000);
    cpu.set_dx(0x1234);
    dos.int21h_25h_set_interrupt_vector(&cpu, &mut memory);
    assert_eq!(memory.read_word(0x84), 0x1234);
    assert_eq!(memory.read_word(0x86), 0xF000);
    cpu.set_ax(0x3521);
    dos.int21h_35h_get_interrupt_vector(&mut cpu, &memory);
    assert_eq!((cpu.es(), cpu.bx()), (0xF000, 0x1234));
}

#[test]
fn date_and_time_sets_are_accepted() {
    let mut dos = state();
    let mut cpu = CpuRegisters::new();
    cpu.set_ax(0x2B55);
    dos.int21h_2bh_set_date(&mut cpu);
    assert_eq!(cpu.ax(), 0x2B00);
    cpu.set_ax(0x2D55);
    dos.int21h_2dh_set_time(&mut cpu);
    assert_eq!(cpu.ax(), 0x2D00);
}

#[test]
fn media_info_of_a_drive() {
    let mut dos = state();
    dos.current_drive = 1;
    let mut memory = SparseMemory::new();
    let mut cpu = CpuRegisters::new();
    cpu.sp = 0x0100;
    cpu.set_ax(0x6900);
    cpu.set_bx(0x0000);
    cpu.set_ds(0x0200);
    cpu.set_dx(0x0010);
    dos.int21h_69h_get_set_media_info(&mut cpu, &mut memory);
    assert!(!iret_carry(&memory, &cpu));
    let buf = 0x2010;
    assert_eq!(memory.read_word(buf), 0);
    assert_eq!(memory.read_word(buf + 2), 0x1234);
    assert_eq!(memory.read_word(buf + 4), 0x5679);
    let label: Vec<u8> = (0..11).map(|i| memory.read_byte(buf + 6 + i)).collect();
    assert_eq!(label, b"NO NAME    ");
    let fs: Vec<u8> = (0..8).map(|i| memory.read_byte(buf + 17 + i)).collect();
    assert_eq!(fs, b"FAT12   ");

    cpu.set_ax(0x6900);
    cpu.set_bx(27);
    dos.int21h_69h_get_set_media_info(&mut cpu, &mut memory);
    assert_eq!(cpu.ax(), 0x000F);
    assert!(iret_carry(&memory, &cpu));
}

fn cds() -> CdsLayout {
    CdsLayout { base: 0x3000, entry_size: 0x58, path_offset: 0, flags_offset: 0x43 }
}

fn put_cds(memory: &mut SparseMemory, drive: u32, path: &[u8], flags: u16, dpb: (u16, u16)) {
    let entry = 0x3000 + drive * 0x58;
    memory.write_block(entry, path);
    memory.write_byte(entry + path.len() as u32, 0);
    memory.write_word(entry + 0x43, flags);
    memory.write_word(entry + 0x45, dpb.1);
    memory.write_word(entry + 0x47, dpb.0);
}

#[test]
fn current_directory_of_drives() {
    let dos = state();
    let mut memory = SparseMemory::new();
    put_cds(&mut memory, 0, b"A:\\GAMES\\SAVE", 0x4000, (0, 0));
    put_cds(&mut memory, 1, b"B:\\", 0x4000, (0, 0));
    let mut cpu = CpuRegisters::new();
    cpu.sp = 0x0200;
    cpu.set_ds(0x0500);
    cpu.set_si(0x0000);
    cpu.set_dx(0x0000);
    dos.int21h_47h_get_current_directory(&mut cpu, &mut memory, cds());
    assert!(!iret_carry(&memory, &cpu));
    let text: Vec<u8> = (0..11).map(|i| memory.read_byte(0x5000 + i)).collect();
    assert_eq!(text, b"GAMES\\SAVE\0");

    cpu.set_dx(0x0002);
    dos.int21h_47h_get_current_directory(&mut cpu, &mut memory, cds());
    assert_eq!(memory.read_byte(0x5000), 0);

    cpu.set_dx(0x0003);
    cpu.set_ax(0x4700);
    dos.int21h_47h_get_current_directory(&mut cpu, &mut memory, cds());
    assert_eq!(cpu.ax(), 0x000F);
    assert!(iret_carry(&memory, &cpu));
}

#[test]
fn drive_parameter_block_pointers() {
    let mut dos = state();
    let mut memory = SparseMemory::new();
    put_cds(&mut memory, 0, b"A:\\", 0x4000, (0x0070, 0x0123));
    let mut cpu = CpuRegisters::new();
    cpu.set_ax(0x32AA);
    cpu.set_dx(0x0001);
    dos.int21h_32h_get_dpb(&mut cpu, &memory, cds(), 0x45);
    assert_eq!((cpu.ds, cpu.bx(), cpu.ax()), (0x0070, 0x0123, 0x3200));
    cpu.set_ax(0x32AA);
    cpu.set_dx(0x0002);
    dos.int21h_32h_get_dpb(&mut cpu, &memory, cds(), 0x45);
    assert_eq!(cpu.ax(), 0x32FF);
    cpu.set_ax(0x1F00);
    dos.current_drive = 0;
    dos.int21h_1fh_get_dpb_default(&mut cpu, &memory, cds(), 0x45);
    assert_eq!(cpu.ax(), 0x1F00);
    dos.current_drive = 30;
    dos.int21h_1fh_get_dpb_default(&mut cpu, &memory, cds(), 0x45);
    assert_eq!(cpu.ax(), 0x1FFF);
}

#[test]
fn display_character_goes_to_the_console() {
    let mut memory = SparseMemory::new();
    let base = iosys::IOSYS_BASE;
    memory.write_byte(base + iosys::IOSYS_OFF_SCROLL_LOWER, 24);
    memory.write_byte(base + iosys::IOSYS_OFF_DISPLAY_ATTR, 0xE1);
    memory.write_byte(base + iosys::IOSYS_OFF_CLEAR_CHAR, 0x20);
    memory.write_byte(base + iosys::IOSYS_OFF_CLEAR_ATTR, 0xE1);
    let mut console = Console::new();
    let mut cpu = CpuRegisters::new();
    cpu.set_ax(0x0200);
    cpu.set_dx(0x0041);
    int21h_02h_display_character(&mut console, &mut cpu, &mut memory);
    assert_eq!(cpu.ax(), 0x0241);
    assert_eq!(memory.read_byte(vram_char_addr(0, 0)), b'A');
    assert_eq!(console.cursor_col(&memory), 1);
}

#[test]
fn int21h_5802_preserves_function_in_ah() {
    let mut dos = state();
    let mut memory = SparseMemory::new();
    let mut cpu = CpuRegisters::new();
    let umb = Some(UMB_FIRST_MCB_SEGMENT);

    cpu.set_ax(0x5802);
    assert_eq!(dos.int21h_58h_allocation_strategy(&mut cpu, &mut memory, umb), None);

    assert_eq!(cpu.ax(), 0x5800);
    assert!(!iret_carry(&memory, &cpu));

    cpu.set_ax(0x5803);
    cpu.set_bx(1);
    let link = dos.int21h_58h_allocation_strategy(&mut cpu, &mut memory, umb);
    assert_eq!(link, Some(true));
    // The upper memory chain links; the call then completes.
    dos.int21h_58h_link_done(&mut cpu, &mut memory, true, Ok(()));
    assert!(!iret_carry(&memory, &cpu));

    cpu.set_ax(0x5802);
    dos.int21h_58h_allocation_strategy(&mut cpu, &mut memory, umb);

    assert_eq!(cpu.ax(), 0x5801);
    assert!(!iret_carry(&memory, &cpu));
}

#[test]
fn allocation_strategy_is_checked_and_kept() {
    let mut dos = state();
    let mut memory = SparseMemory::new();
    let mut cpu = CpuRegisters::new();
    cpu.set_ax(0x5801);
    cpu.set_bx(0x0081);
    dos.int21h_58h_allocation_strategy(&mut cpu, &mut memory, None);
    assert!(!iret_carry(&memory, &cpu));
    assert_eq!(dos.allocation_strategy, 0x81);
    cpu.set_ax(0x5801);
    cpu.set_bx(0x0003);
    dos.int21h_58h_allocation_strategy(&mut cpu, &mut memory, None);
    assert!(iret_carry(&memory, &cpu));
    assert_eq!(cpu.ax(), 0x0001);
    assert_eq!(dos.allocation_strategy, 0x81);
    cpu.set_ax(0x5800);
    dos.int21h_58h_allocation_strategy(&mut cpu, &mut memory, None);
    assert_eq!(cpu.ax(), 0x0081);
    assert!(!iret_carry(&memory, &cpu));
    // Without upper memory, linking is accepted and stays off.
    dos.umb_link = true;
    cpu.set_ax(0x5803);
    cpu.set_bx(1);
    assert_eq!(dos.int21h_58h_allocation_strategy(&mut cpu, &mut memory, None), None);
    assert!(!dos.umb_link);
    cpu.set_bx(2);
    dos.int21h_58h_allocation_strategy(&mut cpu, &mut memory, None);
    assert!(iret_carry(&memory, &cpu));
    // A failed link reports its error.
    cpu.set_ax(0x5803);
    cpu.set_bx(0);
    assert_eq!(dos.int21h_58h_allocation_strategy(&mut cpu, &mut memory, Some(0xC000)), Some(false));
    dos.int21h_58h_link_done(&mut cpu, &mut memory, false, Err(7));
    assert_eq!(cpu.ax(), 7);
    assert!(iret_carry(&memory, &cpu));
    cpu.set_ax(0x5807);
    dos.int21h_58h_allocation_strategy(&mut cpu, &mut memory, None);
    assert_eq!(cpu.ax(), 1);
}

#[test]
fn route_picks_the_function_from_ah() {
    assert_eq!(int21h_route(0x30, 0x00), Int21Call::GetVersion);
    assert_eq!(int21h_route(0x3D, 0x02), Int21Call::OpenFile);
    assert_eq!(int21h_route(0x44, 0x00), Int21Call::Ioctl);
    assert_eq!(int21h_route(0x5E, 0x00), Int21Call::NetworkUnsupported);
    assert_eq!(int21h_route(0x6B, 0x00), Int21Call::NetworkUnsupported);
    assert_eq!(int21h_route(0x68, 0x00), Int21Call::CommitFile);
    assert_eq!(int21h_route(0x6A, 0x00), Int21Call::CommitFile);
    assert_eq!(int21h_route(0xFF, 0x00), Int21Call::ShellStep);
    assert_eq!(int21h_route(0xEE, 0x00), Int21Call::Unimplemented);
    assert_eq!(int21h_route(0x03, 0x00), Int21Call::Unimplemented);
}

#[test]
fn route_of_flush_depends_on_al() {
    assert_eq!(int21h_route(0x0C, 0x0A), Int21Call::FlushAndInvoke(Some(0x0A)));
    assert_eq!(int21h_route(0x0C, 0x01), Int21Call::FlushAndInvoke(Some(0x01)));
    assert_eq!(int21h_route(0x0C, 0x02), Int21Call::FlushAndInvoke(None));
}

#[test]
fn indos_counts_up_and_down_around_a_call() {
    let dos = state();
    let mut memory = SparseMemory::new();
    memory.write_byte(dos.indos_addr, 0xFF);
    dos.enter_dos(&mut memory);
    assert_eq!(memory.read_byte(dos.indos_addr), 0x00);
    dos.leave_dos(&mut memory);
    assert_eq!(memory.read_byte(dos.indos_addr), 0xFF);
    memory.write_byte(dos.indos_addr, 0x02);
    dos.enter_dos(&mut memory);
    assert_eq!(memory.read_byte(dos.indos_addr), 0x03);
}

#[test]
fn network_calls_fail_with_ax_one() {
    let mut memory = SparseMemory::new();
    let mut cpu = CpuRegisters::new();
    cpu.ss = 0x0100;
    cpu.sp = 0x0FF0;
    memory.write_word(0x1FF4, 0x7202);
    cpu.set_ax(0x5E00);
    int21h_network_unsupported(&mut cpu, &mut memory);
    assert_eq!(cpu.ax(), 0x0001);
    assert_eq!(memory.read_word(0x1FF4), 0x7203);
}

#[test]
fn dispatch_runs_state_calls() {
    let mut dos = state();
    dos.current_drive = 3;
    let mut memory = SparseMemory::new();
    let mut cpu = CpuRegisters::new();
    cpu.set_ax(0x1900);
    assert_eq!(dos.int21h_dispatch(&mut cpu, &mut memory), Int21Call::GetCurrentDrive);
    assert_eq!(cpu.ax(), 0x1903);
    cpu.set_ax(0x3000);
    assert_eq!(dos.int21h_dispatch(&mut cpu, &mut memory), Int21Call::GetVersion);
    assert_eq!(cpu.ax(), 0x1406);
    cpu.set_ax(0x5000);
    cpu.set_bx(0x2222);
    assert_eq!(dos.int21h_dispatch(&mut cpu, &mut memory), Int21Call::SetPsp);
    assert_eq!(dos.current_psp, 0x2222);
    cpu.set_ax(0x61AB);
    assert_eq!(dos.int21h_dispatch(&mut cpu, &mut memory), Int21Call::NetworkReserved);
    assert_eq!(cpu.ax(), 0x6100);
}

#[test]
fn dispatch_sets_and_gets_interrupt_vectors() {
    let dos0 = state();
    let mut dos = state();
    let mut memory = SparseMemory::new();
    let mut cpu = CpuRegisters::new();
    cpu.set_ax(0x2521);
    cpu.set_ds(0xF000);
    cpu.set_dx(0x1234);
    assert_eq!(dos.int21h_dispatch(&mut cpu, &mut memory), Int21Call::SetInterruptVector);
    assert_eq!(memory.read_word(0x84), 0x1234);
    assert_eq!(memory.read_word(0x86), 0xF000);
    cpu.set_ax(0x3521);
    assert_eq!(dos.int21h_dispatch(&mut cpu, &mut memory), Int21Call::GetInterruptVector);
    assert_eq!(cpu.es(), 0xF000);
    assert_eq!(cpu.bx(), 0x1234);
    assert_eq!(dos.current_psp, dos0.current_psp);
}

#[test]
fn dispatch_leaves_other_calls_to_the_caller() {
    let mut dos = state();
    let mut memory = SparseMemory::new();
    let mut cpu = CpuRegisters::new();
    cpu.set_ax(0x3D02);
    cpu.set_dx(0x5555);
    assert_eq!(dos.int21h_dispatch(&mut cpu, &mut memory), Int21Call::OpenFile);
    assert_eq!(cpu.ax(), 0x3D02);
    assert_eq!(cpu.dx(), 0x5555);
}
