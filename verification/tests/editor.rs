use neetan_dos::file_io::{ioctl44_answer, open_decision, CharDevice, IoctlReply, OpenDrive, OpenLookup, OpenTarget};
use neetan_dos::editor::request_editor_leave;
use neetan_dos::editor::handle_prompt_field_key;
use neetan_dos::editor::{
    editor_key, overlay_key, picker_key, EditorAction, OverlayAction, PickerAction,
};
use neetan_dos::dialog::{DeleteConfirm, Overlay, PendingAction};
use neetan_dos::input::{SCAN_DOWN, SCAN_F3, SCAN_F7, SCAN_RIGHT, SCAN_UP};
use neetan_dos::file_io::{
    cdrom_sft_name, path_is_cdrom_device, path_is_ems_device, path_is_named_device,
    path_is_xms_device,
};
use neetan_dos::file_io::{read_dword, write_dword};
use neetan_dos::input::{SCAN_F1, SCAN_HOME};
use neetan_dos::input::{SCAN_DELETE, SCAN_F2, SCAN_LEFT};
use neetan_dos::memory::{MemoryAccess, SparseMemory};
use neetan_dos::text_buffer::TextBuffer;
use neetan_dos::dialog::{FileMenuItem, ListDialog, TextPrompt};
use neetan_dos::dos::normalize_path;
use neetan_dos::file_picker::{
    cmp_display_bytes, join_path, parent_directory, FilePickerEntry, FilePickerEntryKind,
    FilePickerState, PickerFocus,
};
use neetan_dos::filesystem::{is_dbcs_lead_byte, split_path};
use neetan_dos::input::{is_text_input_byte, ByteField};
use std::cmp::Ordering;

#[test]
fn byte_field_editing() {
    let mut field = ByteField::new(b"AC".to_vec());
    assert_eq!(field.cursor, 2);
    field.move_left();
    field.insert_byte(b'B');
    assert_eq!(field.bytes(), b"ABC");
    assert_eq!(field.cursor, 2);
    field.backspace();
    assert_eq!(field.bytes(), b"AC");
    field.move_home();
    field.backspace();
    assert_eq!(field.bytes(), b"AC");
    field.delete();
    assert_eq!(field.bytes(), b"C");
    field.move_end();
    field.delete();
    assert_eq!(field.bytes(), b"C");
    field.move_right();
    assert_eq!(field.cursor, 1);
    field.set_bytes(b"XYZ".to_vec());
    assert_eq!(field.cursor, 3);
}

#[test]
fn text_input_bytes() {
    assert!(is_text_input_byte(b'a'));
    assert!(is_text_input_byte(0x81));
    assert!(is_text_input_byte(0xA1));
    assert!(!is_text_input_byte(0x1B));
    assert!(!is_text_input_byte(0x0D));
}

#[test]
fn list_dialog_moves_within_bounds() {
    let mut dialog = ListDialog::new();
    dialog.move_up(3);
    assert_eq!(dialog.selected, 0);
    dialog.move_down(3);
    dialog.move_down(3);
    dialog.move_down(3);
    assert_eq!(dialog.selected, 2);
    dialog.move_up(3);
    assert_eq!(dialog.selected, 1);
    dialog.move_up(0);
    assert_eq!(dialog.selected, 0);
    dialog.move_down(0);
    assert_eq!(dialog.selected, 0);
}

#[test]
fn file_menu_labels() {
    let items = FileMenuItem::all();
    assert_eq!(items[0].label(), b"Open...".to_vec());
    assert_eq!(items[1].label(), b"Save".to_vec());
    assert_eq!(items[2].label(), b"Save As...".to_vec());
    let prompt = TextPrompt::new(b"Save As", b"A:\\X.TXT".to_vec());
    assert_eq!(prompt.title, b"Save As".to_vec());
    assert_eq!(prompt.field.cursor, 8);
}

#[test]
fn paths_normalize() {
    assert_eq!(normalize_path(b"A:\\FOO\\BAR\\..\\BAZ"), b"A:\\FOO\\BAZ".to_vec());
    assert_eq!(normalize_path(b"A:\\FOO\\.\\\\BAR\\"), b"A:\\FOO\\BAR".to_vec());
    assert_eq!(normalize_path(b"A:"), b"A:\\".to_vec());
    assert_eq!(normalize_path(b"A:\\.."), b"A:\\".to_vec());
    assert_eq!(normalize_path(b"A:FOO"), b"A:FOO".to_vec());
    assert_eq!(normalize_path(b"FOO\\..\\BAR"), b"BAR".to_vec());
    assert_eq!(normalize_path(b""), Vec::<u8>::new());
}

#[test]
fn paths_split_with_double_byte_names() {
    let (drive, components, absolute) = split_path(b"c:\\DIR\\FILE.TXT");
    assert_eq!(drive, Some(2));
    assert!(absolute);
    assert_eq!(components, vec![&b"DIR"[..], &b"FILE.TXT"[..]]);
    // 0x95 0x5C is one double-byte character whose trail byte is a backslash.
    let (drive, components, absolute) = split_path(b"\x95\x5C\\B");
    assert_eq!(drive, None);
    assert!(!absolute);
    assert_eq!(components, vec![&b"\x95\x5C"[..], &b"B"[..]]);
    let (_, components, _) = split_path(b"A\x00B");
    assert_eq!(components, vec![&b"A"[..]]);
    let (drive, components, absolute) = split_path(b"");
    assert_eq!((drive, components.len(), absolute), (None, 0, false));
    assert!(is_dbcs_lead_byte(0x81));
    assert!(!is_dbcs_lead_byte(0x41));
}

#[test]
fn picker_paths() {
    assert_eq!(parent_directory(b"A:\\FOO\\BAR"), b"A:\\FOO".to_vec());
    assert_eq!(parent_directory(b"A:\\FOO"), b"A:\\".to_vec());
    assert_eq!(parent_directory(b"C:\\A\\B\\C\\"), b"C:\\A\\B".to_vec());
    assert_eq!(join_path(b"A:\\FOO", b"X.TXT"), b"A:\\FOO\\X.TXT".to_vec());
    assert_eq!(join_path(b"A:", b"X.TXT"), b"A:\\X.TXT".to_vec());
    assert_eq!(cmp_display_bytes(b"abc", b"ABD"), Ordering::Less);
    assert_eq!(cmp_display_bytes(b"abc", b"ABC"), Ordering::Equal);
    assert_eq!(cmp_display_bytes(b"abcd", b"ABC"), Ordering::Greater);
}

fn picker_with(count: usize) -> FilePickerState {
    let mut picker = FilePickerState::new(b"A:\\".to_vec(), PickerFocus::List);
    for i in 0..count {
        picker.entries.push(FilePickerEntry {
            kind: FilePickerEntryKind::File,
            display_name: format!("F{i}").into_bytes(),
            full_path: format!("A:\\F{i}").into_bytes(),
            size: i as u32,
        });
    }
    picker
}

#[test]
fn picker_navigation_scrolls() {
    let mut picker = picker_with(30);
    picker.move_down();
    assert_eq!(picker.selected, 1);
    assert_eq!(picker.current_path_bytes(), b"A:\\F1".to_vec());
    picker.page_down();
    assert_eq!(picker.selected, 19);
    assert_eq!(picker.scroll, 2);
    picker.move_end();
    assert_eq!(picker.selected, 29);
    assert_eq!(picker.scroll, 12);
    picker.page_up();
    assert_eq!(picker.selected, 11);
    assert_eq!(picker.scroll, 0);
    picker.move_up();
    assert_eq!(picker.selected, 10);
    picker.move_home();
    assert_eq!((picker.selected, picker.scroll), (0, 0));
    assert_eq!(picker.selected_entry().map(|e| e.size), Some(0));
    let mut empty = picker_with(0);
    empty.move_down();
    empty.page_down();
    empty.move_end();
    assert_eq!(empty.selected, 0);
    assert!(empty.selected_entry().is_none());
    empty.sync_path_with_selection();
    assert_eq!(empty.current_path_bytes(), b"A:\\".to_vec());
}

#[test]
fn editor_keys_edit_and_report_actions() {
    let mut buffer = TextBuffer::from_bytes(b"A:\\T.TXT".to_vec(), b"AB", false);
    assert_eq!(editor_key(&mut buffer, 0, b'x'), (EditorAction::Edit, false));
    assert_eq!(buffer.encode(), b"xAB".to_vec());
    assert_eq!(editor_key(&mut buffer, SCAN_LEFT, 0), (EditorAction::Edit, false));
    assert_eq!(buffer.cursor_index, 0);
    assert_eq!(editor_key(&mut buffer, SCAN_DELETE, 0), (EditorAction::Edit, false));
    assert_eq!(buffer.encode(), b"AB".to_vec());
    assert_eq!(editor_key(&mut buffer, 0, 0x0D), (EditorAction::Edit, false));
    assert_eq!(buffer.encode(), b"\r\nAB".to_vec());
    assert_eq!(editor_key(&mut buffer, SCAN_F2, 0), (EditorAction::Save, false));
    assert_eq!(editor_key(&mut buffer, 0, 0x1B), (EditorAction::Leave, false));
}

#[test]
fn editor_read_only_buffer_warns() {
    let mut buffer = TextBuffer::from_bytes(b"A:\\T.TXT".to_vec(), b"AB", true);
    assert_eq!(editor_key(&mut buffer, 0, 0x08), (EditorAction::Edit, true));
    assert_eq!(editor_key(&mut buffer, 0, b'x'), (EditorAction::Edit, false));
    assert_eq!(buffer.encode(), b"AB".to_vec());
}

#[test]
fn prompt_field_keys() {
    let mut field = ByteField::new(b"AB".to_vec());
    assert!(handle_prompt_field_key(&mut field, 0, b'C'));
    assert_eq!(field.bytes, b"ABC".to_vec());
    assert!(handle_prompt_field_key(&mut field, SCAN_HOME, 0));
    assert_eq!(field.cursor, 0);
    assert!(!handle_prompt_field_key(&mut field, SCAN_F1, 0));
    assert_eq!(field.bytes, b"ABC".to_vec());
}

#[test]
fn device_names_in_paths() {
    assert!(path_is_named_device(b"C:\\DEV\\con.txt", b"CON     "));
    assert!(path_is_named_device(b"con:", b"CON     "));
    assert!(!path_is_named_device(b"CONX", b"CON     "));
    assert!(!path_is_named_device(b"C:\\", b"CON     "));
    assert!(path_is_ems_device(b"\\emmxxxx0"));
    assert!(!path_is_ems_device(b"EMMXXXX01"));
    assert!(path_is_xms_device(b"a:XMSXXXX0.SYS"));
    assert!(path_is_cdrom_device(b"mscd001", b"MSCD001"));
    assert!(path_is_cdrom_device(b"ABCDEFGH", b"ABCDEFGHIJ"));
    assert_eq!(&cdrom_sft_name(b"MSCD001"), b"MSCD001    ");
    assert_eq!(&cdrom_sft_name(b"ABCDEFGHIJ"), b"ABCDEFGH   ");
}

#[test]
fn dwords_in_memory() {
    let mut memory = SparseMemory::new();
    write_dword(&mut memory, 0x100, 0x1234_5678);
    assert_eq!(memory.read_byte(0x100), 0x78);
    assert_eq!(memory.read_byte(0x103), 0x12);
    assert_eq!(read_dword(&memory, 0x100), 0x1234_5678);
}

#[test]
fn picker_keys_in_the_list() {
    let mut picker = picker_with(3);
    assert_eq!(picker_key(&mut picker, SCAN_DOWN, 0), PickerAction::Stay);
    assert_eq!(picker.selected, 1);
    assert_eq!(picker.current_path_bytes(), b"A:\\F1".to_vec());
    assert_eq!(picker_key(&mut picker, SCAN_RIGHT, 0), PickerAction::OpenSelection);
    assert_eq!(picker_key(&mut picker, 0, 0x0D), PickerAction::OpenSelection);
    assert_eq!(picker_key(&mut picker, 0, 0x1B), PickerAction::Exit);
    assert_eq!(picker_key(&mut picker, SCAN_F1, 0), PickerAction::DriveMenu);
    assert_eq!(picker.selected, 1);
}

#[test]
fn picker_goes_to_the_parent() {
    let mut picker = FilePickerState::new(b"A:\\DOS\\SUB".to_vec(), PickerFocus::List);
    assert_eq!(picker_key(&mut picker, SCAN_F7, 0), PickerAction::Reload);
    assert_eq!(picker.directory_path, b"A:\\DOS".to_vec());
    assert_eq!(picker_key(&mut picker, SCAN_LEFT, 0), PickerAction::Reload);
    assert_eq!(picker.directory_path, b"A:\\".to_vec());
}

#[test]
fn picker_tab_and_path_field() {
    let mut picker = picker_with(2);
    assert_eq!(picker_key(&mut picker, 0, 0x09), PickerAction::Stay);
    assert_eq!(picker.focus, PickerFocus::Path);
    assert_eq!(picker_key(&mut picker, 0, b'X'), PickerAction::Stay);
    assert_eq!(picker.current_path_bytes(), b"A:\\X".to_vec());
    assert_eq!(picker_key(&mut picker, SCAN_LEFT, 0), PickerAction::Stay);
    assert_eq!(picker_key(&mut picker, 0, 0x7F), PickerAction::Stay);
    assert_eq!(picker.current_path_bytes(), b"A:\\".to_vec());
    assert_eq!(picker_key(&mut picker, 0, 0x0D), PickerAction::OpenPath);
    assert_eq!(picker_key(&mut picker, 0, 0x09), PickerAction::Stay);
    assert_eq!(picker.focus, PickerFocus::List);
    assert_eq!(picker.current_path_bytes(), b"A:\\F0".to_vec());
}

#[test]
fn drive_dialog_keys() {
    let overlay = Overlay::DriveSelect { drives: vec![0, 2], dialog: ListDialog::new() };
    let step = overlay_key(overlay, SCAN_DOWN, 0, b"");
    assert!(matches!(step.action, OverlayAction::Stay));
    let overlay = step.overlay.unwrap();
    match &overlay {
        Overlay::DriveSelect { dialog, .. } => assert_eq!(dialog.selected, 1),
        _ => panic!("wrong dialog"),
    }
    let step = overlay_key(overlay, 0, 0x0D, b"");
    assert!(step.overlay.is_none());
    assert!(matches!(step.action, OverlayAction::OpenDrive(2)));
}

#[test]
fn prompt_dialog_keys() {
    let overlay = Overlay::CreateDirectory(TextPrompt::new(b"Create Folder", b"A:\\".to_vec()));
    let step = overlay_key(overlay, 0, b'N', b"");
    let overlay = step.overlay.unwrap();
    let step = overlay_key(overlay, 0, 0x0D, b"");
    match step.action {
        OverlayAction::CreateDirectory(path) => assert_eq!(path, b"A:\\N".to_vec()),
        other => panic!("unexpected {:?}", other),
    }
    assert!(matches!(step.overlay, Some(Overlay::CreateDirectory(_))));
    let step = overlay_key(step.overlay.unwrap(), 0, 0x1B, b"");
    assert!(step.overlay.is_none());
}

#[test]
fn file_menu_keys() {
    let step = overlay_key(Overlay::FileMenu(ListDialog::new()), 0, 0x0D, b"A:\\T.TXT");
    assert!(step.overlay.is_none());
    assert!(matches!(step.action, OverlayAction::LeaveEditor(PendingAction::OpenFilePicker)));
    let mut dialog = ListDialog::new();
    dialog.move_down(3);
    dialog.move_down(3);
    let step = overlay_key(Overlay::FileMenu(dialog), 0, 0x0D, b"A:\\T.TXT");
    match step.overlay {
        Some(Overlay::SaveAs(prompt)) => {
            assert_eq!(prompt.title, b"Save As".to_vec());
            assert_eq!(prompt.field.bytes, b"A:\\T.TXT".to_vec());
        }
        other => panic!("unexpected {:?}", other),
    }
    let mut dialog = ListDialog::new();
    dialog.move_down(3);
    let step = overlay_key(Overlay::FileMenu(dialog), SCAN_UP, 0, b"");
    assert!(matches!(step.overlay, Some(Overlay::FileMenu(ListDialog { selected: 0 }))));
}

#[test]
fn confirm_and_unsaved_dialogs() {
    let confirm = DeleteConfirm {
        display_name: b"F.TXT".to_vec(),
        full_path: b"A:\\F.TXT".to_vec(),
        is_directory: false,
    };
    let step = overlay_key(Overlay::DeleteConfirm(confirm), 0, 0x0D, b"");
    assert!(step.overlay.is_none());
    match step.action {
        OverlayAction::Delete(c) => assert_eq!(c.full_path, b"A:\\F.TXT".to_vec()),
        other => panic!("unexpected {:?}", other),
    }
    let step = overlay_key(Overlay::UnsavedChanges(PendingAction::OpenFilePicker), SCAN_F2, 0, b"");
    assert!(step.overlay.is_some());
    assert!(matches!(step.action, OverlayAction::SaveThen(PendingAction::OpenFilePicker)));
    let step = overlay_key(Overlay::UnsavedChanges(PendingAction::OpenFilePicker), SCAN_F3, 0, b"");
    assert!(step.overlay.is_none());
    assert!(matches!(step.action, OverlayAction::Run(PendingAction::OpenFilePicker)));
}

#[test]
fn normalizing_twice_changes_nothing() {
    for path in [
        &b"A:\\FOO\\BAR\\..\\BAZ"[..],
        &b"A:FOO\\.\\BAR\\\\"[..],
        &b"..\\..\\X"[..],
        &b"A:"[..],
        &b"\\A\\B\\..\\..\\..\\C"[..],
    ] {
        let once = normalize_path(path);
        assert_eq!(normalize_path(&once), once);
    }
}

#[test]
fn leaving_with_unsaved_changes_asks_first() {
    assert!(matches!(
        request_editor_leave(false, PendingAction::OpenFilePicker),
        Ok(PendingAction::OpenFilePicker)
    ));
    assert!(matches!(
        request_editor_leave(true, PendingAction::OpenFilePicker),
        Err(Overlay::UnsavedChanges(PendingAction::OpenFilePicker))
    ));
}

#[test]
fn keys_one_after_another_while_there_is_room() {
    let mut buffer = TextBuffer::from_bytes(b"A:\\T.TXT".to_vec(), b"AB\r\nCD", false);
    let keys = [(0, b'x'), (0, 0x0D), (0, 0x08), (SCAN_DELETE, 0), (0, 0x09), (SCAN_LEFT, 0), (0, 0x08)];
    for (scan, ch) in keys {
        assert!(buffer.has_key_room());
        editor_key(&mut buffer, scan, ch);
    }
    assert_eq!(buffer.encode(), b"\tB\r\nCD".to_vec());
}

#[test]
fn open_decisions() {
    let found = OpenLookup {
        ems_available: true,
        xms_enabled: true,
        drive: Ok(OpenDrive::Fat),
        entry: Ok(Some(false)),
        handle: Ok(()),
    };
    assert_eq!(open_decision(b"EMMXXXX0", 0, b"MSCD001", found), Ok(OpenTarget::Ems));
    let no_ems = OpenLookup { ems_available: false, ..found };
    assert_eq!(open_decision(b"EMMXXXX0", 0, b"MSCD001", no_ems), Ok(OpenTarget::FatFile(0)));
    assert_eq!(open_decision(b"XMSXXXX0", 2, b"MSCD001", found), Ok(OpenTarget::Xms));
    assert_eq!(open_decision(b"MSCD001", 0, b"MSCD001", found), Ok(OpenTarget::Cdrom));
    assert_eq!(open_decision(b"A:\\DEV\\NUL", 1, b"MSCD001", found), Ok(OpenTarget::Device(CharDevice::Nul)));
    assert_eq!(open_decision(b"con", 0, b"MSCD001", found), Ok(OpenTarget::Device(CharDevice::Con)));
    assert_eq!(open_decision(b"A:\\FILE.TXT", 0x42, b"MSCD001", found), Ok(OpenTarget::FatFile(2)));
    let dir = OpenLookup { entry: Ok(Some(true)), ..found };
    assert_eq!(open_decision(b"A:\\SUB", 0, b"MSCD001", dir), Err(5));
    let missing = OpenLookup { entry: Ok(None), ..found };
    assert_eq!(open_decision(b"A:\\NONE", 0, b"MSCD001", missing), Err(2));
    let bad_path = OpenLookup { drive: Err(3), ..found };
    assert_eq!(open_decision(b"A:\\X\\Y", 0, b"MSCD001", bad_path), Err(3));
    let z = OpenLookup { drive: Ok(OpenDrive::Virtual), ..found };
    assert_eq!(open_decision(b"Z:\\CMD.COM", 1, b"MSCD001", z), Err(5));
    assert_eq!(open_decision(b"Z:\\CMD.COM", 0, b"MSCD001", z), Ok(OpenTarget::VirtualFile));
    let iso = OpenLookup { drive: Ok(OpenDrive::Iso), ..found };
    assert_eq!(open_decision(b"Q:\\README", 0, b"MSCD001", iso), Ok(OpenTarget::IsoFile));
    assert_eq!(open_decision(b"Q:\\README", 2, b"MSCD001", iso), Err(5));
    let full = OpenLookup { handle: Err(4), ..iso };
    assert_eq!(open_decision(b"Q:\\README", 2, b"MSCD001", full), Err(4));
    assert_eq!(open_decision(b"NUL", 0, b"MSCD001", full), Err(4));
}

#[test]
fn ioctl_answers() {
    assert_eq!(ioctl44_answer(0x00, 0x4400, 0, Ok(0xC0D3), false, 0), Ok(IoctlReply::Regs { ax: 0xC0D3, dx: 0xC0D3 }));
    assert_eq!(ioctl44_answer(0x00, 0x4400, 0, Err(6), false, 0), Err(6));
    assert_eq!(ioctl44_answer(0x01, 0x4401, 0x1234, Ok(0x80D3), false, 0), Ok(IoctlReply::SetDeviceWord(0x8034)));
    assert_eq!(ioctl44_answer(0x02, 0x4402, 0, Ok(0xC0C0), true, 0), Ok(IoctlReply::ControlChannel { write: false }));
    assert_eq!(ioctl44_answer(0x03, 0x4403, 0, Ok(0xC0C0), true, 0), Ok(IoctlReply::ControlChannel { write: true }));
    assert_eq!(ioctl44_answer(0x02, 0x4402, 0, Ok(0x80C0), true, 0), Err(1));
    assert_eq!(ioctl44_answer(0x02, 0x4402, 0, Ok(0xC0C0), false, 0), Err(1));
    assert_eq!(ioctl44_answer(0x06, 0x4406, 7, Err(6), false, 0), Ok(IoctlReply::Regs { ax: 0x44FF, dx: 7 }));
    assert_eq!(ioctl44_answer(0x08, 0x4408, 0, Ok(0), false, 0x90), Ok(IoctlReply::Regs { ax: 0x4400, dx: 0 }));
    assert_eq!(ioctl44_answer(0x08, 0x4408, 0, Ok(0), false, 0x71), Ok(IoctlReply::Regs { ax: 0x4400, dx: 0 }));
    assert_eq!(ioctl44_answer(0x08, 0x4408, 0, Ok(0), false, 0x80), Ok(IoctlReply::Regs { ax: 0x4401, dx: 0 }));
    assert_eq!(ioctl44_answer(0x0D, 0x440D, 0, Ok(0), false, 0), Ok(IoctlReply::Unsupported));
}
