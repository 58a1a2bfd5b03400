use neetan_dos::text_buffer::{TextBuffer, TextUnit};

#[test]
fn parses_all_line_endings() {
    let buffer =
        TextBuffer::from_bytes(b"A:\\TEST.TXT".to_vec(), b"ONE\rTWO\nTHREE\r\nFOUR", false);

    assert_eq!(buffer.lines.len(), 4);
}

#[test]
fn encodes_with_crlf() {
    let buffer =
        TextBuffer::from_bytes(b"A:\\TEST.TXT".to_vec(), b"ONE\rTWO\nTHREE\r\nFOUR", false);

    assert_eq!(buffer.encode(), b"ONE\r\nTWO\r\nTHREE\r\nFOUR");
}

#[test]
fn preserves_invalid_bytes() {
    let buffer = TextBuffer::from_bytes(b"A:\\RAW.TXT".to_vec(), b"\x82\x20X", false);
    assert_eq!(buffer.encode(), b"\x82\x20X");
}

#[test]
fn displays_dos_eof_byte_with_native_glyph() {
    assert_eq!(TextUnit::Raw(0x1A).display_char(), 0x1A);
}

#[test]
fn other_control_bytes_display_as_question_mark() {
    assert_eq!(TextUnit::Raw(0x01).display_char(), 0x3F);
    assert_eq!(TextUnit::Char(0x2422).display_char(), 0x2422);
}

#[test]
fn unit_widths() {
    assert_eq!(TextUnit::Char(0x41).display_width(), 1);
    assert_eq!(TextUnit::Char(0x2422).display_width(), 2);
    assert_eq!(TextUnit::Raw(0x09).display_width(), 1);
}

#[test]
fn decodes_shift_jis_pairs() {
    // 82 A0 is hiragana a, JIS 2422h.
    let buffer = TextBuffer::from_bytes(b"A:\\J.TXT".to_vec(), b"\x82\xA0A", false);
    assert_eq!(buffer.lines[0].units, vec![TextUnit::Char(0x2422), TextUnit::Char(0x41)]);
    assert_eq!(buffer.encode(), b"\x82\xA0A");
}

#[test]
fn control_bytes_are_kept_raw() {
    let buffer = TextBuffer::from_bytes(b"A:\\C.TXT".to_vec(), b"\tX\x1A", false);
    assert_eq!(
        buffer.lines[0].units,
        vec![TextUnit::Raw(0x09), TextUnit::Char(0x58), TextUnit::Raw(0x1A)]
    );
    assert_eq!(buffer.encode(), b"\tX\x1A");
}

#[test]
fn empty_file_has_one_empty_line() {
    let buffer = TextBuffer::from_bytes(b"A:\\E.TXT".to_vec(), b"", false);
    assert_eq!(buffer.lines.len(), 1);
    assert!(buffer.encode().is_empty());
    let fresh = TextBuffer::new(b"A:\\N.TXT".to_vec(), false);
    assert_eq!(fresh.lines.len(), 1);
    assert!(fresh.insert_mode);
    assert!(!fresh.modified);
}

#[test]
fn typing_inserts_and_backspace_restores() {
    let mut buffer = TextBuffer::from_bytes(b"A:\\T.TXT".to_vec(), b"AC", false);
    buffer.move_right();
    buffer.insert_input_byte(b'B');
    assert_eq!(buffer.encode(), b"ABC");
    assert_eq!(buffer.cursor_index, 2);
    assert!(buffer.modified);
    buffer.backspace();
    assert_eq!(buffer.encode(), b"AC");
    assert_eq!(buffer.cursor_index, 1);
}

#[test]
fn overwrite_mode_replaces_the_unit_at_the_cursor() {
    let mut buffer = TextBuffer::from_bytes(b"A:\\T.TXT".to_vec(), b"AC", false);
    buffer.toggle_insert_mode();
    buffer.insert_input_byte(b'X');
    assert_eq!(buffer.encode(), b"XC");
    buffer.move_end();
    buffer.insert_input_byte(b'Y');
    assert_eq!(buffer.encode(), b"XCY");
}

#[test]
fn shift_jis_input_waits_for_trail_byte() {
    let mut buffer = TextBuffer::new(b"A:\\T.TXT".to_vec(), false);
    buffer.insert_input_byte(0x82);
    assert_eq!(buffer.lines[0].units.len(), 0);
    buffer.insert_input_byte(0xA0);
    assert_eq!(buffer.lines[0].units, vec![TextUnit::Char(0x2422)]);
    assert_eq!(buffer.visual_cursor_col(), 2);
}

#[test]
fn lone_lead_byte_is_kept_raw() {
    let mut buffer = TextBuffer::new(b"A:\\T.TXT".to_vec(), false);
    buffer.insert_input_byte(0x82);
    buffer.insert_input_byte(b' ');
    assert_eq!(buffer.lines[0].units, vec![TextUnit::Raw(0x82), TextUnit::Char(0x20)]);
    buffer.insert_input_byte(0x82);
    buffer.flush_pending_input();
    assert_eq!(buffer.lines[0].units.len(), 3);
}

#[test]
fn split_and_join_lines() {
    let mut buffer = TextBuffer::from_bytes(b"A:\\T.TXT".to_vec(), b"ABCD", false);
    buffer.move_right();
    buffer.move_right();
    buffer.split_line();
    assert_eq!(buffer.encode(), b"AB\r\nCD");
    assert_eq!((buffer.cursor_line, buffer.cursor_index), (1, 0));
    buffer.backspace();
    assert_eq!(buffer.encode(), b"ABCD");
    assert_eq!((buffer.cursor_line, buffer.cursor_index), (0, 2));
    buffer.split_line();
    buffer.move_left();
    buffer.delete();
    assert_eq!(buffer.encode(), b"ABCD");
    buffer.delete();
    assert_eq!(buffer.encode(), b"ABD");
}

#[test]
fn read_only_buffer_ignores_edits() {
    let mut buffer = TextBuffer::from_bytes(b"A:\\T.TXT".to_vec(), b"AB", true);
    buffer.insert_input_byte(b'X');
    buffer.backspace();
    buffer.delete();
    buffer.split_line();
    assert_eq!(buffer.encode(), b"AB");
    assert!(!buffer.modified);
}

#[test]
fn cursor_moves_across_lines() {
    let mut buffer = TextBuffer::from_bytes(b"A:\\T.TXT".to_vec(), b"AB\r\nC", false);
    buffer.move_end();
    buffer.move_right();
    assert_eq!((buffer.cursor_line, buffer.cursor_index), (1, 0));
    buffer.move_left();
    assert_eq!((buffer.cursor_line, buffer.cursor_index), (0, 2));
    buffer.move_down();
    assert_eq!((buffer.cursor_line, buffer.cursor_index), (1, 1));
    buffer.move_up();
    assert_eq!((buffer.cursor_line, buffer.cursor_index), (0, 1));
    buffer.move_home();
    assert_eq!(buffer.cursor_index, 0);
}

#[test]
fn vertical_moves_keep_the_screen_column() {
    // Line 0 holds two wide characters, line 1 four narrow ones.
    let mut buffer =
        TextBuffer::from_bytes(b"A:\\T.TXT".to_vec(), b"\x82\xA0\x82\xA0\r\nabcd", false);
    buffer.move_right();
    assert_eq!(buffer.visual_cursor_col(), 2);
    buffer.move_down();
    assert_eq!(buffer.cursor_index, 2);
    buffer.move_right();
    buffer.move_up();
    assert_eq!(buffer.cursor_index, 2);
    assert_eq!(buffer.index_for_visual_col(0, 1), 1);
    assert_eq!(buffer.visual_width_for_index(0, 9), 4);
    assert_eq!(buffer.visual_width_for_index(7, 1), 0);
}

#[test]
fn paging_scrolls_the_viewport() {
    let mut text = Vec::new();
    for _ in 0..40 {
        text.extend_from_slice(b"x\r\n");
    }
    let mut buffer = TextBuffer::from_bytes(b"A:\\T.TXT".to_vec(), &text, false);
    buffer.page_down();
    assert_eq!(buffer.cursor_line, 19);
    assert_eq!(buffer.viewport_top, 1);
    buffer.page_down();
    buffer.page_down();
    assert_eq!(buffer.cursor_line, 40);
    assert_eq!(buffer.viewport_top, 22);
    buffer.page_up();
    assert_eq!(buffer.cursor_line, 21);
    assert_eq!(buffer.viewport_top, 21);
}

#[test]
fn long_lines_scroll_horizontally() {
    let text = vec![b'a'; 100];
    let mut buffer = TextBuffer::from_bytes(b"A:\\T.TXT".to_vec(), &text, false);
    buffer.move_end();
    assert_eq!(buffer.horizontal_scroll, 21);
    let mut shown = Vec::new();
    buffer.fill_visible_units(0, 80, &mut shown);
    assert_eq!(shown.len(), 79);
    buffer.fill_visible_units(5, 80, &mut shown);
    assert!(shown.is_empty());
}

#[test]
fn insert_tab_and_path_changes() {
    let mut buffer = TextBuffer::new(b"A:\\T.TXT".to_vec(), false);
    buffer.insert_tab();
    assert_eq!(buffer.encode(), b"\t");
    buffer.set_path(b"A:\\U.TXT".to_vec());
    assert_eq!(buffer.path, b"A:\\U.TXT".to_vec());
    buffer.clear_modified();
    assert!(!buffer.modified);
}
