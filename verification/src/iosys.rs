//! Layout of the IO.SYS console work area and of the text VRAM.

use vstd::prelude::*;

verus! {

/// Linear address of the IO.SYS work area (segment 0060h).
pub const IOSYS_BASE: u32 = 0x0600;

pub const IOSYS_OFF_KANJI_MODE: u32 = 0x008A;
pub const IOSYS_OFF_GRAPH_CHAR: u32 = 0x008B;
pub const IOSYS_OFF_CURSOR_Y: u32 = 0x0110;
pub const IOSYS_OFF_FNKEY_DISPLAY: u32 = 0x0111;
pub const IOSYS_OFF_SCROLL_LOWER: u32 = 0x0112;
pub const IOSYS_OFF_SCREEN_LINES: u32 = 0x0113;
pub const IOSYS_OFF_CLEAR_ATTR: u32 = 0x0114;
pub const IOSYS_OFF_KANJI_HI_FLAG: u32 = 0x0115;
pub const IOSYS_OFF_KANJI_HI_BYTE: u32 = 0x0116;
pub const IOSYS_OFF_LINE_WRAP: u32 = 0x0117;
pub const IOSYS_OFF_CLEAR_CHAR: u32 = 0x0119;
pub const IOSYS_OFF_CURSOR_VISIBLE: u32 = 0x011B;
pub const IOSYS_OFF_CURSOR_X: u32 = 0x011C;
pub const IOSYS_OFF_DISPLAY_ATTR: u32 = 0x011D;
pub const IOSYS_OFF_SCROLL_UPPER: u32 = 0x011E;
pub const IOSYS_OFF_SAVED_CURSOR_Y: u32 = 0x0126;
pub const IOSYS_OFF_SAVED_CURSOR_X: u32 = 0x0127;
pub const IOSYS_OFF_SAVED_CURSOR_ATTR: u32 = 0x012B;

/// First byte of the text character plane.
pub const TEXT_CHAR_BASE: u32 = 0xA0000;
/// First byte of the text attribute plane.
pub const TEXT_ATTR_BASE: u32 = 0xA2000;
/// Characters per text row.
pub const COLUMNS: u8 = 80;

} // verus!
