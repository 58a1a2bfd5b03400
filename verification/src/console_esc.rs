//! The console's escape-sequence state machine and byte processing.

use vstd::prelude::*;

use crate::console::{
    advance_ok, backspace_image, carriage_return_image, clear_from_cursor_image,
    clear_line_from_image, clear_line_image, clear_line_to_image, clear_screen_image,
    clear_to_cursor_image, cursor_col_of, cursor_down_image, cursor_left_image,
    cursor_position_image, cursor_right_image, cursor_row_of, cursor_up_image,
    display_attr_of, fullwidth_image, fullwidth_ok, linefeed_image, linefeed_ok,
    pending_lead_of, put_char_image, restore_cursor_image, reverse_linefeed_image,
    reverse_linefeed_ok, save_cursor_image, scroll_down_image, scroll_region_ok,
    scroll_up_image, tab_image, without_pending_lead, Console, CURSOR_VISIBLE_ADDR,
    DISPLAY_ATTR_ADDR, LINE_WRAP_ADDR, SCREEN_LINES_ADDR, SCROLL_LOWER_ADDR,
};
use crate::iosys::{IOSYS_BASE, IOSYS_OFF_FNKEY_DISPLAY, IOSYS_OFF_GRAPH_CHAR, IOSYS_OFF_KANJI_MODE};
use crate::jis::{
    is_lead, is_shift_jis_lead_byte, is_shift_jis_trail_byte, is_trail, jis_to_vram_bytes,
    shift_jis_pair_to_jis, sjis_to_jis, vram_bytes,
};
use crate::memory::{image, poke, Image, MemoryAccess};

verus! {

pub const KANJI_MODE_ADDR: u32 = IOSYS_BASE + IOSYS_OFF_KANJI_MODE;
pub const GRAPH_CHAR_ADDR: u32 = IOSYS_BASE + IOSYS_OFF_GRAPH_CHAR;
pub const FNKEY_DISPLAY_ADDR: u32 = IOSYS_BASE + IOSYS_OFF_FNKEY_DISPLAY;

/// Current phase of the console escape-sequence parser.
#[derive(Clone, Copy, Debug, PartialEq, Eq, Structural)]
pub enum EscState {
    Normal,
    GotEsc,
    GotCsi,
    GotCsiQuestion,
    GotCsiGreater,
    GotEscRightParen,
    GotEscEqual,
    GotEscEqualRow,
}

/// Parameters and phase of the console escape parser.
#[derive(Clone, Copy, Debug)]
pub struct EscParser {
    pub state: EscState,
    pub params: [u16; 8],
    pub param_count: usize,
    pub current_param: u16,
    pub has_digit: bool,
}

/// The parser as a mathematical value.
pub struct ParserView {
    pub state: EscState,
    pub params: Seq<u16>,
    pub param_count: int,
    pub current_param: u16,
    pub has_digit: bool,
}

impl View for EscParser {
    type V = ParserView;

    open spec fn view(&self) -> ParserView {
        ParserView {
            state: self.state,
            params: self.params@,
            param_count: self.param_count as int,
            current_param: self.current_param,
            has_digit: self.has_digit,
        }
    }
}

/// At most eight parameters are recorded.
pub open spec fn parser_wf(p: ParserView) -> bool {
    p.params.len() == 8 && 0 <= p.param_count <= 8
}

/// The parser after a sequence ends: back to normal, no parameters pending.
pub open spec fn reset_view(p: ParserView) -> ParserView {
    ParserView { state: EscState::Normal, param_count: 0, current_param: 0, has_digit: false, ..p }
}

/// The parser after the current parameter is recorded (dropped when eight
/// are already recorded).
pub open spec fn pushed_view(p: ParserView) -> ParserView {
    if p.param_count < 8 {
        ParserView {
            params: p.params.update(p.param_count, p.current_param),
            param_count: p.param_count + 1,
            current_param: 0,
            has_digit: false,
            ..p
        }
    } else {
        ParserView { current_param: 0, has_digit: false, ..p }
    }
}

/// Parameter `index`, or `default` when it is missing or zero.
pub open spec fn param_of(p: ParserView, index: int, default: u16) -> u16 {
    if index < p.param_count && p.params[index] != 0 {
        p.params[index]
    } else {
        default
    }
}

/// The parser after one more decimal digit of the current parameter.
pub open spec fn digit_view(p: ParserView, byte: u8) -> ParserView {
    ParserView {
        current_param: (p.current_param * 10 + (byte - 0x30)) as u16,
        has_digit: true,
        ..p
    }
}

/// The current parameter takes one more digit without overflow.
pub open spec fn digit_ok(p: ParserView, byte: u8) -> bool {
    p.current_param * 10 + (byte - 0x30) <= u16::MAX
}

pub open spec fn is_digit(b: u8) -> bool {
    0x30 <= b <= 0x39
}

impl EscParser {
    pub open spec fn is_initial(&self) -> bool {
        &&& self.state == EscState::Normal
        &&& self.params@ == Seq::new(8, |i: int| 0u16)
        &&& self.param_count == 0
        &&& self.current_param == 0
        &&& !self.has_digit
    }

    pub fn new() -> (r: Self)
        ensures
            r.is_initial(),
            parser_wf(r@),
    {
        let r = EscParser {
            state: EscState::Normal,
            params: [0u16; 8],
            param_count: 0,
            current_param: 0,
            has_digit: false,
        };
        assert(r.params@ =~= Seq::new(8, |i: int| 0u16));
        r
    }

    fn reset(&mut self)
        ensures
            final(self)@ == reset_view(old(self)@),
    {
        self.state = EscState::Normal;
        self.param_count = 0;
        self.current_param = 0;
        self.has_digit = false;
    }

    fn push_param(&mut self)
        requires
            parser_wf(old(self)@),
        ensures
            final(self)@ == pushed_view(old(self)@),
    {
        if self.param_count < 8 {
            let i = self.param_count;
            self.params[i] = self.current_param;
            self.param_count += 1;
        }
        self.current_param = 0;
        self.has_digit = false;
    }

    fn param(&self, index: usize, default: u16) -> (r: u16)
        requires
            parser_wf(self@),
        ensures
            r == param_of(self@, index as int, default),
    {
        if index < self.param_count && self.params[index] != 0 {
            self.params[index]
        } else {
            default
        }
    }

    fn add_digit(&mut self, byte: u8)
        requires
            is_digit(byte),
            digit_ok(old(self)@, byte),
        ensures
            final(self)@ == digit_view(old(self)@, byte),
    {
        self.current_param = self.current_param * 10 + (byte - 0x30) as u16;
        self.has_digit = true;
    }
}

/// PC-98 colour number of an ANSI foreground colour code.
pub open spec fn pc98_color(code: u8) -> u8 {
    if code == 30 {
        0
    } else if code == 31 {
        2
    } else if code == 32 {
        4
    } else if code == 33 {
        6
    } else if code == 34 {
        1
    } else if code == 35 {
        3
    } else if code == 36 {
        5
    } else {
        7
    }
}

/// The ANSI colours 30 to 37 are 30 plus a mask with red in bit 0, green
/// in bit 1 and blue in bit 2; a PC-98 colour number has blue in bit 0,
/// red in bit 1 and green in bit 2. The map moves each primary to its
/// PC-98 bit, and every code above 37 is white.
pub proof fn lemma_pc98_color_moves_primaries(code: u8)
    ensures
        30 <= code <= 37 ==> ({
            let k = code - 30;
            let red = k % 2;
            let green = (k / 2) % 2;
            let blue = k / 4;
            pc98_color(code) == blue + 2 * red + 4 * green
        }),
        code > 37 ==> pc98_color(code) == 7,
{
}

pub fn ansi_foreground_to_pc98_color(code: u8) -> (r: u8)
    ensures
        r == pc98_color(code),
{
    match code {
        30 => 0,
        31 => 2,
        32 => 4,
        33 => 6,
        34 => 1,
        35 => 3,
        36 => 5,
        37 => 7,
        _ => 7,
    }
}

/// The stable command symbol of a CSI final byte.
pub fn csi_command_name(final_byte: u8) -> (r: &'static str)
    ensures
        r@ == csi_command_symbol(final_byte)@,
{
    match final_byte {
        0x48 | 0x66 => "cursor-position",
        0x41 => "cursor-up",
        0x42 => "cursor-down",
        0x43 => "cursor-right",
        0x44 => "cursor-left",
        0x73 => "save-cursor",
        0x75 => "restore-cursor",
        0x4A => "erase-display",
        0x4B => "erase-line",
        0x4C => "insert-line",
        0x4D => "delete-line",
        0x6D => "sgr",
        _ => "unknown",
    }
}

pub open spec fn csi_command_symbol(final_byte: u8) -> &'static str {
    if final_byte == 0x48 || final_byte == 0x66 {
        "cursor-position"
    } else if final_byte == 0x41 {
        "cursor-up"
    } else if final_byte == 0x42 {
        "cursor-down"
    } else if final_byte == 0x43 {
        "cursor-right"
    } else if final_byte == 0x44 {
        "cursor-left"
    } else if final_byte == 0x73 {
        "save-cursor"
    } else if final_byte == 0x75 {
        "restore-cursor"
    } else if final_byte == 0x4A {
        "erase-display"
    } else if final_byte == 0x4B {
        "erase-line"
    } else if final_byte == 0x4C {
        "insert-line"
    } else if final_byte == 0x4D {
        "delete-line"
    } else if final_byte == 0x6D {
        "sgr"
    } else {
        "unknown"
    }
}

/// The image after the display attribute takes `set` bits and loses
/// `clear` bits.
pub open spec fn update_attr_image(f: Image, set: u8, clear: u8) -> Image {
    poke(f, DISPLAY_ATTR_ADDR, (display_attr_of(f) | set) & !clear)
}

/// The image after one SGR parameter.
pub open spec fn sgr_param_image(f: Image, parameter: u16) -> Image {
    if parameter == 0 || parameter == 39 {
        poke(f, DISPLAY_ATTR_ADDR, 0xE1)
    } else if parameter == 4 {
        update_attr_image(f, 0x08, 0x00)
    } else if parameter == 5 {
        update_attr_image(f, 0x02, 0x00)
    } else if parameter == 7 {
        update_attr_image(f, 0x04, 0x00)
    } else if parameter == 8 {
        update_attr_image(f, 0x00, 0x01)
    } else if parameter == 24 {
        update_attr_image(f, 0x00, 0x08)
    } else if parameter == 25 {
        update_attr_image(f, 0x00, 0x02)
    } else if parameter == 27 {
        update_attr_image(f, 0x00, 0x04)
    } else if parameter == 28 {
        update_attr_image(f, 0x01, 0x00)
    } else if 30 <= parameter <= 37 {
        poke(
            f,
            DISPLAY_ATTR_ADDR,
            (pc98_color(parameter as u8) << 5u8) | (display_attr_of(f) & 0x1F),
        )
    } else if 40 <= parameter <= 47 {
        poke(
            f,
            DISPLAY_ATTR_ADDR,
            (pc98_color((parameter - 10) as u8) << 5u8) | (display_attr_of(f) & 0x1F) | 0x04,
        )
    } else {
        f
    }
}

/// The image after the SGR parameters `0..n`, in order.
pub open spec fn sgr_params_image(p: ParserView, f: Image, n: int) -> Image
    decreases n,
{
    if n <= 0 {
        f
    } else {
        sgr_param_image(sgr_params_image(p, f, n - 1), p.params[n - 1])
    }
}

/// The image after `ESC[...m`: no parameter resets the attribute.
pub open spec fn sgr_image(p: ParserView, f: Image) -> Image {
    if p.param_count == 0 {
        poke(f, DISPLAY_ATTR_ADDR, 0xE1)
    } else {
        sgr_params_image(p, f, p.param_count)
    }
}

/// The count argument of a CSI sequence: parameter 0, at least 1, as a byte.
pub open spec fn count_arg(p: ParserView) -> u8 {
    let v = param_of(p, 0, 1);
    (if v >= 1 { v } else { 1 }) as u8
}

/// A 1-based coordinate parameter as a 0-based byte.
pub open spec fn coord_arg(p: ParserView, index: int) -> u8 {
    let v = param_of(p, index, 1);
    (if v >= 1 { v - 1 } else { 0 }) as u8
}

/// The image after a CSI sequence with final byte `fb` is carried out.
pub open spec fn csi_image(p: ParserView, f: Image, fb: u8) -> Image {
    if fb == 0x48 || fb == 0x66 {
        cursor_position_image(f, coord_arg(p, 0), coord_arg(p, 1))
    } else if fb == 0x41 {
        cursor_up_image(f, count_arg(p))
    } else if fb == 0x42 {
        cursor_down_image(f, count_arg(p))
    } else if fb == 0x43 {
        cursor_right_image(f, count_arg(p))
    } else if fb == 0x44 {
        cursor_left_image(f, count_arg(p))
    } else if fb == 0x73 {
        save_cursor_image(f)
    } else if fb == 0x75 {
        restore_cursor_image(f)
    } else if fb == 0x4A {
        let mode = param_of(p, 0, 0);
        if mode == 0 {
            clear_from_cursor_image(f)
        } else if mode == 1 {
            clear_to_cursor_image(f)
        } else if mode == 2 {
            clear_screen_image(f)
        } else {
            f
        }
    } else if fb == 0x4B {
        let mode = param_of(p, 0, 0);
        if mode == 0 {
            clear_line_from_image(f)
        } else if mode == 1 {
            clear_line_to_image(f)
        } else if mode == 2 {
            clear_line_image(f)
        } else {
            f
        }
    } else if fb == 0x4C {
        scroll_down_image(f, count_arg(p))
    } else if fb == 0x4D {
        scroll_up_image(f, count_arg(p))
    } else if fb == 0x6D {
        sgr_image(p, f)
    } else {
        f
    }
}

/// Carrying out a CSI sequence does not overflow.
pub open spec fn csi_ok(p: ParserView, f: Image, fb: u8) -> bool {
    &&& fb == 0x4A && param_of(p, 0, 0) == 0 ==> cursor_row_of(f) < 255
    &&& (fb == 0x4C || fb == 0x4D) ==> scroll_region_ok(f)
}

/// The image after `ESC[?...h` / `ESC[?...l`: parameter 7 turns line wrap
/// on (`h`) or off (`l`).
pub open spec fn csi_question_image(p: ParserView, f: Image, fb: u8) -> Image {
    if param_of(p, 0, 0) == 7 {
        poke(f, LINE_WRAP_ADDR, if fb == 0x68 { 0 } else { 1 })
    } else {
        f
    }
}

/// The image after `ESC[>...h` / `ESC[>...l`: 1 hides (`h`) or shows the
/// function key row, 3 selects 20 (`h`) or 25 lines, 5 hides (`h`) or shows
/// the cursor.
pub open spec fn csi_greater_image(p: ParserView, f: Image, fb: u8) -> Image {
    let set = fb == 0x68;
    let v: u8 = if set { 0 } else { 1 };
    let param = param_of(p, 0, 0);
    if param == 1 {
        poke(f, FNKEY_DISPLAY_ADDR, v)
    } else if param == 3 {
        poke(poke(f, SCREEN_LINES_ADDR, v), SCROLL_LOWER_ADDR, if set { 19 } else { 24 })
    } else if param == 5 {
        poke(f, CURSOR_VISIBLE_ADDR, v)
    } else {
        f
    }
}

/// The image after `ESC)0` (Shift-JIS kanji mode) or `ESC)3` (graphic
/// character mode); any other byte changes nothing.
pub open spec fn right_paren_image(f: Image, byte: u8) -> Image {
    if byte == 0x30 {
        poke(poke(f, KANJI_MODE_ADDR, 1), GRAPH_CHAR_ADDR, 0x20)
    } else if byte == 0x33 {
        poke(poke(f, KANJI_MODE_ADDR, 0), GRAPH_CHAR_ADDR, 0x67)
    } else {
        f
    }
}

/// A parser state and an image.
pub type ConsoleModel = (ParserView, Image);

/// A byte in the normal state: control characters act, ESC starts a
/// sequence, anything else is put on screen.
pub open spec fn normal_step(p: ParserView, f: Image, byte: u8) -> ConsoleModel {
    if byte == 0x07 {
        (p, f)
    } else if byte == 0x08 {
        (p, backspace_image(f))
    } else if byte == 0x09 {
        (p, tab_image(f))
    } else if byte == 0x0A {
        (p, linefeed_image(f))
    } else if byte == 0x0D {
        (p, carriage_return_image(f))
    } else if byte == 0x1B {
        (
            ParserView {
                state: EscState::GotEsc,
                param_count: 0,
                current_param: 0,
                has_digit: false,
                ..p
            },
            f,
        )
    } else {
        (p, put_char_image(f, byte))
    }
}

pub open spec fn normal_ok(f: Image, byte: u8) -> bool {
    &&& byte == 0x09 ==> cursor_col_of(f) <= 247
    &&& byte == 0x0A ==> linefeed_ok(f)
    &&& !(byte == 0x07 || byte == 0x08 || byte == 0x09 || byte == 0x0A || byte == 0x0D || byte
        == 0x1B) ==> advance_ok(f)
}

/// A byte after ESC.
pub open spec fn esc_step(p: ParserView, f: Image, byte: u8) -> ConsoleModel {
    if byte == 0x5B {
        (ParserView { state: EscState::GotCsi, ..p }, f)
    } else if byte == 0x2A {
        (reset_view(p), clear_screen_image(f))
    } else if byte == 0x44 {
        (reset_view(p), linefeed_image(f))
    } else if byte == 0x45 {
        (reset_view(p), linefeed_image(carriage_return_image(f)))
    } else if byte == 0x4D {
        (reset_view(p), reverse_linefeed_image(f))
    } else if byte == 0x29 {
        (ParserView { state: EscState::GotEscRightParen, ..p }, f)
    } else if byte == 0x3D {
        (ParserView { state: EscState::GotEscEqual, ..p }, f)
    } else {
        (reset_view(p), put_char_image(f, byte))
    }
}

pub open spec fn esc_ok(f: Image, byte: u8) -> bool {
    &&& byte == 0x44 ==> linefeed_ok(f)
    &&& byte == 0x45 ==> linefeed_ok(carriage_return_image(f))
    &&& byte == 0x4D ==> reverse_linefeed_ok(f)
    &&& !(byte == 0x5B || byte == 0x2A || byte == 0x44 || byte == 0x45 || byte == 0x4D || byte
        == 0x29 || byte == 0x3D) ==> advance_ok(f)
}

/// The parameters with the pending one recorded, when a final byte ends a
/// sequence that has any.
pub open spec fn final_params(p: ParserView) -> ParserView {
    if p.has_digit || p.param_count > 0 {
        pushed_view(p)
    } else {
        p
    }
}

/// A byte after `ESC[`.
pub open spec fn csi_step(p: ParserView, f: Image, byte: u8) -> ConsoleModel {
    if byte == 0x3F {
        (ParserView { state: EscState::GotCsiQuestion, ..p }, f)
    } else if byte == 0x3E {
        (ParserView { state: EscState::GotCsiGreater, ..p }, f)
    } else if is_digit(byte) {
        (digit_view(p, byte), f)
    } else if byte == 0x3B {
        (pushed_view(p), f)
    } else if 0x41 <= byte <= 0x7A {
        let q = final_params(p);
        (reset_view(q), csi_image(q, f, byte))
    } else {
        (reset_view(p), f)
    }
}

pub open spec fn csi_step_ok(p: ParserView, f: Image, byte: u8) -> bool {
    &&& is_digit(byte) ==> digit_ok(p, byte)
    &&& 0x41 <= byte <= 0x7A ==> csi_ok(final_params(p), f, byte)
}

/// A byte after `ESC[?` or `ESC[>`.
pub open spec fn csi_param_step(p: ParserView, f: Image, byte: u8, question: bool) -> ConsoleModel {
    if is_digit(byte) {
        (digit_view(p, byte), f)
    } else if byte == 0x3B {
        (pushed_view(p), f)
    } else if byte == 0x68 || byte == 0x6C {
        let q = final_params(p);
        (
            reset_view(q),
            if question {
                csi_question_image(q, f, byte)
            } else {
                csi_greater_image(q, f, byte)
            },
        )
    } else {
        (reset_view(p), f)
    }
}

/// A byte after `ESC=` (the row) and `ESC=` row (the column).
pub open spec fn equal_col_image(p: ParserView, f: Image, byte: u8) -> Image {
    let raw_row = p.params[0] as u8;
    cursor_position_image(
        f,
        if raw_row >= 0x20 { (raw_row - 0x20) as u8 } else { 0 },
        if byte >= 0x20 { (byte - 0x20) as u8 } else { 0 },
    )
}

/// One byte in the state that the parser is in.
pub open spec fn state_step(p: ParserView, f: Image, byte: u8) -> ConsoleModel {
    match p.state {
        EscState::Normal => normal_step(p, f, byte),
        EscState::GotEsc => esc_step(p, f, byte),
        EscState::GotCsi => csi_step(p, f, byte),
        EscState::GotCsiQuestion => csi_param_step(p, f, byte, true),
        EscState::GotCsiGreater => csi_param_step(p, f, byte, false),
        EscState::GotEscRightParen => (reset_view(p), right_paren_image(f, byte)),
        EscState::GotEscEqual => (
            ParserView {
                params: p.params.update(0, byte as u16),
                state: EscState::GotEscEqualRow,
                ..p
            },
            f,
        ),
        EscState::GotEscEqualRow => (reset_view(p), equal_col_image(p, f, byte)),
    }
}

pub open spec fn state_step_ok(p: ParserView, f: Image, byte: u8) -> bool {
    match p.state {
        EscState::Normal => normal_ok(f, byte),
        EscState::GotEsc => esc_ok(f, byte),
        EscState::GotCsi => csi_step_ok(p, f, byte),
        EscState::GotCsiQuestion => is_digit(byte) ==> digit_ok(p, byte),
        EscState::GotCsiGreater => is_digit(byte) ==> digit_ok(p, byte),
        _ => true,
    }
}

/// Whether Shift-JIS kanji mode is on.
pub open spec fn kanji_mode_of(f: Image) -> bool {
    f(KANJI_MODE_ADDR) != 0
}

/// A byte with no lead byte pending: a lead byte in the normal state waits
/// for its trail byte (in kanji mode, and always for 86h); anything else
/// goes to the parser.
pub open spec fn unpended_step(p: ParserView, f: Image, byte: u8) -> ConsoleModel {
    if p.state == EscState::Normal && is_lead(byte) && (kanji_mode_of(f) || byte == 0x86) {
        (p, poke(poke(f, crate::console::KANJI_HI_FLAG_ADDR, 1), crate::console::KANJI_HI_BYTE_ADDR, byte))
    } else {
        state_step(p, f, byte)
    }
}

pub open spec fn unpended_ok(p: ParserView, f: Image, byte: u8) -> bool {
    !(p.state == EscState::Normal && is_lead(byte) && (kanji_mode_of(f) || byte == 0x86))
        ==> state_step_ok(p, f, byte)
}

/// The JIS code that a pending lead byte and this byte make, if any.
pub open spec fn pair_code(lead: u8, byte: u8) -> Option<u16> {
    if is_trail(byte) {
        sjis_to_jis(lead, byte)
    } else {
        None
    }
}

/// What one output byte does to the parser and to memory: a pending lead
/// byte and a trail byte make a double-width character; a pending lead byte
/// with anything else is put as a single-width character and the byte is
/// processed on its own.
pub open spec fn byte_step(p: ParserView, f: Image, byte: u8) -> ConsoleModel {
    match pending_lead_of(f) {
        Some(lead) => {
            let g = without_pending_lead(f);
            match pair_code(lead, byte) {
                Some(code) => (p, fullwidth_image(g, vram_bytes(code).0, vram_bytes(code).1)),
                None => unpended_step(p, put_char_image(g, lead), byte),
            }
        },
        None => unpended_step(p, f, byte),
    }
}

/// Processing one output byte does not overflow.
pub open spec fn byte_step_ok(p: ParserView, f: Image, byte: u8) -> bool {
    match pending_lead_of(f) {
        Some(lead) => {
            let g = without_pending_lead(f);
            match pair_code(lead, byte) {
                Some(code) => fullwidth_ok(g),
                None => advance_ok(g) && unpended_ok(p, put_char_image(g, lead), byte),
            }
        },
        None => unpended_ok(p, f, byte),
    }
}

impl Console {
    fn shift_jis_mode_enabled<M: MemoryAccess>(&self, memory: &M) -> (r: bool)
        ensures
            r == kanji_mode_of(image(memory)),
    {
        memory.read_byte(KANJI_MODE_ADDR) != 0
    }

    /// Feeds one byte into the console output pipeline: control characters,
    /// escape sequences, Shift-JIS pairs and printable output.
    pub fn process_byte<M: MemoryAccess>(&mut self, memory: &mut M, byte: u8)
        requires
            parser_wf(old(self).esc_parser@),
            byte_step_ok(old(self).esc_parser@, image(old(memory)), byte),
        ensures
            parser_wf(final(self).esc_parser@),
            (final(self).esc_parser@, image(final(memory))) == byte_step(
                old(self).esc_parser@,
                image(old(memory)),
                byte,
            ),
    {
        match self.pending_shift_jis_lead(memory) {
            Some(lead) => {
                self.clear_pending_shift_jis_lead(memory);
                let code = if is_shift_jis_trail_byte(byte) {
                    shift_jis_pair_to_jis(lead, byte)
                } else {
                    None
                };
                match code {
                    Some(jis) => {
                        let (even, odd) = jis_to_vram_bytes(jis);
                        self.put_fullwidth_char(memory, even, odd);
                    },
                    None => {
                        self.put_char(memory, lead);
                        self.process_unpended(memory, byte);
                    },
                }
            },
            None => {
                self.process_unpended(memory, byte);
            },
        }
    }

    fn process_unpended<M: MemoryAccess>(&mut self, memory: &mut M, byte: u8)
        requires
            parser_wf(old(self).esc_parser@),
            unpended_ok(old(self).esc_parser@, image(old(memory)), byte),
        ensures
            parser_wf(final(self).esc_parser@),
            (final(self).esc_parser@, image(final(memory))) == unpended_step(
                old(self).esc_parser@,
                image(old(memory)),
                byte,
            ),
    {
        let shift_jis_mode = self.shift_jis_mode_enabled(memory);
        if self.esc_parser.state == EscState::Normal && is_shift_jis_lead_byte(byte) && (
        shift_jis_mode || byte == 0x86) {
            self.set_pending_shift_jis_lead(memory, byte);
            return;
        }
        match self.esc_parser.state {
            EscState::Normal => self.esc_process_normal(memory, byte),
            EscState::GotEsc => self.esc_process_got_esc(memory, byte),
            EscState::GotCsi => self.esc_process_csi(memory, byte),
            EscState::GotCsiQuestion => self.esc_process_csi_param(memory, byte, true),
            EscState::GotCsiGreater => self.esc_process_csi_param(memory, byte, false),
            EscState::GotEscRightParen => self.esc_process_right_paren(memory, byte),
            EscState::GotEscEqual => self.esc_process_equal_row(byte),
            EscState::GotEscEqualRow => self.esc_process_equal_col(memory, byte),
        }
    }

    fn esc_process_normal<M: MemoryAccess>(&mut self, memory: &mut M, byte: u8)
        requires
            parser_wf(old(self).esc_parser@),
            normal_ok(image(old(memory)), byte),
        ensures
            parser_wf(final(self).esc_parser@),
            (final(self).esc_parser@, image(final(memory))) == normal_step(
                old(self).esc_parser@,
                image(old(memory)),
                byte,
            ),
    {
        match byte {
            0x07 => {},
            0x08 => self.backspace(memory),
            0x09 => self.tab(memory),
            0x0A => self.linefeed(memory),
            0x0D => self.carriage_return(memory),
            0x1B => {
                self.esc_parser.state = EscState::GotEsc;
                self.esc_parser.param_count = 0;
                self.esc_parser.current_param = 0;
                self.esc_parser.has_digit = false;
            },
            _ => self.put_char(memory, byte),
        }
    }

    fn esc_process_got_esc<M: MemoryAccess>(&mut self, memory: &mut M, byte: u8)
        requires
            parser_wf(old(self).esc_parser@),
            esc_ok(image(old(memory)), byte),
        ensures
            parser_wf(final(self).esc_parser@),
            (final(self).esc_parser@, image(final(memory))) == esc_step(
                old(self).esc_parser@,
                image(old(memory)),
                byte,
            ),
    {
        match byte {
            0x5B => {
                self.esc_parser.state = EscState::GotCsi;
            },
            0x2A => {
                self.clear_screen(memory);
                self.esc_parser.reset();
            },
            0x44 => {
                self.linefeed(memory);
                self.esc_parser.reset();
            },
            0x45 => {
                self.carriage_return(memory);
                self.linefeed(memory);
                self.esc_parser.reset();
            },
            0x4D => {
                self.reverse_linefeed(memory);
                self.esc_parser.reset();
            },
            0x29 => {
                self.esc_parser.state = EscState::GotEscRightParen;
            },
            0x3D => {
                self.esc_parser.state = EscState::GotEscEqual;
            },
            _ => {
                self.esc_parser.reset();
                self.put_char(memory, byte);
            },
        }
    }

    fn esc_process_csi<M: MemoryAccess>(&mut self, memory: &mut M, byte: u8)
        requires
            parser_wf(old(self).esc_parser@),
            csi_step_ok(old(self).esc_parser@, image(old(memory)), byte),
        ensures
            parser_wf(final(self).esc_parser@),
            (final(self).esc_parser@, image(final(memory))) == csi_step(
                old(self).esc_parser@,
                image(old(memory)),
                byte,
            ),
    {
        if byte == 0x3F {
            self.esc_parser.state = EscState::GotCsiQuestion;
        } else if byte == 0x3E {
            self.esc_parser.state = EscState::GotCsiGreater;
        } else if 0x30 <= byte && byte <= 0x39 {
            self.esc_parser.add_digit(byte);
        } else if byte == 0x3B {
            self.esc_parser.push_param();
        } else if 0x41 <= byte && byte <= 0x7A {
            if self.esc_parser.has_digit || self.esc_parser.param_count > 0 {
                self.esc_parser.push_param();
            }
            self.esc_dispatch_csi(memory, byte);
            self.esc_parser.reset();
        } else {
            self.esc_parser.reset();
        }
    }

    /// Parameter accumulation and dispatch for `ESC[?` and `ESC[>` sequences.
    fn esc_process_csi_param<M: MemoryAccess>(&mut self, memory: &mut M, byte: u8, is_question: bool)
        requires
            parser_wf(old(self).esc_parser@),
            is_digit(byte) ==> digit_ok(old(self).esc_parser@, byte),
        ensures
            parser_wf(final(self).esc_parser@),
            (final(self).esc_parser@, image(final(memory))) == csi_param_step(
                old(self).esc_parser@,
                image(old(memory)),
                byte,
                is_question,
            ),
    {
        if 0x30 <= byte && byte <= 0x39 {
            self.esc_parser.add_digit(byte);
        } else if byte == 0x3B {
            self.esc_parser.push_param();
        } else if byte == 0x68 || byte == 0x6C {
            if self.esc_parser.has_digit || self.esc_parser.param_count > 0 {
                self.esc_parser.push_param();
            }
            if is_question {
                self.esc_dispatch_csi_question(memory, byte);
            } else {
                self.esc_dispatch_csi_greater(memory, byte);
            }
            self.esc_parser.reset();
        } else {
            self.esc_parser.reset();
        }
    }

    fn esc_process_right_paren<M: MemoryAccess>(&mut self, memory: &mut M, byte: u8)
        requires
            parser_wf(old(self).esc_parser@),
        ensures
            parser_wf(final(self).esc_parser@),
            final(self).esc_parser@ == reset_view(old(self).esc_parser@),
            image(final(memory)) == right_paren_image(image(old(memory)), byte),
    {
        if byte == 0x30 {
            memory.write_byte(KANJI_MODE_ADDR, 0x01);
            memory.write_byte(GRAPH_CHAR_ADDR, 0x20);
        } else if byte == 0x33 {
            memory.write_byte(KANJI_MODE_ADDR, 0x00);
            memory.write_byte(GRAPH_CHAR_ADDR, 0x67);
        }
        assert(image(memory) =~= right_paren_image(image(old(memory)), byte));
        self.esc_parser.reset();
    }

    fn esc_process_equal_row(&mut self, byte: u8)
        requires
            parser_wf(old(self).esc_parser@),
        ensures
            parser_wf(final(self).esc_parser@),
            final(self).esc_parser@ == (ParserView {
                params: old(self).esc_parser@.params.update(0, byte as u16),
                state: EscState::GotEscEqualRow,
                ..old(self).esc_parser@
            }),
    {
        self.esc_parser.params[0] = byte as u16;
        self.esc_parser.state = EscState::GotEscEqualRow;
    }

    fn esc_process_equal_col<M: MemoryAccess>(&mut self, memory: &mut M, byte: u8)
        requires
            parser_wf(old(self).esc_parser@),
        ensures
            parser_wf(final(self).esc_parser@),
            final(self).esc_parser@ == reset_view(old(self).esc_parser@),
            image(final(memory)) == equal_col_image(old(self).esc_parser@, image(old(memory)), byte),
    {
        let raw_row = self.esc_parser.params[0] as u8;
        let raw_col = byte;
        let row = raw_row.saturating_sub(0x20);
        let col = raw_col.saturating_sub(0x20);
        self.set_cursor_position(memory, row, col);
        self.esc_parser.reset();
    }

    fn count_param(&self) -> (r: u8)
        requires
            parser_wf(self.esc_parser@),
        ensures
            r == count_arg(self.esc_parser@),
    {
        let v = self.esc_parser.param(0, 1);
        (if v >= 1 {
            v
        } else {
            1
        }) as u8
    }

    fn esc_dispatch_csi<M: MemoryAccess>(&mut self, memory: &mut M, final_byte: u8)
        requires
            parser_wf(old(self).esc_parser@),
            csi_ok(old(self).esc_parser@, image(old(memory)), final_byte),
        ensures
            final(self).esc_parser == old(self).esc_parser,
            image(final(memory)) == csi_image(old(self).esc_parser@, image(old(memory)), final_byte),
    {
        match final_byte {
            0x48 | 0x66 => {
                let row = self.esc_parser.param(0, 1).saturating_sub(1) as u8;
                let col = self.esc_parser.param(1, 1).saturating_sub(1) as u8;
                self.set_cursor_position(memory, row, col);
            },
            0x41 => {
                let count = self.count_param();
                self.cursor_up(memory, count);
            },
            0x42 => {
                let count = self.count_param();
                self.cursor_down(memory, count);
            },
            0x43 => {
                let count = self.count_param();
                self.cursor_right(memory, count);
            },
            0x44 => {
                let count = self.count_param();
                self.cursor_left(memory, count);
            },
            0x73 => {
                self.save_cursor(memory);
            },
            0x75 => {
                self.restore_cursor(memory);
            },
            0x4A => {
                let mode = self.esc_parser.param(0, 0);
                match mode {
                    0 => self.clear_screen_from_cursor(memory),
                    1 => self.clear_screen_to_cursor(memory),
                    2 => self.clear_screen(memory),
                    _ => {},
                }
            },
            0x4B => {
                let mode = self.esc_parser.param(0, 0);
                match mode {
                    0 => self.clear_line_from_cursor(memory),
                    1 => self.clear_line_to_cursor(memory),
                    2 => self.clear_line(memory),
                    _ => {},
                }
            },
            0x4C => {
                let count = self.count_param();
                self.scroll_down(memory, count);
            },
            0x4D => {
                let count = self.count_param();
                self.scroll_up(memory, count);
            },
            0x6D => {
                self.set_graphic_rendition(memory);
            },
            _ => {},
        }
    }

    fn set_graphic_rendition<M: MemoryAccess>(&self, memory: &mut M)
        requires
            parser_wf(self.esc_parser@),
        ensures
            image(final(memory)) == sgr_image(self.esc_parser@, image(old(memory))),
    {
        if self.esc_parser.param_count == 0 {
            self.set_attribute(memory, 0xE1);
            return;
        }
        let mut index: usize = 0;
        while index < self.esc_parser.param_count
            invariant
                parser_wf(self.esc_parser@),
                index <= self.esc_parser.param_count,
                image(memory) == sgr_params_image(self.esc_parser@, image(old(memory)), index as int),
            decreases self.esc_parser.param_count - index,
        {
            let parameter = self.esc_parser.params[index];
            self.apply_sgr_param(memory, parameter);
            index += 1;
        }
    }

    fn apply_sgr_param<M: MemoryAccess>(&self, memory: &mut M, parameter: u16)
        ensures
            image(final(memory)) == sgr_param_image(image(old(memory)), parameter),
    {
        match parameter {
            0 | 39 => self.set_attribute(memory, 0xE1),
            4 => self.update_attribute(memory, 0x08, 0x00),
            5 => self.update_attribute(memory, 0x02, 0x00),
            7 => self.update_attribute(memory, 0x04, 0x00),
            8 => self.update_attribute(memory, 0x00, 0x01),
            24 => self.update_attribute(memory, 0x00, 0x08),
            25 => self.update_attribute(memory, 0x00, 0x02),
            27 => self.update_attribute(memory, 0x00, 0x04),
            28 => self.update_attribute(memory, 0x01, 0x00),
            30..=37 => {
                let color = ansi_foreground_to_pc98_color(parameter as u8);
                let lower_bits = memory.read_byte(DISPLAY_ATTR_ADDR) & 0x1F;
                self.set_attribute(memory, (color << 5) | lower_bits);
            },
            40..=47 => {
                let color = ansi_foreground_to_pc98_color(parameter as u8 - 10);
                let lower_bits = memory.read_byte(DISPLAY_ATTR_ADDR) & 0x1F;
                self.set_attribute(memory, (color << 5) | lower_bits | 0x04);
            },
            _ => {},
        }
    }

    fn update_attribute<M: MemoryAccess>(&self, memory: &mut M, set: u8, clear: u8)
        ensures
            image(final(memory)) == update_attr_image(image(old(memory)), set, clear),
    {
        let attribute = memory.read_byte(DISPLAY_ATTR_ADDR);
        self.set_attribute(memory, (attribute | set) & !clear);
    }

    fn esc_dispatch_csi_question<M: MemoryAccess>(&self, memory: &mut M, final_byte: u8)
        requires
            parser_wf(self.esc_parser@),
        ensures
            image(final(memory)) == csi_question_image(self.esc_parser@, image(old(memory)), final_byte),
    {
        let param = self.esc_parser.param(0, 0);
        let set = final_byte == 0x68;
        if param == 7 {
            let value = if set {
                0x00
            } else {
                0x01
            };
            memory.write_byte(LINE_WRAP_ADDR, value);
        }
        assert(image(memory) =~= csi_question_image(self.esc_parser@, image(old(memory)), final_byte));
    }

    fn esc_dispatch_csi_greater<M: MemoryAccess>(&self, memory: &mut M, final_byte: u8)
        requires
            parser_wf(self.esc_parser@),
        ensures
            image(final(memory)) == csi_greater_image(self.esc_parser@, image(old(memory)), final_byte),
    {
        let param = self.esc_parser.param(0, 0);
        let set = final_byte == 0x68;
        let value = if set {
            0x00
        } else {
            0x01
        };
        match param {
            1 => {
                memory.write_byte(FNKEY_DISPLAY_ADDR, value);
            },
            3 => {
                memory.write_byte(SCREEN_LINES_ADDR, value);
                if set {
                    memory.write_byte(SCROLL_LOWER_ADDR, 19);
                } else {
                    memory.write_byte(SCROLL_LOWER_ADDR, 24);
                }
            },
            5 => {
                memory.write_byte(CURSOR_VISIBLE_ADDR, value);
            },
            _ => {},
        }
        assert(image(memory) =~= csi_greater_image(self.esc_parser@, image(old(memory)), final_byte));
    }
}

} // verus!
