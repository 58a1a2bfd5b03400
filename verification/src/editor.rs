//! The editor's key handling: what a key does to the text buffer or to a
//! prompt's field, and which actions it leaves to the caller.

use vstd::prelude::*;
use crate::input::{
    ByteField, is_text_input, is_text_input_byte, SCAN_DELETE, SCAN_LEFT, SCAN_RIGHT, SCAN_HOME,
    SCAN_END, SCAN_UP, SCAN_DOWN, SCAN_ROLL_UP, SCAN_ROLL_DOWN, SCAN_INSERT, SCAN_F1, SCAN_F2,
    SCAN_F3,
};
use crate::text_buffer::{
    TextBuffer, BufferView, TextUnit, lemma_typing_keeps_size, lemma_backspace_keeps_size,
    lemma_delete_keeps_size, lemma_split_keeps_size,
};
use crate::input::{SCAN_F4, SCAN_F5, SCAN_F6, SCAN_F7};
use crate::dialog::{
    Overlay, PendingAction, DeleteConfirm, ListDialog, TextPrompt, FileMenuItem, overlay_wf,
    list_up, list_down,
};
use vstd::string::StringSliceAdditionalSpecFns;
use crate::dos::{normalized, normalize_path, join_backslash, lemma_join_step};
use crate::filesystem::{split_path, split_path_spec, lemma_drive_bound};
use crate::memory::{MemoryAccess, image, Image};
use crate::cds::{CdsLayout, layout_fits, current_directory_of, current_directory_path};
use crate::text::push_bytes;
use crate::file_picker::{
    FilePickerState, PickerFocus, same_list, shows, after_move_up, after_move_down, after_page_up,
    after_page_down, after_move_home, after_move_end, parent_of_path, parent_directory,
};

verus! {

/// The field after a key, or `None` when the field does not take the key:
/// Delete, Left, Right, Home, End, Backspace and text bytes.
pub open spec fn field_key(f: (Seq<u8>, nat), scan: u8, ch: u8) -> Option<(Seq<u8>, nat)> {
    let (bytes, cursor) = f;
    if scan == SCAN_DELETE && ch == 0 {
        Some(if cursor < bytes.len() { (bytes.remove(cursor as int), cursor) } else { f })
    } else if scan == SCAN_LEFT && ch == 0 {
        Some((bytes, if cursor > 0 { (cursor - 1) as nat } else { cursor }))
    } else if scan == SCAN_RIGHT && ch == 0 {
        Some((bytes, if cursor < bytes.len() { cursor + 1 } else { cursor }))
    } else if scan == SCAN_HOME && ch == 0 {
        Some((bytes, 0nat))
    } else if scan == SCAN_END && ch == 0 {
        Some((bytes, bytes.len()))
    } else if ch == 0x08 {
        Some(if cursor > 0 { (bytes.remove(cursor - 1), (cursor - 1) as nat) } else { f })
    } else if is_text_input(ch) {
        Some((bytes.insert(cursor as int, ch), cursor + 1))
    } else {
        None
    }
}

/// Applies a key to a prompt's field; tells whether the field took it.
pub fn handle_prompt_field_key(field: &mut ByteField, scan: u8, ch: u8) -> (r: bool)
    requires
        old(field).wf(),
    ensures
        r == (field_key(old(field)@, scan, ch) is Some),
        r ==> final(field)@ == field_key(old(field)@, scan, ch).unwrap(),
        !r ==> final(field)@ == old(field)@,
{
    if scan == SCAN_DELETE && ch == 0 {
        field.delete();
    } else if scan == SCAN_LEFT && ch == 0 {
        field.move_left();
    } else if scan == SCAN_RIGHT && ch == 0 {
        field.move_right();
    } else if scan == SCAN_HOME && ch == 0 {
        field.move_home();
    } else if scan == SCAN_END && ch == 0 {
        field.move_end();
    } else if ch == 0x08 {
        field.backspace();
    } else if is_text_input_byte(ch) {
        field.insert_byte(ch);
    } else {
        return false;
    }
    true
}

/// What an editor key leaves to the caller.
#[derive(Debug, Clone, Copy, PartialEq, Eq, Structural)]
pub enum EditorAction {
    /// Nothing beyond the buffer change.
    Edit,
    /// Escape: leave the editor for the file picker.
    Leave,
    /// F1: open the file menu.
    FileMenu,
    /// F2: save the file.
    Save,
    /// F3: ask for a name to save under.
    SaveAs,
}

/// What a key asks of the caller.
pub open spec fn key_action(scan: u8, ch: u8) -> EditorAction {
    if ch == 0x1B {
        EditorAction::Leave
    } else if scan == SCAN_F1 && ch == 0 {
        EditorAction::FileMenu
    } else if scan == SCAN_F2 && ch == 0 {
        EditorAction::Save
    } else if scan == SCAN_F3 && ch == 0 {
        EditorAction::SaveAs
    } else {
        EditorAction::Edit
    }
}

/// The buffer after a key: the cursor keys move, Insert switches insert
/// mode, Delete and Backspace remove, Enter splits the line, Tab and text
/// bytes are typed; other keys leave the buffer as it is.
pub open spec fn key_effect(v: BufferView, scan: u8, ch: u8) -> BufferView {
    if key_action(scan, ch) != EditorAction::Edit {
        v
    } else if scan == SCAN_LEFT && ch == 0 {
        v.moved_left()
    } else if scan == SCAN_RIGHT && ch == 0 {
        v.moved_right()
    } else if scan == SCAN_UP && ch == 0 {
        v.moved_up()
    } else if scan == SCAN_DOWN && ch == 0 {
        v.moved_down()
    } else if scan == SCAN_ROLL_UP && ch == 0 {
        v.paged_up()
    } else if scan == SCAN_ROLL_DOWN && ch == 0 {
        v.paged_down()
    } else if scan == SCAN_HOME && ch == 0 {
        v.moved_home()
    } else if scan == SCAN_END && ch == 0 {
        v.moved_end()
    } else if scan == SCAN_INSERT && ch == 0 {
        BufferView { insert_mode: !v.insert_mode, ..v }
    } else if scan == SCAN_DELETE && ch == 0 {
        v.deleted()
    } else if ch == 0x08 {
        v.backspaced()
    } else if ch == 0x0D {
        v.split()
    } else if ch == 0x09 {
        v.with_unit(TextUnit::Raw(0x09))
    } else if is_text_input(ch) {
        v.typed(ch)
    } else {
        v
    }
}

/// Whether a key would edit a read-only buffer (Delete, Backspace, Enter,
/// Tab), which the editor answers with a "Read only" warning.
pub open spec fn warns_read_only(scan: u8, ch: u8) -> bool {
    (scan == SCAN_DELETE && ch == 0) || ch == 0x08 || ch == 0x0D || ch == 0x09
}

/// Applies an editor key to the buffer; gives what is left to the caller
/// and whether the read-only warning is due.
pub fn editor_key(buffer: &mut TextBuffer, scan: u8, ch: u8) -> (r: (EditorAction, bool))
    requires
        old(buffer)@.wf(),
    ensures
        r.0 == key_action(scan, ch),
        r.1 == (old(buffer)@.read_only && warns_read_only(scan, ch)),
        final(buffer)@ == key_effect(old(buffer)@, scan, ch),
        final(buffer)@.cursor_ok(),
        old(buffer)@.key_room() ==> final(buffer)@.wf(),
{
    proof {
        if old(buffer)@.key_room() {
            lemma_typing_keeps_size(old(buffer)@, ch);
            lemma_backspace_keeps_size(old(buffer)@);
            lemma_delete_keeps_size(old(buffer)@);
            lemma_split_keeps_size(old(buffer)@);
        }
    }
    let read_only = buffer.read_only;
    let action = if ch == 0x1B {
        EditorAction::Leave
    } else if scan == SCAN_F1 && ch == 0 {
        EditorAction::FileMenu
    } else if scan == SCAN_F2 && ch == 0 {
        EditorAction::Save
    } else if scan == SCAN_F3 && ch == 0 {
        EditorAction::SaveAs
    } else {
        if scan == SCAN_LEFT && ch == 0 {
            buffer.move_left();
        } else if scan == SCAN_RIGHT && ch == 0 {
            buffer.move_right();
        } else if scan == SCAN_UP && ch == 0 {
            buffer.move_up();
        } else if scan == SCAN_DOWN && ch == 0 {
            buffer.move_down();
        } else if scan == SCAN_ROLL_UP && ch == 0 {
            buffer.page_up();
        } else if scan == SCAN_ROLL_DOWN && ch == 0 {
            buffer.page_down();
        } else if scan == SCAN_HOME && ch == 0 {
            buffer.move_home();
        } else if scan == SCAN_END && ch == 0 {
            buffer.move_end();
        } else if scan == SCAN_INSERT && ch == 0 {
            buffer.toggle_insert_mode();
        } else if scan == SCAN_DELETE && ch == 0 {
            buffer.delete();
        } else if ch == 0x08 {
            buffer.backspace();
        } else if ch == 0x0D {
            buffer.split_line();
        } else if ch == 0x09 {
            buffer.insert_tab();
        } else if is_text_input_byte(ch) {
            buffer.insert_input_byte(ch);
        }
        EditorAction::Edit
    };
    let warn = read_only && ((scan == SCAN_DELETE && ch == 0) || ch == 0x08 || ch == 0x0D || ch
        == 0x09);
    (action, warn)
}

/// What a picker key leaves to the caller.
#[derive(Debug, Clone, Copy, PartialEq, Eq, Structural)]
pub enum PickerAction {
    /// Nothing beyond the picker's own change.
    Stay,
    /// Escape: leave the editor.
    Exit,
    /// F1: choose a drive.
    DriveMenu,
    /// F2 or Enter in the path field: open the typed path.
    OpenPath,
    /// F2, Enter or Right in the list: open the selected entry.
    OpenSelection,
    /// F3: ask for a new file's name.
    NewFilePrompt,
    /// F4: read the directory again.
    Refresh,
    /// F5: ask before deleting the selected entry.
    DeletePrompt,
    /// F6: ask for a new folder's name.
    CreateFolderPrompt,
    /// F7 or Left in the list: the picker moved to the parent directory,
    /// whose entries are to be read.
    Reload,
}

/// What a key asks of the caller when the picker has `focus`.
pub open spec fn picker_action(focus: PickerFocus, scan: u8, ch: u8) -> PickerAction {
    if ch == 0x1B {
        PickerAction::Exit
    } else if ch == 0x09 {
        PickerAction::Stay
    } else if scan == SCAN_F1 && ch == 0 {
        PickerAction::DriveMenu
    } else if (scan == SCAN_F2 && ch == 0) || ch == 0x0D {
        if focus == PickerFocus::Path {
            PickerAction::OpenPath
        } else {
            PickerAction::OpenSelection
        }
    } else if scan == SCAN_F3 && ch == 0 {
        PickerAction::NewFilePrompt
    } else if scan == SCAN_F4 && ch == 0 {
        PickerAction::Refresh
    } else if scan == SCAN_F5 && ch == 0 {
        PickerAction::DeletePrompt
    } else if scan == SCAN_F6 && ch == 0 {
        PickerAction::CreateFolderPrompt
    } else if (scan == SCAN_F7 || scan == SCAN_LEFT) && ch == 0 && focus == PickerFocus::List {
        PickerAction::Reload
    } else if scan == SCAN_RIGHT && ch == 0 && focus == PickerFocus::List {
        PickerAction::OpenSelection
    } else {
        PickerAction::Stay
    }
}

/// `b` is `a` unchanged.
pub open spec fn same_picker(a: FilePickerState, b: FilePickerState) -> bool {
    &&& same_list(&a, &b)
    &&& b.selected == a.selected
    &&& b.scroll == a.scroll
    &&& b.path_field@ == a.path_field@
}

/// `b` is `a` with another path field.
pub open spec fn field_changed(a: FilePickerState, b: FilePickerState, field: (Seq<u8>, nat)) -> bool {
    &&& same_list(&a, &b)
    &&& b.selected == a.selected
    &&& b.scroll == a.scroll
    &&& b.path_field@ == field
}

/// The path field after a key when the field has the focus: the field's
/// own keys, and DEL (7Fh), which deletes at the cursor.
pub open spec fn path_field_key(f: (Seq<u8>, nat), scan: u8, ch: u8) -> (Seq<u8>, nat) {
    if ch == 0x7F {
        field_key(f, SCAN_DELETE, 0).unwrap()
    } else {
        match field_key(f, scan, ch) {
            Some(g) => g,
            None => f,
        }
    }
}

/// The picker `b` after a key on the picker `a`: Tab moves the focus (and
/// the path field shows the selection when the list gets it); in the list
/// the cursor keys move the selection and F7 or Left go to the parent
/// directory; in the path field the keys edit the field; the other keys
/// leave the picker as it is.
pub open spec fn picker_key_effect(a: FilePickerState, b: FilePickerState, scan: u8, ch: u8) -> bool {
    let action = picker_action(a.focus, scan, ch);
    if ch == 0x09 {
        if a.focus == PickerFocus::Path {
            &&& b.focus == PickerFocus::List
            &&& b.directory_path@ == a.directory_path@
            &&& b.entries@ == a.entries@
            &&& shows(&b, a.selected as int, a.scroll as int)
        } else {
            same_picker(FilePickerState { focus: PickerFocus::Path, ..a }, b)
        }
    } else if action == PickerAction::Reload {
        same_picker(FilePickerState { directory_path: b.directory_path, ..a }, b)
            && b.directory_path@ == parent_of_path(a.directory_path@)
    } else if action != PickerAction::Stay {
        same_picker(a, b)
    } else if a.focus == PickerFocus::List {
        if scan == SCAN_UP && ch == 0 {
            after_move_up(a, b)
        } else if scan == SCAN_DOWN && ch == 0 {
            after_move_down(a, b)
        } else if scan == SCAN_ROLL_UP && ch == 0 {
            after_page_up(a, b)
        } else if scan == SCAN_ROLL_DOWN && ch == 0 {
            after_page_down(a, b)
        } else if scan == SCAN_HOME && ch == 0 {
            after_move_home(a, b)
        } else if scan == SCAN_END && ch == 0 {
            after_move_end(a, b)
        } else {
            same_picker(a, b)
        }
    } else {
        field_changed(a, b, path_field_key(a.path_field@, scan, ch))
    }
}

/// Applies a key to the file picker; gives what is left to the caller.
pub fn picker_key(picker: &mut FilePickerState, scan: u8, ch: u8) -> (r: PickerAction)
    requires
        old(picker).path_field.wf(),
    ensures
        r == picker_action(old(picker).focus, scan, ch),
        picker_key_effect(*old(picker), *final(picker), scan, ch),
        final(picker).path_field.wf(),
{
    let focus = picker.focus;
    let list = focus == PickerFocus::List;
    if ch == 0x1B {
        PickerAction::Exit
    } else if ch == 0x09 {
        if list {
            picker.focus = PickerFocus::Path;
        } else {
            picker.focus = PickerFocus::List;
            picker.sync_path_with_selection();
        }
        PickerAction::Stay
    } else if scan == SCAN_F1 && ch == 0 {
        PickerAction::DriveMenu
    } else if (scan == SCAN_F2 && ch == 0) || ch == 0x0D {
        if list {
            PickerAction::OpenSelection
        } else {
            PickerAction::OpenPath
        }
    } else if scan == SCAN_F3 && ch == 0 {
        PickerAction::NewFilePrompt
    } else if scan == SCAN_F4 && ch == 0 {
        PickerAction::Refresh
    } else if scan == SCAN_F5 && ch == 0 {
        PickerAction::DeletePrompt
    } else if scan == SCAN_F6 && ch == 0 {
        PickerAction::CreateFolderPrompt
    } else if (scan == SCAN_F7 || scan == SCAN_LEFT) && ch == 0 && list {
        picker.directory_path = parent_directory(picker.directory_path.as_slice());
        PickerAction::Reload
    } else if scan == SCAN_RIGHT && ch == 0 && list {
        PickerAction::OpenSelection
    } else if list {
        if scan == SCAN_UP && ch == 0 {
            picker.move_up();
        } else if scan == SCAN_DOWN && ch == 0 {
            picker.move_down();
        } else if scan == SCAN_ROLL_UP && ch == 0 {
            picker.page_up();
        } else if scan == SCAN_ROLL_DOWN && ch == 0 {
            picker.page_down();
        } else if scan == SCAN_HOME && ch == 0 {
            picker.move_home();
        } else if scan == SCAN_END && ch == 0 {
            picker.move_end();
        }
        PickerAction::Stay
    } else {
        if ch == 0x7F {
            picker.path_field.delete();
        } else {
            handle_prompt_field_key(&mut picker.path_field, scan, ch);
        }
        PickerAction::Stay
    }
}

/// What a dialog key leaves to the caller.
#[derive(Debug)]
pub enum OverlayAction {
    /// Nothing beyond the dialog's own change.
    Stay,
    /// The picker goes to the root of this drive (an index, 0 for A:).
    OpenDrive(u8),
    /// Create this directory; the dialog closes when that succeeds.
    CreateDirectory(Vec<u8>),
    /// Delete the confirmed entry.
    Delete(DeleteConfirm),
    /// Open a new file under this name; the dialog closes when that succeeds.
    OpenNewFile(Vec<u8>),
    /// Save the editor's text under this name; the dialog closes when that
    /// succeeds.
    SaveAs(Vec<u8>),
    /// Leave the editor for this action, asking first if the text changed.
    LeaveEditor(PendingAction),
    /// Save the editor's text.
    SaveCurrent,
    /// Save the editor's text; when that succeeds, close the dialog and do
    /// the action.
    SaveThen(PendingAction),
    /// Do the action without saving.
    Run(PendingAction),
}

/// The dialog after a key (before the outcome of its action, where an
/// action closes it on success) and the action.
pub struct OverlayStep {
    pub overlay: Option<Overlay>,
    pub action: OverlayAction,
}

/// The file menu's command on row `selected`.
pub open spec fn menu_item(selected: nat) -> FileMenuItem {
    if selected == 0 {
        FileMenuItem::Open
    } else if selected == 1 {
        FileMenuItem::Save
    } else {
        FileMenuItem::SaveAs
    }
}

/// Whether `r` is what a prompt dialog does with a key: the field takes
/// its keys; Escape closes the dialog; Enter asks for the action that
/// `typed` reads (its argument is the typed text); other keys change
/// nothing. Unless Escape closed it, the same kind of dialog stays (`keep`
/// reads it), with the same title and the field after the key.
pub open spec fn prompt_step(
    p: TextPrompt,
    scan: u8,
    ch: u8,
    keep: spec_fn(Option<Overlay>) -> Option<TextPrompt>,
    typed: spec_fn(OverlayAction) -> Option<Seq<u8>>,
    r: OverlayStep,
) -> bool {
    let key = field_key(p.field@, scan, ch);
    let field = match key {
        Some(f) => f,
        None => p.field@,
    };
    let kept = keep(r.overlay) matches Some(q) && q.title@ == p.title@ && q.field@ == field;
    if key is None && ch == 0x1B {
        r.overlay is None && r.action is Stay
    } else if key is None && ch == 0x0D {
        kept && typed(r.action) == Some(p.field@.0)
    } else {
        kept && r.action is Stay
    }
}

/// Applies a key to a dialog; `editor_path` is the path of the file in
/// the editor, which the Save As prompt starts from.
pub fn overlay_key(overlay: Overlay, scan: u8, ch: u8, editor_path: &[u8]) -> (r: OverlayStep)
    requires
        overlay_wf(overlay),
    ensures
        r.overlay matches Some(o) ==> overlay_wf(o),
        match overlay {
            Overlay::DriveSelect { drives, dialog } => if ch == 0x1B {
                r.overlay is None && r.action is Stay
            } else if scan == SCAN_UP && ch == 0 {
                &&& r.action is Stay
                &&& r.overlay matches Some(Overlay::DriveSelect { drives: d, dialog: g })
                &&& d@ == drives@
                &&& g.selected == list_up(dialog.selected as nat, drives@.len())
            } else if scan == SCAN_DOWN && ch == 0 {
                &&& r.action is Stay
                &&& r.overlay matches Some(Overlay::DriveSelect { drives: d, dialog: g })
                &&& d@ == drives@
                &&& g.selected == list_down(dialog.selected as nat, drives@.len())
            } else if ch == 0x0D {
                &&& r.overlay is None
                &&& if dialog.selected < drives@.len() {
                    r.action == OverlayAction::OpenDrive(drives@[dialog.selected as int])
                } else {
                    r.action is Stay
                }
            } else {
                r.overlay == Some(overlay) && r.action is Stay
            },
            Overlay::CreateDirectory(p) => prompt_step(
                p,
                scan,
                ch,
                |o: Option<Overlay>| if let Some(Overlay::CreateDirectory(q)) = o { Some(q) } else { None },
                |a: OverlayAction| if let OverlayAction::CreateDirectory(t) = a { Some(t@) } else { None },
                r,
            ),
            Overlay::NewFile(p) => prompt_step(
                p,
                scan,
                ch,
                |o: Option<Overlay>| if let Some(Overlay::NewFile(q)) = o { Some(q) } else { None },
                |a: OverlayAction| if let OverlayAction::OpenNewFile(t) = a { Some(t@) } else { None },
                r,
            ),
            Overlay::SaveAs(p) => prompt_step(
                p,
                scan,
                ch,
                |o: Option<Overlay>| if let Some(Overlay::SaveAs(q)) = o { Some(q) } else { None },
                |a: OverlayAction| if let OverlayAction::SaveAs(t) = a { Some(t@) } else { None },
                r,
            ),
            Overlay::DeleteConfirm(c) => if ch == 0x1B {
                r.overlay is None && r.action is Stay
            } else if ch == 0x0D {
                r.overlay is None && r.action == OverlayAction::Delete(c)
            } else {
                r.overlay == Some(overlay) && r.action is Stay
            },
            Overlay::FileMenu(d) => if ch == 0x1B {
                r.overlay is None && r.action is Stay
            } else if scan == SCAN_UP && ch == 0 {
                &&& r.action is Stay
                &&& r.overlay matches Some(Overlay::FileMenu(g))
                &&& g.selected == list_up(d.selected as nat, 3)
            } else if scan == SCAN_DOWN && ch == 0 {
                &&& r.action is Stay
                &&& r.overlay matches Some(Overlay::FileMenu(g))
                &&& g.selected == list_down(d.selected as nat, 3)
            } else if ch == 0x0D {
                match menu_item(d.selected as nat) {
                    FileMenuItem::Open => r.overlay is None && r.action == OverlayAction::LeaveEditor(
                        PendingAction::OpenFilePicker,
                    ),
                    FileMenuItem::Save => r.overlay is None && r.action is SaveCurrent,
                    FileMenuItem::SaveAs => {
                        &&& r.action is Stay
                        &&& r.overlay matches Some(Overlay::SaveAs(q))
                        &&& q.title@ == "Save As".spec_bytes()
                        &&& q.field@ == (editor_path@, editor_path@.len())
                    },
                }
            } else {
                r.overlay == Some(overlay) && r.action is Stay
            },
            Overlay::UnsavedChanges(a) => if ch == 0x1B {
                r.overlay is None && r.action is Stay
            } else if scan == SCAN_F2 && ch == 0 {
                r.overlay == Some(overlay) && r.action == OverlayAction::SaveThen(a)
            } else if scan == SCAN_F3 && ch == 0 {
                r.overlay is None && r.action == OverlayAction::Run(a)
            } else {
                r.overlay == Some(overlay) && r.action is Stay
            },
        },
{
    match overlay {
        Overlay::DriveSelect { drives, mut dialog } => {
            if ch == 0x1B {
                OverlayStep { overlay: None, action: OverlayAction::Stay }
            } else if scan == SCAN_UP && ch == 0 {
                dialog.move_up(drives.len());
                OverlayStep { overlay: Some(Overlay::DriveSelect { drives, dialog }), action: OverlayAction::Stay }
            } else if scan == SCAN_DOWN && ch == 0 {
                dialog.move_down(drives.len());
                OverlayStep { overlay: Some(Overlay::DriveSelect { drives, dialog }), action: OverlayAction::Stay }
            } else if ch == 0x0D {
                let action = if dialog.selected < drives.len() {
                    OverlayAction::OpenDrive(drives[dialog.selected])
                } else {
                    OverlayAction::Stay
                };
                OverlayStep { overlay: None, action }
            } else {
                OverlayStep { overlay: Some(Overlay::DriveSelect { drives, dialog }), action: OverlayAction::Stay }
            }
        },
        Overlay::CreateDirectory(mut prompt) => {
            if handle_prompt_field_key(&mut prompt.field, scan, ch) {
                return OverlayStep { overlay: Some(Overlay::CreateDirectory(prompt)), action: OverlayAction::Stay };
            }
            if ch == 0x1B {
                OverlayStep { overlay: None, action: OverlayAction::Stay }
            } else if ch == 0x0D {
                let typed = vstd::slice::slice_to_vec(prompt.field.bytes());
                OverlayStep { overlay: Some(Overlay::CreateDirectory(prompt)), action: OverlayAction::CreateDirectory(typed) }
            } else {
                OverlayStep { overlay: Some(Overlay::CreateDirectory(prompt)), action: OverlayAction::Stay }
            }
        },
        Overlay::NewFile(mut prompt) => {
            if handle_prompt_field_key(&mut prompt.field, scan, ch) {
                return OverlayStep { overlay: Some(Overlay::NewFile(prompt)), action: OverlayAction::Stay };
            }
            if ch == 0x1B {
                OverlayStep { overlay: None, action: OverlayAction::Stay }
            } else if ch == 0x0D {
                let typed = vstd::slice::slice_to_vec(prompt.field.bytes());
                OverlayStep { overlay: Some(Overlay::NewFile(prompt)), action: OverlayAction::OpenNewFile(typed) }
            } else {
                OverlayStep { overlay: Some(Overlay::NewFile(prompt)), action: OverlayAction::Stay }
            }
        },
        Overlay::SaveAs(mut prompt) => {
            if handle_prompt_field_key(&mut prompt.field, scan, ch) {
                return OverlayStep { overlay: Some(Overlay::SaveAs(prompt)), action: OverlayAction::Stay };
            }
            if ch == 0x1B {
                OverlayStep { overlay: None, action: OverlayAction::Stay }
            } else if ch == 0x0D {
                let typed = vstd::slice::slice_to_vec(prompt.field.bytes());
                OverlayStep { overlay: Some(Overlay::SaveAs(prompt)), action: OverlayAction::SaveAs(typed) }
            } else {
                OverlayStep { overlay: Some(Overlay::SaveAs(prompt)), action: OverlayAction::Stay }
            }
        },
        Overlay::DeleteConfirm(confirm) => {
            if ch == 0x1B {
                OverlayStep { overlay: None, action: OverlayAction::Stay }
            } else if ch == 0x0D {
                OverlayStep { overlay: None, action: OverlayAction::Delete(confirm) }
            } else {
                OverlayStep { overlay: Some(Overlay::DeleteConfirm(confirm)), action: OverlayAction::Stay }
            }
        },
        Overlay::FileMenu(mut dialog) => {
            let items = FileMenuItem::all();
            if ch == 0x1B {
                OverlayStep { overlay: None, action: OverlayAction::Stay }
            } else if scan == SCAN_UP && ch == 0 {
                dialog.move_up(3);
                OverlayStep { overlay: Some(Overlay::FileMenu(dialog)), action: OverlayAction::Stay }
            } else if scan == SCAN_DOWN && ch == 0 {
                dialog.move_down(3);
                OverlayStep { overlay: Some(Overlay::FileMenu(dialog)), action: OverlayAction::Stay }
            } else if ch == 0x0D {
                match items[dialog.selected] {
                    FileMenuItem::Open => OverlayStep {
                        overlay: None,
                        action: OverlayAction::LeaveEditor(PendingAction::OpenFilePicker),
                    },
                    FileMenuItem::Save => OverlayStep { overlay: None, action: OverlayAction::SaveCurrent },
                    FileMenuItem::SaveAs => {
                        let path = vstd::slice::slice_to_vec(editor_path);
                        let prompt = TextPrompt::new("Save As".as_bytes(), path);
                        OverlayStep { overlay: Some(Overlay::SaveAs(prompt)), action: OverlayAction::Stay }
                    },
                }
            } else {
                OverlayStep { overlay: Some(Overlay::FileMenu(dialog)), action: OverlayAction::Stay }
            }
        },
        Overlay::UnsavedChanges(action) => {
            if ch == 0x1B {
                OverlayStep { overlay: None, action: OverlayAction::Stay }
            } else if scan == SCAN_F2 && ch == 0 {
                OverlayStep { overlay: Some(Overlay::UnsavedChanges(action)), action: OverlayAction::SaveThen(action) }
            } else if scan == SCAN_F3 && ch == 0 {
                OverlayStep { overlay: None, action: OverlayAction::Run(action) }
            } else {
                OverlayStep { overlay: Some(Overlay::UnsavedChanges(action)), action: OverlayAction::Stay }
            }
        },
    }
}

/// A path made absolute: normalized, on its own drive (or the current
/// one), from that drive's root when it starts with a backslash, else from
/// that drive's current directory, with the components joined by
/// backslashes.
pub open spec fn absolute_of(f: Image, layout: CdsLayout, current_drive: u8, path: Seq<u8>) -> Seq<u8> {
    let (d, comps, is_absolute) = split_path_spec(normalized(path));
    let drive = match d {
        Some(x) => x,
        None => current_drive,
    };
    let base = if is_absolute {
        seq![(0x41 + drive) as u8, 0x3Au8, 0x5Cu8]
    } else {
        current_directory_of(f, layout, drive)
    };
    if comps.len() == 0 {
        base
    } else {
        (if base.len() > 0 && base.last() == 0x5C {
            base
        } else {
            base.push(0x5C)
        }) + join_backslash(comps)
    }
}

/// Makes a typed path absolute, as the editor does before it opens or
/// saves a file.
pub fn absolute_path<M: MemoryAccess>(memory: &M, layout: CdsLayout, current_drive: u8, path: &[u8]) -> (r: Vec<u8>)
    requires
        layout_fits(layout),
        current_drive < 26,
    ensures
        r@ == absolute_of(image(memory), layout, current_drive, path@),
{
    let normalized_path = normalize_path(path);
    let (drive_opt, components, is_absolute) = split_path(normalized_path.as_slice());
    let ghost cs = components@.map_values(|c: &[u8]| c@);
    proof {
        lemma_drive_bound(normalized_path@);
    }
    let drive: u8 = match drive_opt {
        Some(d) => d,
        None => current_drive,
    };
    let mut full = if is_absolute {
        let root = vec![0x41 + drive, 0x3A, 0x5C];
        assert(root@ =~= seq![(0x41 + drive) as u8, 0x3Au8, 0x5Cu8]);
        root
    } else {
        current_directory_path(memory, layout, drive)
    };
    if components.len() == 0 {
        return full;
    }
    if !(full.len() > 0 && full[full.len() - 1] == 0x5C) {
        full.push(0x5C);
    }
    let ghost base = full@;
    let count = components.len();
    let mut index: usize = 0;
    assert(join_backslash(cs.take(0)) =~= Seq::<u8>::empty());
    assert(full@ =~= base + join_backslash(cs.take(0)));
    while index < count
        invariant
            count == cs.len(),
            cs == components@.map_values(|c: &[u8]| c@),
            count == components@.len(),
            index <= count,
            full@ == base + join_backslash(cs.take(index as int)),
        decreases count - index,
    {
        proof {
            lemma_join_step(cs, index as int);
        }
        if index > 0 {
            full.push(0x5C);
        }
        let component = components[index];
        assert(component@ == cs[index as int]);
        let ghost start = full@;
        push_bytes(&mut full, component);
        index = index + 1;
        assert(full@ =~= base + join_backslash(cs.take(index as int)));
    }
    assert(cs.take(index as int) =~= cs);
    full
}

/// What leaving the editor for `action` does: with unsaved changes, the
/// question about them is shown and the action waits; else the action is
/// done at once.
pub fn request_editor_leave(modified: bool, action: PendingAction) -> (r: Result<PendingAction, Overlay>)
    ensures
        modified ==> r == Err::<PendingAction, Overlay>(Overlay::UnsavedChanges(action)),
        !modified ==> r == Ok::<PendingAction, Overlay>(action),
{
    if modified {
        Err(Overlay::UnsavedChanges(action))
    } else {
        Ok(action)
    }
}

} // verus!
