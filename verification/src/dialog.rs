//! Selection state of the editor's list dialogs and its file menu.

use vstd::prelude::*;
use crate::input::ByteField;

verus! {

/// A command of the editor's file menu.
#[derive(Debug, Clone, Copy, PartialEq, Eq, Structural)]
pub enum FileMenuItem {
    Open,
    Save,
    SaveAs,
}

impl FileMenuItem {
    /// The menu's commands, top to bottom.
    pub fn all() -> (r: [FileMenuItem; 3])
        ensures
            r@ == seq![FileMenuItem::Open, FileMenuItem::Save, FileMenuItem::SaveAs],
    {
        let r = [FileMenuItem::Open, FileMenuItem::Save, FileMenuItem::SaveAs];
        assert(r@ =~= seq![FileMenuItem::Open, FileMenuItem::Save, FileMenuItem::SaveAs]);
        r
    }

    /// The text shown for the command.
    pub fn label(self) -> (r: Vec<u8>)
        ensures
            r@ == menu_label(self),
    {
        let r = match self {
            FileMenuItem::Open => vec![0x4Fu8, 0x70, 0x65, 0x6E, 0x2E, 0x2E, 0x2E],
            FileMenuItem::Save => vec![0x53u8, 0x61, 0x76, 0x65],
            FileMenuItem::SaveAs => vec![0x53u8, 0x61, 0x76, 0x65, 0x20, 0x41, 0x73, 0x2E, 0x2E, 0x2E],
        };
        assert(r@ =~= menu_label(self));
        r
    }
}

/// The text shown for a command of the file menu.
pub open spec fn menu_label(item: FileMenuItem) -> Seq<u8> {
    match item {
        FileMenuItem::Open => seq![0x4Fu8, 0x70, 0x65, 0x6E, 0x2E, 0x2E, 0x2E],
        FileMenuItem::Save => seq![0x53u8, 0x61, 0x76, 0x65],
        FileMenuItem::SaveAs => seq![0x53u8, 0x61, 0x76, 0x65, 0x20, 0x41, 0x73, 0x2E, 0x2E, 0x2E],
    }
}

/// The selection after moving up in a list of `max` rows.
pub open spec fn list_up(selected: nat, max: nat) -> nat {
    if max == 0 {
        0
    } else if selected > 0 {
        (selected - 1) as nat
    } else {
        0
    }
}

/// The selection after moving down in a list of `max` rows.
pub open spec fn list_down(selected: nat, max: nat) -> nat {
    if max > 0 && selected + 1 < max {
        selected + 1
    } else {
        selected
    }
}

/// The selected row of a list dialog.
#[derive(Debug)]
pub struct ListDialog {
    pub selected: usize,
}

impl ListDialog {
    pub fn new() -> (r: ListDialog)
        ensures
            r.selected == 0,
    {
        ListDialog { selected: 0 }
    }

    /// Moves the selection up one row, in a list of `max` rows.
    pub fn move_up(&mut self, max: usize)
        ensures
            final(self).selected == list_up(old(self).selected as nat, max as nat),
    {
        if max == 0 {
            self.selected = 0;
        } else if self.selected > 0 {
            self.selected -= 1;
        }
    }

    /// Moves the selection down one row, in a list of `max` rows.
    pub fn move_down(&mut self, max: usize)
        ensures
            final(self).selected == list_down(old(self).selected as nat, max as nat),
    {
        if max > 0 && self.selected < max - 1 {
            self.selected += 1;
        }
    }
}

/// The title and input field of a text prompt.
#[derive(Debug)]
pub struct TextPrompt {
    pub title: Vec<u8>,
    pub field: ByteField,
}

impl TextPrompt {
    /// A prompt titled `title` whose field holds `value`, the cursor at its end.
    pub fn new(title: &[u8], value: Vec<u8>) -> (r: TextPrompt)
        ensures
            r.title@ == title@,
            r.field@ == (value@, value@.len()),
    {
        TextPrompt { title: vstd::slice::slice_to_vec(title), field: ByteField::new(value) }
    }
}

/// Moving down and then up in a list returns to the selected row when a
/// row below it exists.
pub proof fn lemma_down_then_up(selected: nat, max: nat)
    requires
        selected + 1 < max,
    ensures
        list_up(list_down(selected, max), max) == selected,
{
}

/// What the editor does once a dialog about unsaved changes is answered.
#[derive(Debug, Clone, Copy, PartialEq, Eq, Structural)]
pub enum PendingAction {
    OpenFilePicker,
}

/// A deletion that waits for confirmation.
#[derive(Debug)]
pub struct DeleteConfirm {
    pub display_name: Vec<u8>,
    pub full_path: Vec<u8>,
    pub is_directory: bool,
}

/// A dialog shown over the picker or the editor.
#[derive(Debug)]
pub enum Overlay {
    /// The drive list (drive indexes) and its selection.
    DriveSelect { drives: Vec<u8>, dialog: ListDialog },
    CreateDirectory(TextPrompt),
    DeleteConfirm(DeleteConfirm),
    FileMenu(ListDialog),
    NewFile(TextPrompt),
    SaveAs(TextPrompt),
    UnsavedChanges(PendingAction),
}

/// A dialog in a state its keys can work on: the cursor of a prompt's
/// field stands within it, and the file menu's selection names a command.
pub open spec fn overlay_wf(o: Overlay) -> bool {
    match o {
        Overlay::CreateDirectory(p) => p.field.wf(),
        Overlay::NewFile(p) => p.field.wf(),
        Overlay::SaveAs(p) => p.field.wf(),
        Overlay::FileMenu(d) => d.selected < 3,
        _ => true,
    }
}

} // verus!
