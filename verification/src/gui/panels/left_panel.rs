use vstd::prelude::*;
use crate::gui::hashing::HashingState;
use crate::gui::GUI;

verus! {

/// The tools the side panel switches between.
#[derive(Clone, Copy, PartialEq, Eq, Structural, Debug)]
pub enum Tool {
    Encrypt,
    Hash,
}

/// Exactly the window of `tool` is shown, of the two tool windows.
pub open spec fn shows_only(gui: &GUI, tool: Tool) -> bool {
    match tool {
        Tool::Encrypt => gui.file_encryption_ui.spec_is_open() && !gui.text_hashing_ui@.open,
        Tool::Hash => gui.text_hashing_ui@.open && !gui.file_encryption_ui.spec_is_open(),
    }
}

/// What a click on a tool in the side panel does: it shows that tool's
/// window and hides the other one; nothing else changes.
pub fn select(gui: &mut GUI, tool: Tool)
    ensures
        shows_only(final(gui), tool),
        final(gui).file_encryption_ui.spec_file_path() == old(gui).file_encryption_ui.spec_file_path(),
        final(gui).text_hashing_ui@ == (HashingState {
            open: tool == Tool::Hash,
            ..old(gui).text_hashing_ui@
        }),
        final(gui).argon2 == old(gui).argon2,
        final(gui).loading_window == old(gui).loading_window,
        final(gui).msg_window == old(gui).msg_window,
{
    match tool {
        Tool::Encrypt => {
            gui.file_encryption_ui.open();
            gui.text_hashing_ui.close();
        },
        Tool::Hash => {
            gui.text_hashing_ui.open();
            gui.file_encryption_ui.close();
        },
    }
}

} // verus!
