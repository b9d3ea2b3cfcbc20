pub mod app;
pub mod argon2;
pub mod file_encrypt;
pub mod hashing;
pub mod modals;
pub mod panels;
pub mod text;

use vstd::prelude::*;
use crate::gui::argon2::{balanced, Argon2Settings};
use crate::gui::file_encrypt::FileEncryptionUi;
use crate::gui::hashing::{HashAlgorithm, HashingState, TextHashingUi};
use crate::gui::modals::{LoadingWindow, MsgWindow};

verus! {

/// The state of every window of the tool.
pub struct GUI {
    pub argon2: Argon2Settings,
    pub file_encryption_ui: FileEncryptionUi,
    pub text_hashing_ui: TextHashingUi,
    pub loading_window: LoadingWindow,
    pub msg_window: MsgWindow,
}

impl Default for GUI {
    /// The file encryption window shown, every other window hidden, the
    /// balanced Argon2 preset and no text anywhere.
    fn default() -> (gui: Self)
        ensures
            !gui.argon2.spec_is_open(),
            gui.argon2.spec_params() == balanced(),
            gui.file_encryption_ui.spec_is_open(),
            gui.file_encryption_ui.spec_file_path() == Seq::<char>::empty(),
            gui.text_hashing_ui@ == (HashingState {
                open: false,
                algorithm: HashAlgorithm::Sha3_224,
                rounds: 0,
                input_text: Seq::empty(),
                input_len: 0,
                output_hash: Seq::empty(),
            }),
            !gui.loading_window.spec_is_open(),
            gui.loading_window.spec_msg() == Seq::<char>::empty(),
            !gui.msg_window.spec_is_open(),
            gui.msg_window.spec_message() == Seq::<char>::empty(),
    {
        GUI {
            argon2: Argon2Settings::new(),
            file_encryption_ui: FileEncryptionUi::new(),
            text_hashing_ui: TextHashingUi::new(),
            loading_window: LoadingWindow::new(),
            msg_window: MsgWindow::new(),
        }
    }
}

impl GUI {
    /// Shows `msg` in the message window.
    pub fn open_msg_window(&mut self, msg: String)
        ensures
            final(self).msg_window.spec_is_open(),
            final(self).msg_window.spec_message() == msg@,
            final(self).argon2 == old(self).argon2,
            final(self).file_encryption_ui == old(self).file_encryption_ui,
            final(self).text_hashing_ui == old(self).text_hashing_ui,
            final(self).loading_window == old(self).loading_window,
    {
        self.msg_window.open(msg);
    }
}

} // verus!
