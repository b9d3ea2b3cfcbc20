use vstd::prelude::*;

verus! {

/// The window shown while a file is being encrypted or decrypted.
pub struct LoadingWindow {
    open: bool,
    pub msg: String,
}

impl LoadingWindow {
    /// Whether the window is shown.
    pub closed spec fn spec_is_open(&self) -> bool {
        self.open
    }

    /// The text shown under the spinner.
    pub closed spec fn spec_msg(&self) -> Seq<char> {
        self.msg@
    }

    /// A hidden window with no text.
    pub fn new() -> (window: Self)
        ensures
            !window.spec_is_open(),
            window.spec_msg() == Seq::<char>::empty(),
    {
        LoadingWindow { open: false, msg: String::new() }
    }

    pub fn is_open(&self) -> (open: bool)
        ensures
            open == self.spec_is_open(),
    {
        self.open
    }

    /// Shows the window with the text `msg`.
    pub fn open(&mut self, msg: String)
        ensures
            final(self).spec_is_open(),
            final(self).spec_msg() == msg@,
    {
        self.open = true;
        self.msg = msg;
    }

    /// Hides the window and clears its text.
    pub fn reset(&mut self)
        ensures
            !final(self).spec_is_open(),
            final(self).spec_msg() == Seq::<char>::empty(),
    {
        self.open = false;
        self.msg = String::new();
    }
}

/// The window that shows the outcome of an operation.
pub struct MsgWindow {
    open: bool,
    pub message: String,
}

impl MsgWindow {
    /// Whether the window is shown.
    pub closed spec fn spec_is_open(&self) -> bool {
        self.open
    }

    /// The message shown.
    pub closed spec fn spec_message(&self) -> Seq<char> {
        self.message@
    }

    /// A hidden window with no message.
    pub fn new() -> (window: Self)
        ensures
            !window.spec_is_open(),
            window.spec_message() == Seq::<char>::empty(),
    {
        MsgWindow { open: false, message: String::new() }
    }

    pub fn is_open(&self) -> (open: bool)
        ensures
            open == self.spec_is_open(),
    {
        self.open
    }

    /// Shows the window with the message `msg`.
    pub fn open(&mut self, msg: String)
        ensures
            final(self).spec_is_open(),
            final(self).spec_message() == msg@,
    {
        self.open = true;
        self.message = msg;
    }

    /// Hides the window; the message stays.
    pub fn reset(&mut self)
        ensures
            !final(self).spec_is_open(),
            final(self).spec_message() == old(self).spec_message(),
    {
        self.open = false;
    }
}

} // verus!
