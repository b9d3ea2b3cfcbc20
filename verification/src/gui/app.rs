use vstd::prelude::*;

verus! {

/// What to do with the window when a frame starts.
#[derive(Clone, Copy, PartialEq, Eq, Structural, Debug)]
pub enum ShutdownAction {
    /// Leave the window alone: no close was asked for, or the close may go through.
    Nothing,
    /// Refuse the close; the secrets are already being erased.
    CancelClose,
    /// Refuse the close and start erasing the secrets, after which the
    /// window is closed for good.
    CancelCloseAndCleanUp,
}

/// The step that a close request takes: from whether the clean-up has
/// started, whether a close was asked for and whether closing is allowed yet,
/// to whether the clean-up has started after it and what to do.
pub open spec fn shutdown_step(started: bool, close_requested: bool, close_allowed: bool) -> (
    bool,
    ShutdownAction,
) {
    if !close_requested || close_allowed {
        (started, ShutdownAction::Nothing)
    } else if started {
        (started, ShutdownAction::CancelClose)
    } else {
        (true, ShutdownAction::CancelCloseAndCleanUp)
    }
}

/// The application shell: whether the style was applied and whether the
/// clean-up before closing has started.
pub struct SwissKnifeApp {
    pub style_has_been_set: bool,
    shutdown_started: bool,
}

impl SwissKnifeApp {
    /// Whether the clean-up before closing has started.
    pub closed spec fn spec_shutdown_started(&self) -> bool {
        self.shutdown_started
    }

    /// Whether the theme's style was applied to the window.
    pub closed spec fn spec_style_set(&self) -> bool {
        self.style_has_been_set
    }

    /// The shell before its first frame.
    pub fn new() -> (app: Self)
        ensures
            !app.spec_style_set(),
            !app.spec_shutdown_started(),
    {
        SwissKnifeApp { style_has_been_set: false, shutdown_started: false }
    }

    /// Whether this frame applies the theme's style: only the first one does.
    pub fn style_once(&mut self) -> (apply: bool)
        ensures
            apply == !old(self).spec_style_set(),
            final(self).spec_style_set(),
            final(self).spec_shutdown_started() == old(self).spec_shutdown_started(),
    {
        let apply = !self.style_has_been_set;
        self.style_has_been_set = true;
        apply
    }

    /// Decides what a frame does about a close request.
    pub fn on_shutdown(&mut self, close_requested: bool, close_allowed: bool) -> (action:
        ShutdownAction)
        ensures
            (final(self).spec_shutdown_started(), action) == shutdown_step(
                old(self).spec_shutdown_started(),
                close_requested,
                close_allowed,
            ),
            final(self).spec_style_set() == old(self).spec_style_set(),
    {
        if !close_requested || close_allowed {
            return ShutdownAction::Nothing;
        }
        if self.shutdown_started {
            return ShutdownAction::CancelClose;
        }
        self.shutdown_started = true;
        ShutdownAction::CancelCloseAndCleanUp
    }
}

/// The clean-up starts at most once: once started it stays started and is
/// never started again; a close that is not allowed yet is always refused;
/// and a close that is allowed always goes through.
pub proof fn lemma_shutdown_cleans_up_once(started: bool, close_requested: bool, close_allowed: bool)
    ensures
        started ==> shutdown_step(started, close_requested, close_allowed).0,
        started ==> shutdown_step(started, close_requested, close_allowed).1
            != ShutdownAction::CancelCloseAndCleanUp,
        shutdown_step(started, close_requested, close_allowed).1
            == ShutdownAction::CancelCloseAndCleanUp ==> !started && shutdown_step(
            started,
            close_requested,
            close_allowed,
        ).0,
        close_requested && !close_allowed ==> shutdown_step(
            started,
            close_requested,
            close_allowed,
        ).1 != ShutdownAction::Nothing,
        close_allowed ==> shutdown_step(started, close_requested, close_allowed).1
            == ShutdownAction::Nothing,
{
}

} // verus!
