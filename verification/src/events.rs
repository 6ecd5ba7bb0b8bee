//! The event loop's decisions: which events are ignored, when start-up may
//! be left, how the blocking overlay takes keys, what the start-up loaders'
//! messages do, and what an Insert-mode key does.

use vstd::prelude::*;

use crate::editor::{Editor, Mode};
use crate::history::SessionState;
use crate::keys::{insert_command, spec_insert_command, Effect, InsertCommand, KeyCode, KeyInput};
use crate::overlay::{is_blocking, OverlayState};
use crate::session::{intonations_views, lines_views};
use crate::speakers::SpeakerTable;

verus! {

/// How the editor was left.
#[derive(Debug, Clone, Copy, PartialEq, Eq, Structural)]
pub enum ExitDisposition {
    /// Save the tabs and the session.
    PersistState,
    /// Left during start-up: nothing to save.
    SkipPersistState,
}

/// How an update is run once the user chose it.
#[derive(Debug, Clone, Copy, PartialEq, Eq, Structural)]
pub enum UpdateAction {
    /// In the foreground, showing the build log in the terminal.
    Foreground,
}

/// A WAV to play and the text it was made from.
pub struct PlayRequest {
    pub wav: Vec<u8>,
    pub source_text: String,
}

/// The history read at start-up.
pub struct LoadedHistory<I> {
    pub all_lines: Vec<Vec<String>>,
    pub all_intonations: Vec<Vec<Option<I>>>,
    pub session_state: SessionState,
}

/// A message of the start-up loader of the engine and the speakers.
pub enum RuntimeStartupEvent {
    Status(String),
    Ready(Result<(), String>),
}

/// What polling a loader's channel gives.
pub enum Poll<T> {
    Ready(T),
    Empty,
    Disconnected,
}

/// Why start-up failed.
#[derive(Debug, PartialEq, Eq)]
pub enum StartupError {
    /// A loader failed with this error.
    Failed(String),
    HistoryLoaderDisconnected,
    RuntimeLoaderDisconnected,
}

impl StartupError {
    /// The text the error is displayed with.
    pub fn message(&self) -> (m: String)
        ensures
            m@ == match self {
                StartupError::Failed(_) => "startup error"@,
                StartupError::HistoryLoaderDisconnected => "startup error: history loader disconnected"@,
                StartupError::RuntimeLoaderDisconnected => "startup error: runtime loader disconnected"@,
            },
    {
        match self {
            StartupError::Failed(_) => "startup error".to_owned(),
            StartupError::HistoryLoaderDisconnected => "startup error: history loader disconnected".to_owned(),
            StartupError::RuntimeLoaderDisconnected => "startup error: runtime loader disconnected".to_owned(),
        }
    }

    /// The loader's own error, under the start-up error.
    pub fn source(&self) -> (s: Option<String>)
        ensures
            match self {
                StartupError::Failed(m) => s is Some && s->0@ == m@,
                _ => s is None,
            },
    {
        match self {
            StartupError::Failed(m) => Some(m.clone()),
            _ => None,
        }
    }
}

/// An event of the terminal.
#[derive(Debug, Clone, Copy, PartialEq, Eq, Structural)]
pub enum UiEvent {
    Key(KeyInput),
    FocusGained,
    FocusLost,
    Other,
}

/// During start-up only a Ctrl+C press leaves.
pub fn should_exit_during_startup(ev: UiEvent) -> (b: bool)
    ensures
        b == (ev matches UiEvent::Key(k) && k.press && k.code == KeyCode::Char('c') && k.ctrl),
{
    match ev {
        UiEvent::Key(k) => k.press && k.code == KeyCode::Char('c') && k.ctrl,
        _ => false,
    }
}

/// Whether the terminal window gained (`true`) or lost focus.
pub fn focus_change(ev: UiEvent) -> (r: Option<bool>)
    ensures
        r == match ev {
            UiEvent::FocusGained => Some(true),
            UiEvent::FocusLost => Some(false),
            _ => None::<bool>,
        },
{
    match ev {
        UiEvent::FocusGained => Some(true),
        UiEvent::FocusLost => Some(false),
        _ => None,
    }
}

/// Key releases and repeats are ignored; only presses count.
pub fn should_ignore_key_event(ev: UiEvent) -> (b: bool)
    ensures
        b == (ev matches UiEvent::Key(k) && !k.press),
{
    match ev {
        UiEvent::Key(k) => !k.press,
        _ => false,
    }
}

/// While a blocking overlay is shown it takes every event, and Enter
/// dismisses it. Answers whether the event was taken.
pub fn handle_blocking_overlay(overlay: &mut OverlayState, ev: UiEvent) -> (taken: bool)
    ensures
        taken == is_blocking(old(overlay).message),
        !taken ==> *final(overlay) == *old(overlay),
        taken ==> (if ev matches UiEvent::Key(k) && k.code == KeyCode::Enter {
            final(overlay).message is None
        } else {
            final(overlay).message == old(overlay).message
        }),
        final(overlay).startup_message == old(overlay).startup_message,
        final(overlay).startup_in_progress == old(overlay).startup_in_progress,
{
    if !overlay.has_blocking_overlay_message() {
        return false;
    }
    match ev {
        UiEvent::Key(k) => if k.code == KeyCode::Enter {
            overlay.dismiss_blocking_overlay_message();
        },
        _ => {},
    }
    true
}

impl<I: Clone> Editor<I> {
    /// The history loader's answer: a loaded history is applied (true),
    /// nothing yet is false, a failure or a lost loader is an error.
    pub fn handle_startup_load(&mut self, poll: Poll<Result<LoadedHistory<I>, String>>) -> (r: Result<bool, StartupError>)
        requires
            old(self).wf(),
        ensures
            final(self).wf(),
            match poll {
                Poll::Ready(Ok(h)) => r == Ok::<bool, StartupError>(true) && exists|m: Editor<I>|
                    #![trigger m.loaded_from(lines_views(h.all_lines@), intonations_views(h.all_intonations@))]
                    m.wf() && m.loaded_from(lines_views(h.all_lines@), intonations_views(h.all_intonations@))
                        && final(self).restored_from(&m, h.session_state),
                Poll::Ready(Err(e)) => (r matches Err(StartupError::Failed(m)) && m@ == e@) && *final(self) == *old(self),
                Poll::Empty => r == Ok::<bool, StartupError>(false) && *final(self) == *old(self),
                Poll::Disconnected => r == Err::<bool, StartupError>(StartupError::HistoryLoaderDisconnected)
                    && *final(self) == *old(self),
            },
    {
        match poll {
            Poll::Ready(Ok(h)) => {
                let LoadedHistory { all_lines, all_intonations, session_state } = h;
                self.apply_loaded_history(all_lines, all_intonations, &session_state);
                Ok(true)
            },
            Poll::Ready(Err(e)) => Err(StartupError::Failed(e)),
            Poll::Empty => Ok(false),
            Poll::Disconnected => Err(StartupError::HistoryLoaderDisconnected),
        }
    }

    /// The runtime loader's message: a status is shown (false), readiness is
    /// true, nothing yet is false, a failure or a lost loader is an error.
    pub fn handle_runtime_startup(&mut self, poll: Poll<RuntimeStartupEvent>) -> (r: Result<bool, StartupError>)
        ensures
            match poll {
                Poll::Ready(RuntimeStartupEvent::Status(s)) => r == Ok::<bool, StartupError>(false)
                    && final(self).status_msg == s,
                Poll::Ready(RuntimeStartupEvent::Ready(Ok(()))) => r == Ok::<bool, StartupError>(true)
                    && final(self).status_msg == old(self).status_msg,
                Poll::Ready(RuntimeStartupEvent::Ready(Err(e))) => (r matches Err(StartupError::Failed(m)) && m@
                    == e@) && final(self).status_msg == old(self).status_msg,
                Poll::Empty => r == Ok::<bool, StartupError>(false) && final(self).status_msg == old(self).status_msg,
                Poll::Disconnected => r == Err::<bool, StartupError>(StartupError::RuntimeLoaderDisconnected)
                    && final(self).status_msg == old(self).status_msg,
            },
            final(self).lines == old(self).lines,
            final(self).line_intonations == old(self).line_intonations,
            final(self).cursor == old(self).cursor,
            final(self).tabs == old(self).tabs,
            final(self).active_tab == old(self).active_tab,
            final(self).mode == old(self).mode,
    {
        match poll {
            Poll::Ready(RuntimeStartupEvent::Status(s)) => {
                self.status_msg = s;
                Ok(false)
            },
            Poll::Ready(RuntimeStartupEvent::Ready(Ok(()))) => Ok(true),
            Poll::Ready(RuntimeStartupEvent::Ready(Err(e))) => Err(StartupError::Failed(e)),
            Poll::Empty => Ok(false),
            Poll::Disconnected => Err(StartupError::RuntimeLoaderDisconnected),
        }
    }

    /// A key in Insert mode with the edit buffer holding `raw`: Esc commits
    /// it, Enter without modifiers commits it and opens a line below; the
    /// committed cursor line is then played. Other keys are the edit
    /// buffer's (`None`).
    pub fn handle_insert_key(&mut self, t: &SpeakerTable, key: KeyInput, raw: &str) -> (r: Option<(usize, Option<String>)>)
        requires
            old(self).wf(),
            old(self).lines@.len() + crate::insert::committed_pieces(t@, raw@).len() < usize::MAX,
        ensures
            final(self).wf(),
            match spec_insert_command(key) {
                InsertCommand::Commit => {
                    &&& final(self).committed_from(old(self), t@, raw@)
                    &&& final(self).mode == Mode::Normal
                    &&& final(self).status_msg@ == "ready"@
                    &&& r == Some((final(self).cursor, None::<String>))
                },
                InsertCommand::CommitAndOpenBelow => r matches Some((played, Some(text))) && exists|m: Editor<I>|
                    #![trigger m.committed_from(old(self), t@, raw@)]
                    m.committed_from(old(self), t@, raw@) && m.opened_into(*final(self), t@, true, text@) && played
                        == m.cursor,
                _ => r is None && *final(self) == *old(self),
            },
    {
        match insert_command(key) {
            InsertCommand::Commit => {
                self.commit_insert(t, raw);
                Some((self.cursor, None))
            },
            InsertCommand::CommitAndOpenBelow => {
                let text = self.commit_and_insert_below(t, raw);
                Some((self.cursor - 1, Some(text)))
            },
            _ => None,
        }
    }
}


/// Where start-up stands: whether the history and the runtime are still
/// loading in the background, and whether the editor still waits for its
/// first play and prefetch once both are done.
#[derive(Debug, Clone, Copy, PartialEq, Eq, Structural)]
pub struct StartupProgress {
    pub history_pending: bool,
    pub runtime_pending: bool,
    pub needs_init: bool,
}

impl StartupProgress {
    /// Start-up with the history and the runtime loading or not; with
    /// nothing loading the editor starts at once.
    pub fn new(history_pending: bool, runtime_pending: bool) -> (p: StartupProgress)
        ensures
            p == (StartupProgress { history_pending, runtime_pending, needs_init: !history_pending && !runtime_pending }),
    {
        StartupProgress { history_pending, runtime_pending, needs_init: !history_pending && !runtime_pending }
    }

    /// Whether anything still loads.
    pub fn pending(&self) -> (b: bool)
        ensures
            b == (self.history_pending || self.runtime_pending),
    {
        self.history_pending || self.runtime_pending
    }

    /// The history was loaded: the editor starts when the runtime is not
    /// loading any more.
    pub fn history_done(&mut self)
        ensures
            *final(self) == (StartupProgress {
                history_pending: false,
                needs_init: !old(self).runtime_pending,
                ..*old(self)
            }),
    {
        self.history_pending = false;
        self.needs_init = !self.runtime_pending;
    }

    /// The runtime was loaded: the editor starts when the history is not
    /// loading any more.
    pub fn runtime_done(&mut self)
        ensures
            *final(self) == (StartupProgress {
                runtime_pending: false,
                needs_init: !old(self).history_pending,
                ..*old(self)
            }),
    {
        self.runtime_pending = false;
        self.needs_init = !self.history_pending;
    }

    /// Whether the state is saved now: not while anything loads, and only
    /// when `elapsed_ms` since the last save reached `interval_ms`.
    pub fn autosave_due(&self, elapsed_ms: u64, interval_ms: u64) -> (b: bool)
        ensures
            b == (!self.history_pending && !self.runtime_pending && elapsed_ms >= interval_ms),
    {
        !self.history_pending && !self.runtime_pending && elapsed_ms >= interval_ms
    }

    /// Whether the editor starts now (play and prefetch the cursor line):
    /// once, when nothing loads any more.
    pub fn take_init(&mut self) -> (go: bool)
        ensures
            go == (!old(self).history_pending && !old(self).runtime_pending && old(self).needs_init),
            *final(self) == (StartupProgress { needs_init: old(self).needs_init && !go, ..*old(self) }),
    {
        let go = !self.history_pending && !self.runtime_pending && self.needs_init;
        if go {
            self.needs_init = false;
        }
        go
    }
}

} // verus!
