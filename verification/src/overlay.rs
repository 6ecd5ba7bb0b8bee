//! Transient messages shown over the editor: the voice-render overlay, the
//! mascot overlay (timed or blocking), the startup overlay and runtime notices.
//! Times are milliseconds on a clock that the caller reads.

use vstd::prelude::*;

verus! {

/// How long a timed overlay or a runtime notice stays, in milliseconds.
pub const OVERLAY_DURATION_MS: u64 = 5000;

// ── voice-render overlay ───────────────────────────────────────────────────

/// "Rendering voice" message with a generation counter, so that a finished
/// request clears only the message it started itself.
pub struct VoiceRenderOverlay {
    message: Option<(String, u64)>,
    generation: u64,
}

impl View for VoiceRenderOverlay {
    type V = (Option<(Seq<char>, u64)>, u64);

    closed spec fn view(&self) -> (Option<(Seq<char>, u64)>, u64) {
        (
            match self.message {
                Some(m) => Some((m.0@, m.1)),
                None => None,
            },
            self.generation,
        )
    }
}

pub open spec fn sat_inc(g: u64) -> u64 {
    if g < u64::MAX {
        (g + 1) as u64
    } else {
        g
    }
}

/// A call on the voice-render overlay: `start` with a message, `clear`, or
/// `clear_if_current` with a generation.
pub enum VoiceRenderOp {
    Start(Seq<char>),
    Clear,
    ClearIfCurrent(u64),
}

/// The overlay (as its view) after one call.
pub open spec fn voice_render_after(v: (Option<(Seq<char>, u64)>, u64), op: VoiceRenderOp) -> (
    Option<(Seq<char>, u64)>,
    u64,
) {
    match op {
        VoiceRenderOp::Start(m) => (Some((m, sat_inc(v.1))), sat_inc(v.1)),
        VoiceRenderOp::Clear => (None, sat_inc(v.1)),
        VoiceRenderOp::ClearIfCurrent(g) => (
            match v.0 {
                Some(m) => if m.1 == g {
                    None
                } else {
                    Some(m)
                },
                None => None,
            },
            v.1,
        ),
    }
}

/// The overlay after the calls `ops`, in order.
pub open spec fn voice_render_after_all(v: (Option<(Seq<char>, u64)>, u64), ops: Seq<VoiceRenderOp>) -> (
    Option<(Seq<char>, u64)>,
    u64,
)
    decreases ops.len(),
{
    if ops.len() == 0 {
        v
    } else {
        voice_render_after(voice_render_after_all(v, ops.drop_last()), ops.last())
    }
}

proof fn lemma_generation_never_falls(v: (Option<(Seq<char>, u64)>, u64), ops: Seq<VoiceRenderOp>)
    ensures
        voice_render_after_all(v, ops).1 >= v.1,
    decreases ops.len(),
{
    if ops.len() > 0 {
        lemma_generation_never_falls(v, ops.drop_last());
    }
}

/// A later `start` gets a larger generation than an earlier one, whatever
/// calls come between, and shows its own message (while the generations
/// have not run out).
pub proof fn lemma_later_start_is_newer(
    v: (Option<(Seq<char>, u64)>, u64),
    m1: Seq<char>,
    between: Seq<VoiceRenderOp>,
    m2: Seq<char>,
)
    requires
        sat_inc(v.1) < u64::MAX,
    ensures
        ({
            let v1 = voice_render_after(v, VoiceRenderOp::Start(m1));
            let v2 = voice_render_after(voice_render_after_all(v1, between), VoiceRenderOp::Start(m2));
            &&& v2.1 > v1.1
            &&& v2.0 == Some((m2, v2.1))
        }),
{
    let v1 = voice_render_after(v, VoiceRenderOp::Start(m1));
    lemma_generation_never_falls(v1, between);
}

impl Default for VoiceRenderOverlay {
    fn default() -> (r: Self)
        ensures
            r@ == (None::<(Seq<char>, u64)>, 0u64),
    {
        VoiceRenderOverlay { message: None, generation: 0 }
    }
}

impl VoiceRenderOverlay {
    /// Shows `message` under a new generation and answers that generation.
    pub fn start(&mut self, message: String) -> (g: u64)
        ensures
            g == sat_inc(old(self)@.1),
            final(self)@ == voice_render_after(old(self)@, VoiceRenderOp::Start(message@)),
    {
        self.generation = self.generation.saturating_add(1);
        let g = self.generation;
        self.message = Some((message, g));
        g
    }

    /// Removes the message and moves to a new generation.
    pub fn clear(&mut self)
        ensures
            final(self)@ == voice_render_after(old(self)@, VoiceRenderOp::Clear),
    {
        self.generation = self.generation.saturating_add(1);
        self.message = None;
    }

    /// Removes the message only when it was started under `generation`.
    pub fn clear_if_current(&mut self, generation: u64)
        ensures
            final(self)@ == voice_render_after(old(self)@, VoiceRenderOp::ClearIfCurrent(generation)),
    {
        let is_current = match &self.message {
            Some(m) => m.1 == generation,
            None => false,
        };
        if is_current {
            self.message = None;
        }
    }

    /// The message shown now.
    pub fn current_message(&self) -> (r: Option<String>)
        ensures
            match (r, self@.0) {
                (Some(t), Some(m)) => t@ == m.0,
                (None, None) => true,
                _ => false,
            },
    {
        match &self.message {
            Some(m) => Some(m.0.clone()),
            None => None,
        }
    }
}

// ── mascot overlay ─────────────────────────────────────────────────────────

/// A mascot overlay message: timed (it ends at `expires_at`) or blocking
/// (it stays until Enter dismisses it).
pub struct OverlayMessage {
    pub text: String,
    pub expires_at: Option<u64>,
    pub dismiss_with_enter: bool,
}

/// The mascot overlay, the startup overlay and the startup flag.
pub struct OverlayState {
    pub message: Option<OverlayMessage>,
    pub startup_message: Option<String>,
    pub startup_in_progress: bool,
}

pub open spec fn is_blocking(m: Option<OverlayMessage>) -> bool {
    m is Some && m->0.dismiss_with_enter
}

impl OverlayState {
    /// Nothing shown, no startup in progress.
    pub fn new() -> (s: OverlayState)
        ensures
            s.message is None,
            s.startup_message is None,
            !s.startup_in_progress,
    {
        OverlayState { message: None, startup_message: None, startup_in_progress: false }
    }

    /// Shows `text` for `OVERLAY_DURATION_MS` from `now`, unless a blocking
    /// message is up.
    pub fn set_overlay_message(&mut self, text: String, now: u64)
        ensures
            is_blocking(old(self).message) ==> final(self).message == old(self).message,
            !is_blocking(old(self).message) ==> match final(self).message {
                Some(m) => m.text@ == text@ && m.expires_at == Some(
                    now.saturating_add(OVERLAY_DURATION_MS),
                ) && !m.dismiss_with_enter,
                None => false,
            },
            final(self).startup_message == old(self).startup_message,
            final(self).startup_in_progress == old(self).startup_in_progress,
    {
        if self.has_blocking_overlay_message() {
            return;
        }
        self.message = Some(
            OverlayMessage {
                text,
                expires_at: Some(now.saturating_add(OVERLAY_DURATION_MS)),
                dismiss_with_enter: false,
            },
        );
    }

    /// Shows `text` until it is dismissed, replacing whatever was shown.
    pub fn set_blocking_overlay_message(&mut self, text: String)
        ensures
            final(self).message is Some,
            final(self).message->0.text@ == text@,
            final(self).message->0.expires_at is None,
            final(self).message->0.dismiss_with_enter,
            final(self).startup_message == old(self).startup_message,
            final(self).startup_in_progress == old(self).startup_in_progress,
    {
        self.message = Some(OverlayMessage { text, expires_at: None, dismiss_with_enter: true });
    }

    /// Removes a timed message; a blocking one stays.
    pub fn clear_overlay_message(&mut self)
        ensures
            is_blocking(old(self).message) ==> final(self).message == old(self).message,
            !is_blocking(old(self).message) ==> final(self).message is None,
            final(self).startup_message == old(self).startup_message,
            final(self).startup_in_progress == old(self).startup_in_progress,
    {
        if self.has_blocking_overlay_message() {
            return;
        }
        self.message = None;
    }

    /// The message shown at `now` and whether it is blocking; an expired timed
    /// message is removed.
    pub fn current_overlay_message(&mut self, now: u64) -> (r: Option<(String, bool)>)
        ensures
            match old(self).message {
                Some(m) => if m.dismiss_with_enter || (m.expires_at is Some && m.expires_at->0
                    > now) {
                    final(self).message == old(self).message && match r {
                        Some(p) => p.0@ == m.text@ && p.1 == m.dismiss_with_enter,
                        None => false,
                    }
                } else {
                    r is None && final(self).message is None
                },
                None => r is None && final(self).message is None,
            },
            final(self).startup_message == old(self).startup_message,
            final(self).startup_in_progress == old(self).startup_in_progress,
    {
        let shown = match &self.message {
            Some(m) => if m.dismiss_with_enter {
                Some((m.text.clone(), true))
            } else {
                match m.expires_at {
                    Some(e) => if e > now {
                        Some((m.text.clone(), false))
                    } else {
                        None
                    },
                    None => None,
                }
            },
            None => None,
        };
        if shown.is_none() {
            self.message = None;
        }
        shown
    }

    /// Whether a blocking message is up.
    pub fn has_blocking_overlay_message(&self) -> (b: bool)
        ensures
            b == is_blocking(self.message),
    {
        match &self.message {
            Some(m) => m.dismiss_with_enter,
            None => false,
        }
    }

    /// Enter: removes a blocking message; a timed one stays.
    pub fn dismiss_blocking_overlay_message(&mut self)
        ensures
            is_blocking(old(self).message) ==> final(self).message is None,
            !is_blocking(old(self).message) ==> final(self).message == old(self).message,
            final(self).startup_message == old(self).startup_message,
            final(self).startup_in_progress == old(self).startup_in_progress,
    {
        if self.has_blocking_overlay_message() {
            self.message = None;
        }
    }

    /// Shows `text` as the startup overlay until it is cleared.
    pub fn set_startup_overlay_message(&mut self, text: String)
        ensures
            final(self).startup_message == Some(text),
            final(self).message == old(self).message,
            final(self).startup_in_progress == old(self).startup_in_progress,
    {
        self.startup_message = Some(text);
    }

    pub fn clear_startup_overlay_message(&mut self)
        ensures
            final(self).startup_message is None,
            final(self).message == old(self).message,
            final(self).startup_in_progress == old(self).startup_in_progress,
    {
        self.startup_message = None;
    }

    pub fn current_startup_overlay_message(&self) -> (r: Option<String>)
        ensures
            match r {
                Some(t) => self.startup_message is Some && t@ == self.startup_message->0@,
                None => self.startup_message is None,
            },
    {
        match &self.startup_message {
            Some(t) => Some(t.clone()),
            None => None,
        }
    }

    pub fn set_startup_in_progress(&mut self, in_progress: bool)
        ensures
            final(self).startup_in_progress == in_progress,
            final(self).message == old(self).message,
            final(self).startup_message == old(self).startup_message,
    {
        self.startup_in_progress = in_progress;
    }

    pub fn is_startup_in_progress(&self) -> (b: bool)
        ensures
            b == self.startup_in_progress,
    {
        self.startup_in_progress
    }
}

// ── runtime notices ────────────────────────────────────────────────────────

/// The latest runtime notice and when it expires.
pub struct RuntimeNotice {
    pub notice: Option<(String, u64)>,
}

impl RuntimeNotice {
    pub fn new() -> (r: RuntimeNotice)
        ensures
            r.notice is None,
    {
        RuntimeNotice { notice: None }
    }

    /// Shows `text` for `OVERLAY_DURATION_MS` from `now`, replacing the previous notice.
    pub fn set_runtime_notice(&mut self, text: String, now: u64)
        ensures
            final(self).notice == Some((text, now.saturating_add(OVERLAY_DURATION_MS))),
    {
        self.notice = Some((text, now.saturating_add(OVERLAY_DURATION_MS)));
    }

    /// The notice shown at `now`; an expired notice is removed.
    pub fn current_runtime_notice(&mut self, now: u64) -> (r: Option<String>)
        ensures
            match old(self).notice {
                Some((t, e)) => if e > now {
                    r is Some && r->0@ == t@ && final(self).notice == old(self).notice
                } else {
                    r is None && final(self).notice is None
                },
                None => r is None && final(self).notice is None,
            },
    {
        let shown = match &self.notice {
            Some(n) => if n.1 > now {
                Some(n.0.clone())
            } else {
                None
            },
            None => None,
        };
        if shown.is_none() {
            self.notice = None;
        }
        shown
    }
}

// ── sync ids ───────────────────────────────────────────────────────────────

/// Source of mascot sync ids, counting up from 1.
pub struct SyncIds {
    pub next: u64,
}

impl SyncIds {
    pub fn new() -> (s: SyncIds)
        ensures
            s.next == 1,
    {
        SyncIds { next: 1 }
    }

    /// Answers the next id and advances (wrapping, as an atomic add does).
    pub fn next_mascot_sync_id(&mut self) -> (id: u64)
        ensures
            id == old(self).next,
            final(self).next == (if old(self).next < u64::MAX {
                (old(self).next + 1) as u64
            } else {
                0u64
            }),
    {
        let id = self.next;
        self.next = self.next.wrapping_add(1);
        id
    }
}

} // verus!
