//! Decisions of the synthesis worker: which request aborts the running
//! fetch, which is skipped, which plays from the cache and which starts a
//! synthesis, and which finished synthesis may reset the "fetching" flag.

use vstd::prelude::*;

use crate::overlay::{sat_inc, voice_render_after, VoiceRenderOp, VoiceRenderOverlay};
use crate::speakers::SpeakerTable;
use crate::tag::{parse_line, spec_parse_line};

verus! {

/// State of the worker between requests.
#[derive(Debug, Clone, Copy, PartialEq, Eq, Structural)]
pub struct FetchWorker {
    /// A synthesis task was started and not yet seen finished.
    pub task: bool,
    /// That task serves a play request.
    pub current_is_play: bool,
    /// A synthesis is running (shown as a spinner).
    pub is_fetching: bool,
    /// Generation of the latest synthesis task.
    pub fetch_gen: u64,
}

/// What the worker does with a request.
#[derive(Debug, Clone, Copy, PartialEq, Eq, Structural)]
pub enum FetchAction {
    /// Nothing: blank text, no cache key, a prefetch while a play fetch
    /// runs, or a prefetch of something cached.
    Skip,
    /// Play the cached WAV.
    PlayCached,
    /// Start a synthesis task of this generation; a play request also shows
    /// the voice-render message under the given overlay generation.
    Synthesize { generation: u64, voice_render_generation: Option<u64> },
}

/// A request as the worker sees it.
#[derive(Debug, Clone, Copy, PartialEq, Eq, Structural)]
pub struct RequestFacts {
    /// The request plays its line when ready (else it only prefetches).
    pub play_after: bool,
    /// Its text is blank.
    pub text_blank: bool,
    /// A cache key could be made for it.
    pub has_cache_key: bool,
    /// Its WAV is in the cache.
    pub cached: bool,
}

/// Only a running task can be a play fetch.
pub open spec fn worker_wf(w: FetchWorker) -> bool {
    w.current_is_play ==> w.task
}

/// The worker once a finished task was noticed.
pub open spec fn after_finished(w: FetchWorker, task_finished: bool) -> FetchWorker {
    if w.task && task_finished {
        FetchWorker { task: false, current_is_play: false, ..w }
    } else {
        w
    }
}

/// A play request aborts the running task; a prefetch aborts only a
/// running prefetch.
pub open spec fn aborts(w: FetchWorker, play_after: bool) -> bool {
    w.task && (play_after || !w.current_is_play)
}

impl FetchWorker {
    /// Whether the state is consistent (see `worker_wf`): a caller outside
    /// the library tests this before handing the state to `on_request`.
    pub fn is_consistent(&self) -> (b: bool)
        ensures
            b == worker_wf(*self),
    {
        !self.current_is_play || self.task
    }

    pub fn new() -> (w: FetchWorker)
        ensures
            worker_wf(w),
            !w.task && !w.current_is_play && !w.is_fetching && w.fetch_gen == 0,
    {
        FetchWorker { task: false, current_is_play: false, is_fetching: false, fetch_gen: 0 }
    }

    /// Handles one request. `task_finished` tells whether the running task
    /// has ended, `message` is the voice-render text of a play request.
    /// Answers whether the running task is to be aborted, and the action.
    pub fn on_request(
        &mut self,
        overlay: &mut VoiceRenderOverlay,
        task_finished: bool,
        req: RequestFacts,
        message: String,
    ) -> (r: (bool, FetchAction))
        requires
            worker_wf(*old(self)),
        ensures
            worker_wf(*final(self)),
            ({
                let w = after_finished(*old(self), task_finished);
                let abort = aborts(w, req.play_after);
                let busy_play = !abort && w.task && w.current_is_play;
                let g0 = if abort && w.current_is_play {
                    sat_inc(old(overlay)@.1)
                } else {
                    old(overlay)@.1
                };
                let after_abort = if abort && w.current_is_play {
                    (None::<(Seq<char>, u64)>, g0)
                } else {
                    old(overlay)@
                };
                &&& r.0 == abort
                &&& r.1 == FetchAction::PlayCached ==> final(overlay)@ == (None::<(Seq<char>, u64)>, sat_inc(g0))
                &&& r.1 == FetchAction::Skip ==> final(overlay)@ == after_abort
                &&& (r.1 is Synthesize && !req.play_after) ==> final(overlay)@ == after_abort
                &&& (req.text_blank || !req.has_cache_key || (!req.play_after && busy_play) || (req.cached
                    && !req.play_after)) ==> r.1 == FetchAction::Skip
                &&& (!req.text_blank && req.has_cache_key && req.cached && req.play_after) ==> r.1
                    == FetchAction::PlayCached
                &&& (!req.text_blank && req.has_cache_key && !req.cached && !(!req.play_after && busy_play))
                    ==> {
                    &&& r.1 matches FetchAction::Synthesize { generation, voice_render_generation }
                    &&& generation == (if w.fetch_gen == u64::MAX {
                        0
                    } else {
                        w.fetch_gen + 1
                    })
                    &&& final(self).fetch_gen == generation
                    &&& final(self).task
                    &&& final(self).current_is_play == req.play_after
                    &&& final(self).is_fetching
                    &&& (req.play_after ==> voice_render_generation == Some(sat_inc(g0))
                        && final(overlay)@ == (Some((message@, sat_inc(g0))), sat_inc(g0)))
                    &&& (!req.play_after ==> voice_render_generation is None)
                }
                &&& !(r.1 is Synthesize) ==> {
                    &&& final(self).fetch_gen == old(self).fetch_gen
                    &&& final(self).task == (w.task && !abort)
                    &&& final(self).current_is_play == (w.current_is_play && !abort)
                    &&& final(self).is_fetching == (old(self).is_fetching && !abort)
                }
            }),
    {
        if self.task && task_finished {
            self.task = false;
            self.current_is_play = false;
        }
        let should_abort = req.play_after || !self.current_is_play;
        let mut abort = false;
        if should_abort && self.task {
            abort = true;
            self.task = false;
            self.is_fetching = false;
            if self.current_is_play {
                overlay.clear();
            }
            self.current_is_play = false;
        }
        if req.text_blank {
            return (abort, FetchAction::Skip);
        }
        if !req.play_after && self.current_is_play {
            return (abort, FetchAction::Skip);
        }
        if !req.has_cache_key {
            return (abort, FetchAction::Skip);
        }
        if req.cached {
            if req.play_after {
                overlay.clear();
                return (abort, FetchAction::PlayCached);
            }
            return (abort, FetchAction::Skip);
        }
        self.is_fetching = true;
        let voice_render_generation = if req.play_after {
            Some(overlay.start(message))
        } else {
            None
        };
        let generation = self.fetch_gen.wrapping_add(1);
        self.fetch_gen = generation;
        self.current_is_play = req.play_after;
        self.task = true;
        (abort, FetchAction::Synthesize { generation, voice_render_generation })
    }

    /// A synthesis task of `generation` ended: only the latest one resets
    /// the fetching flag and clears its own voice-render message.
    pub fn on_task_done(&mut self, overlay: &mut VoiceRenderOverlay, generation: u64, voice_render_generation: Option<u64>)
        ensures
            generation == old(self).fetch_gen ==> !final(self).is_fetching && match voice_render_generation {
                Some(g) => final(overlay)@ == voice_render_after(old(overlay)@, VoiceRenderOp::ClearIfCurrent(g)),
                None => *final(overlay) == *old(overlay),
            },
            generation != old(self).fetch_gen ==> *final(self) == *old(self) && *final(overlay) == *old(overlay),
            worker_wf(*old(self)) ==> worker_wf(*final(self)),
            final(self).task == old(self).task,
            final(self).current_is_play == old(self).current_is_play,
            final(self).fetch_gen == old(self).fetch_gen,
    {
        if self.fetch_gen == generation {
            self.is_fetching = false;
            match voice_render_generation {
                Some(g) => overlay.clear_if_current(g),
                None => {},
            }
        }
    }
}

/// The text of the voice-render message of a play request.
pub fn voice_render_message(summary: Option<String>) -> (m: String)
    ensures
        m@ == match summary {
            Some(s) => s@,
            None => "voice render request中 (play予約済み)"@,
        },
{
    match summary {
        Some(s) => s,
        None => "voice render request中 (play予約済み)".to_owned(),
    }
}

/// What the cache key of a line with saved pitches only is made of: the
/// style id and text of its one segment; none while the speaker table is
/// not loaded or when the line does not have exactly one segment.
pub fn pitches_only_key_parts(t: Option<&SpeakerTable>, text: &str) -> (r: Option<(u32, String)>)
    ensures
        match t {
            None => r is None,
            Some(t) => {
                let segs = spec_parse_line(t@, text@);
                if segs.len() == 1 {
                    match r {
                        Some((id, seg_text)) => id == segs[0].1.speaker_id && seg_text@ == segs[0].0,
                        None => false,
                    }
                } else {
                    r is None
                }
            },
        },
{
    let t = match t {
        Some(t) => t,
        None => return None,
    };
    let segs = parse_line(t, text);
    if segs.len() != 1 {
        return None;
    }
    let ghost sv = spec_parse_line(t@, text@);
    assert(sv[0] == (segs@[0].0@, segs@[0].1@));
    Some((segs[0].1.speaker_id, segs[0].0.clone()))
}

/// The cache key of a line played by its edited audio query, given the
/// query as compact JSON.
pub open spec fn spec_intonation_cache_key(speaker_id: u32, query_json: Seq<char>) -> Seq<char> {
    "intonation:"@ + crate::text::decimal(speaker_id as nat) + ":"@ + query_json
}

/// Writes the cache key of a line played by its edited audio query.
pub fn intonation_cache_key_text(speaker_id: u32, query_json: &str) -> (k: String)
    ensures
        k@ == spec_intonation_cache_key(speaker_id, query_json@),
{
    let mut k = "intonation:".to_owned();
    let d = crate::text::decimal_string(speaker_id as u64);
    crate::text::push_str(&mut k, d.as_str());
    crate::text::push_str(&mut k, ":");
    crate::text::push_str(&mut k, query_json);
    k
}

/// The cache key of a line known by its saved pitches only, given the JSON
/// of its style id, segment text and pitches.
pub fn pitches_only_cache_key_text(payload_json: &str) -> (k: String)
    ensures
        k@ == "intonation:pitches:"@ + payload_json@,
{
    let mut k = "intonation:pitches:".to_owned();
    crate::text::push_str(&mut k, payload_json);
    k
}

/// Whether a cache entry holds a synthesis by intonation data: those are
/// dropped when an intonation edit is saved.
pub fn is_intonation_cache_key(key: &str) -> (b: bool)
    ensures
        b == crate::text::has_prefix(key@, "intonation:"@),
{
    let c = crate::text::chars_of(key);
    let p = crate::text::chars_of("intonation:");
    if c.len() < p.len() {
        return false;
    }
    let head = crate::text::sub_chars(c.as_slice(), 0, p.len());
    crate::text::chars_eq(head.as_slice(), p.as_slice())
}

} // verus!
