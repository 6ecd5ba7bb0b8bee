//! What playing a line asks for, the status it shows, and which lines are
//! prefetched around the cursor.

use vstd::prelude::*;

use crate::editor::Editor;
use crate::lines::{nearest_vis_pos, spec_nearest, spec_visible};
use crate::prefetch::{compute_prefetch_targets, spec_prefetch_targets};
use crate::tag::strings_view;
use crate::text::{decimal, decimal_string, is_blank, push_str, trim_start};

verus! {

/// What playing a line asks for.
pub enum PlayPlan {
    /// A blank line or no line: nothing.
    Nothing,
    /// Play the line's text from the cache, or fetch and then play it.
    Text { text: String, index: usize },
    /// The line has intonation data; when only its pitches are known they
    /// are resolved into a query first (falling back to the text on failure).
    Intonation { text: String, index: usize, pitches_only: bool },
}

/// The status shown after a play request.
#[derive(Debug, Clone, Copy, PartialEq, Eq, Structural)]
pub enum PlaybackStatus {
    CachedText,
    FetchingText,
    CachedIntonation,
    SynthesizingIntonation,
}

impl<I: Clone> Editor<I> {
    /// Playing line `index`: nothing for a blank line or an index past the
    /// last line; else the line without its leading spaces (folding marks),
    /// by its intonation data when it has some (`pitches_only` telling
    /// whether that data holds the pitches only).
    pub fn play_plan(&self, index: usize, pitches_only: bool) -> (p: PlayPlan)
        ensures
            (index >= self.lines@.len() || is_blank(self.lines@[index as int]@)) ==> p is Nothing,
            (index < self.lines@.len() && !is_blank(self.lines@[index as int]@)) ==> match p {
                PlayPlan::Text { text, index: i } => i == index && text@ == trim_start(self.lines@[index as int]@)
                    && !(index < self.line_intonations@.len() && self.line_intonations@[index as int] is Some),
                PlayPlan::Intonation { text, index: i, pitches_only: po } => i == index && text@ == trim_start(
                    self.lines@[index as int]@,
                ) && po == pitches_only && index < self.line_intonations@.len()
                    && self.line_intonations@[index as int] is Some,
                PlayPlan::Nothing => false,
            },
    {
        if index >= self.lines.len() || crate::text::is_blank_str(self.lines[index].as_str()) {
            return PlayPlan::Nothing;
        }
        let text = crate::text::trimmed_start(self.lines[index].as_str());
        if index < self.line_intonations.len() && self.line_intonations[index].is_some() {
            PlayPlan::Intonation { text, index, pitches_only }
        } else {
            PlayPlan::Text { text, index }
        }
    }

    /// The texts to prefetch around the cursor, nearest first: of the shown
    /// lines when folded (around the cursor's place among them), else of all
    /// lines; each without its leading spaces.
    pub fn prefetch_texts(&self, visible_lines: usize) -> (r: Vec<String>)
        requires
            self.wf(),
            self.lines@.len() + visible_lines <= i32::MAX,
        ensures
            !self.folded ==> strings_view(r@) == spec_prefetch_targets(
                self.cursor as int,
                visible_lines as int,
                self.lines@.len() as int,
            ).map_values(|i: usize| trim_start(self.lines_view()[i as int])),
            self.folded ==> ({
                let vis = spec_visible(self.lines_view(), true);
                strings_view(r@) == spec_prefetch_targets(
                    spec_nearest(self.cursor, vis),
                    visible_lines as int,
                    vis.len() as int,
                ).map_values(|k: usize| trim_start(self.lines_view()[vis[k as int] as int]))
            }),
    {
        if !self.folded {
            let targets = compute_prefetch_targets(self.cursor, visible_lines, self.lines.as_slice());
            let mut r: Vec<String> = Vec::new();
            let mut k: usize = 0;
            while k < targets.len()
                invariant
                    k <= targets@.len(),
                    r@.len() == k,
                    forall|m: int| 0 <= m < targets@.len() ==> #[trigger] targets@[m] < self.lines@.len(),
                    forall|m: int|
                        0 <= m < k ==> #[trigger] r@[m]@ == trim_start(self.lines_view()[targets@[m] as int]),
                decreases targets.len() - k,
            {
                let i = targets[k];
                r.push(crate::text::trimmed_start(self.lines[i].as_str()));
                k = k + 1;
            }
            assert(strings_view(r@) =~= targets@.map_values(|i: usize| trim_start(self.lines_view()[i as int])));
            r
        } else {
            let visible = self.visible_line_indices();
            proof {
                crate::editor::lemma_visible_props(self.lines_view(), true);
            }
            let mut vis_texts: Vec<String> = Vec::new();
            let mut j: usize = 0;
            while j < visible.len()
                invariant
                    j <= visible@.len(),
                    vis_texts@.len() == j,
                    visible@ == spec_visible(self.lines_view(), true),
                    forall|m: int| 0 <= m < visible@.len() ==> #[trigger] visible@[m] < self.lines@.len(),
                    forall|m: int|
                        0 <= m < j ==> #[trigger] vis_texts@[m]@ == trim_start(self.lines_view()[visible@[m] as int]),
                decreases visible.len() - j,
            {
                vis_texts.push(crate::text::trimmed_start(self.lines[visible[j]].as_str()));
                j = j + 1;
            }
            let vis_cursor = nearest_vis_pos(self.cursor, visible.as_slice());
            let targets = compute_prefetch_targets(vis_cursor, visible_lines, vis_texts.as_slice());
            let mut r: Vec<String> = Vec::new();
            let mut k: usize = 0;
            while k < targets.len()
                invariant
                    k <= targets@.len(),
                    r@.len() == k,
                    vis_texts@.len() == visible@.len(),
                    forall|m: int| 0 <= m < targets@.len() ==> #[trigger] targets@[m] < vis_texts@.len(),
                    forall|m: int|
                        0 <= m < visible@.len() ==> #[trigger] vis_texts@[m]@ == trim_start(self.lines_view()[visible@[m] as int]),
                    forall|m: int| 0 <= m < k ==> #[trigger] r@[m]@ == vis_texts@[targets@[m] as int]@,
                decreases targets.len() - k,
            {
                let i = targets[k];
                r.push(vis_texts[i].clone());
                k = k + 1;
            }
            assert(strings_view(r@) =~= targets@.map_values(
                |k: usize| trim_start(self.lines_view()[visible@[k as int] as int]),
            ));
            r
        }
    }
}

/// The status after a play request of line `index`, numbered from 1.
pub open spec fn spec_status_message(kind: PlaybackStatus, index: usize) -> Seq<char> {
    (match kind {
        PlaybackStatus::CachedText => "[♪ cached] line "@,
        PlaybackStatus::FetchingText => "[fetching...] line "@,
        PlaybackStatus::CachedIntonation => "[♬ cached] line "@,
        PlaybackStatus::SynthesizingIntonation => "[♬ intonation] line "@,
    }) + decimal((index + 1) as nat)
}

/// Writes the status after a play request of line `index` (see
/// `spec_status_message`).
pub fn playback_status_message(kind: PlaybackStatus, index: usize) -> (m: String)
    requires
        index < u64::MAX,
    ensures
        m@ == spec_status_message(kind, index),
{
    let mut m = match kind {
        PlaybackStatus::CachedText => "[♪ cached] line ".to_owned(),
        PlaybackStatus::FetchingText => "[fetching...] line ".to_owned(),
        PlaybackStatus::CachedIntonation => "[♬ cached] line ".to_owned(),
        PlaybackStatus::SynthesizingIntonation => "[♬ intonation] line ".to_owned(),
    };
    let n = decimal_string(index as u64 + 1);
    push_str(&mut m, n.as_str());
    m
}

/// What the "rendering voice" message says while line `index` (numbered
/// from 1) waits for its synthesis before it plays.
pub open spec fn spec_voice_render_summary(index: usize, text: Seq<char>) -> Seq<char> {
    "line "@ + decimal((index + 1) as nat) + " render待ち / play予約: "@ + text
}

/// Writes the "rendering voice" message of line `index` with text `text`.
pub fn voice_render_summary(index: usize, text: &str) -> (m: String)
    requires
        index < u64::MAX,
    ensures
        m@ == spec_voice_render_summary(index, text@),
{
    let mut m = "line ".to_owned();
    let n = decimal_string(index as u64 + 1);
    push_str(&mut m, n.as_str());
    push_str(&mut m, " render待ち / play予約: ");
    push_str(&mut m, text);
    m
}

/// The same message while the editor is still starting.
pub fn startup_voice_summary(index: usize, text: &str) -> (m: String)
    requires
        index < u64::MAX,
    ensures
        m@ == "[startup] "@ + spec_voice_render_summary(index, text@),
{
    let mut m = "[startup] ".to_owned();
    let s = voice_render_summary(index, text);
    push_str(&mut m, s.as_str());
    m
}


/// Where playing a line goes once the cache was looked up.
pub enum PlayRoute {
    /// Play the cached WAV; the voice-render message is cleared first when
    /// `clear_voice_render` holds.
    Cached { clear_voice_render: bool },
    /// Hand the text to the synthesis worker as a play request whose
    /// voice-render message is `summary`.
    FetchText { summary: String },
    /// Synthesize by the line's audio query, then play.
    SynthesizeQuery,
}

/// Playing the text `text` of line `index`: from the cache when it holds
/// the text (clearing the voice-render message), else by a play request to
/// the worker. Answers the route and the status to show.
pub fn text_play_route(index: usize, text: &str, cached: bool) -> (r: (PlayRoute, String))
    requires
        index < u64::MAX,
    ensures
        cached ==> r.0 == (PlayRoute::Cached { clear_voice_render: true }) && r.1@ == spec_status_message(
            PlaybackStatus::CachedText,
            index,
        ),
        !cached ==> (r.0 matches PlayRoute::FetchText { summary } && summary@ == spec_voice_render_summary(index, text@))
            && r.1@ == spec_status_message(PlaybackStatus::FetchingText, index),
{
    if cached {
        (PlayRoute::Cached { clear_voice_render: true }, playback_status_message(PlaybackStatus::CachedText, index))
    } else {
        let summary = voice_render_summary(index, text);
        (PlayRoute::FetchText { summary }, playback_status_message(PlaybackStatus::FetchingText, index))
    }
}

/// Playing line `index` by its intonation data: from the cache when it
/// holds the synthesis of that data, else by synthesizing the query.
/// Answers the route and the status to show.
pub fn intonation_play_route(index: usize, cached: bool) -> (r: (PlayRoute, String))
    requires
        index < u64::MAX,
    ensures
        cached ==> r.0 == (PlayRoute::Cached { clear_voice_render: false }) && r.1@ == spec_status_message(
            PlaybackStatus::CachedIntonation,
            index,
        ),
        !cached ==> r.0 == PlayRoute::SynthesizeQuery && r.1@ == spec_status_message(
            PlaybackStatus::SynthesizingIntonation,
            index,
        ),
{
    if cached {
        (PlayRoute::Cached { clear_voice_render: false }, playback_status_message(PlaybackStatus::CachedIntonation, index))
    } else {
        (PlayRoute::SynthesizeQuery, playback_status_message(PlaybackStatus::SynthesizingIntonation, index))
    }
}

} // verus!
