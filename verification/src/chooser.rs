//! The speaker/style chooser over the cursor line: speakers with a mascot PSD
//! first, each speaker's styles in the engine's order, a preview of the line
//! with the chosen voice, and the rewrite on confirm.

use vstd::prelude::*;

use crate::editor::{Editor, Mode};
use crate::mascot::{spec_speaker_has_psd, PsdAvailability};
use crate::speakers::{EntryView, SpeakerTable, TableView};
use crate::tag::{
    line_head_ctx, rewrite_line_with_ctx, spec_line_head_ctx, spec_rewrite_line_with_ctx, strings_view,
    CtxView, VoiceCtx,
};
use crate::text::{chars_of, push_str};

verus! {

/// Which list the arrow keys move in.
#[derive(Debug, Clone, Copy, PartialEq, Eq, Structural)]
pub enum SpeakerStyleFocus {
    Speaker,
    Style,
}

/// The open chooser: the line and status it started from, the line's voice,
/// and the selection.
pub struct SpeakerStyleState {
    pub original_line: String,
    pub previous_status_msg: String,
    pub original_ctx: VoiceCtx,
    pub speaker_index: usize,
    pub style_index: usize,
    pub focus: SpeakerStyleFocus,
}

/// Marker after a speaker that has a mascot PSD.
pub const SPEAKER_STYLE_MASCOT_MARKER: &'static str = " [M]";

/// The names with (`with_psd`) or without a PSD, in order.
pub open spec fn names_by_psd(names: Seq<Seq<char>>, avail: Seq<Seq<char>>, with_psd: bool) -> Seq<Seq<char>>
    decreases names.len(),
{
    if names.len() == 0 {
        Seq::empty()
    } else {
        let p = names_by_psd(names.drop_last(), avail, with_psd);
        if spec_speaker_has_psd(avail, names.last()) == with_psd {
            p.push(names.last())
        } else {
            p
        }
    }
}

/// The chooser's speakers: those with a mascot PSD, then the others, each
/// group in the table's order.
pub open spec fn chooser_names(t: TableView, avail: Seq<Seq<char>>) -> Seq<Seq<char>> {
    names_by_psd(t.char_names, avail, true) + names_by_psd(t.char_names, avail, false)
}

/// The styles of character `name` with their ids, in the engine's order.
pub open spec fn styles_of(es: Seq<EntryView>, name: Seq<char>) -> Seq<(Seq<char>, u32)>
    decreases es.len(),
{
    if es.len() == 0 {
        Seq::empty()
    } else {
        let p = styles_of(es.drop_last(), name);
        if es.last().char_name == name {
            p.push((es.last().style_name, es.last().id))
        } else {
            p
        }
    }
}

/// The styles of the chooser's speaker `si` (none past the last speaker).
pub open spec fn chooser_styles(t: TableView, avail: Seq<Seq<char>>, si: int) -> Seq<(Seq<char>, u32)> {
    let names = chooser_names(t, avail);
    if 0 <= si < names.len() {
        styles_of(t.entries, names[si])
    } else {
        Seq::empty()
    }
}

/// The voice of selection (`si`, `sti`): a missing speaker falls back to the
/// default character, a missing style to the first style, and no style at
/// all to the default style and id.
pub open spec fn spec_ctx_from_indices(t: TableView, avail: Seq<Seq<char>>, si: int, sti: int) -> CtxView {
    let names = chooser_names(t, avail);
    let styles = chooser_styles(t, avail, si);
    let name = if 0 <= si < names.len() {
        names[si]
    } else {
        t.default_char
    };
    let st = if 0 <= sti < styles.len() {
        styles[sti]
    } else if styles.len() > 0 {
        styles[0]
    } else {
        (t.default_style, t.default_id)
    };
    CtxView { char_name: name, style_name: st.0, speaker_id: st.1 }
}

/// Index of the first name equal to `x`.
pub open spec fn first_name_index(s: Seq<Seq<char>>, x: Seq<char>) -> Option<int>
    decreases s.len(),
{
    if s.len() == 0 {
        None
    } else {
        match first_name_index(s.drop_last(), x) {
            Some(i) => Some(i),
            None => if s.last() == x {
                Some(s.len() - 1)
            } else {
                None
            },
        }
    }
}

/// Index of the first style with id `id`.
pub open spec fn first_style_with_id(s: Seq<(Seq<char>, u32)>, id: u32) -> Option<int>
    decreases s.len(),
{
    if s.len() == 0 {
        None
    } else {
        match first_style_with_id(s.drop_last(), id) {
            Some(i) => Some(i),
            None => if s.last().1 == id {
                Some(s.len() - 1)
            } else {
                None
            },
        }
    }
}

/// Index of the first style named `n`.
pub open spec fn first_style_named(s: Seq<(Seq<char>, u32)>, n: Seq<char>) -> Option<int>
    decreases s.len(),
{
    if s.len() == 0 {
        None
    } else {
        match first_style_named(s.drop_last(), n) {
            Some(i) => Some(i),
            None => if s.last().0 == n {
                Some(s.len() - 1)
            } else {
                None
            },
        }
    }
}

/// The selection for a voice: its character's place among the speakers
/// (else the first), and among that speaker's styles the one with its id,
/// else the one with its style name, else the first.
pub open spec fn spec_indices_from_ctx(t: TableView, avail: Seq<Seq<char>>, ctx: CtxView) -> (int, int) {
    let si = match first_name_index(chooser_names(t, avail), ctx.char_name) {
        Some(i) => i,
        None => 0,
    };
    let styles = chooser_styles(t, avail, si);
    let sti = match first_style_with_id(styles, ctx.speaker_id) {
        Some(i) => i,
        None => match first_style_named(styles, ctx.style_name) {
            Some(i) => i,
            None => 0,
        },
    };
    (si, sti)
}

/// `[character][style]` for a voice.
pub open spec fn explicit_prefix(ctx: CtxView) -> Seq<char> {
    "["@ + ctx.char_name + "]["@ + ctx.style_name + "]"@
}

/// `value` moved by `delta` and clamped to `0..count`.
pub open spec fn moved_index(value: int, delta: int, count: int) -> int {
    crate::editor::clamp(value + delta, 0, count - 1)
}

fn partition_names(t: &SpeakerTable, avail: &PsdAvailability) -> (r: Vec<String>)
    ensures
        strings_view(r@) == chooser_names(t@, avail.names()),
{
    let mut with: Vec<String> = Vec::new();
    let mut without: Vec<String> = Vec::new();
    let ghost names = t@.char_names;
    let mut i: usize = 0;
    assert(names.subrange(0, 0) =~= Seq::<Seq<char>>::empty());
    assert(strings_view(with@) =~= Seq::<Seq<char>>::empty());
    assert(strings_view(without@) =~= Seq::<Seq<char>>::empty());
    while i < t.char_names.len()
        invariant
            i <= t.char_names@.len(),
            names == t@.char_names,
            strings_view(with@) == names_by_psd(names.subrange(0, i as int), avail.names(), true),
            strings_view(without@) == names_by_psd(names.subrange(0, i as int), avail.names(), false),
        decreases t.char_names.len() - i,
    {
        let name = &t.char_names[i];
        assert(names.subrange(0, i + 1).drop_last() =~= names.subrange(0, i as int));
        assert(names.subrange(0, i + 1).last() == name@);
        let ghost bw = with@;
        let ghost bo = without@;
        if avail.speaker_has_psd(name.as_str()) {
            with.push(name.clone());
            assert(strings_view(with@) =~= strings_view(bw).push(name@));
        } else {
            without.push(name.clone());
            assert(strings_view(without@) =~= strings_view(bo).push(name@));
        }
        i = i + 1;
    }
    assert(names.subrange(0, names.len() as int) =~= names);
    let ghost w = strings_view(with@);
    let ghost o = strings_view(without@);
    let mut k: usize = 0;
    while k < without.len()
        invariant
            k <= without@.len(),
            o == strings_view(without@),
            strings_view(with@) == w + o.subrange(0, k as int),
        decreases without.len() - k,
    {
        let ghost b = with@;
        with.push(without[k].clone());
        assert(o[k as int] == without@[k as int]@);
        assert(strings_view(with@) =~= strings_view(b).push(o[k as int]));
        assert(o.subrange(0, k + 1) =~= o.subrange(0, k as int).push(o[k as int]));
        assert(strings_view(with@) =~= w + o.subrange(0, k + 1));
        k = k + 1;
    }
    assert(o.subrange(0, o.len() as int) =~= o);
    with
}

pub open spec fn styles_view(v: Seq<(String, u32)>) -> Seq<(Seq<char>, u32)> {
    v.map_values(|p: (String, u32)| (p.0@, p.1))
}

fn styles_for(t: &SpeakerTable, name: &String) -> (r: Vec<(String, u32)>)
    ensures
        styles_view(r@) == styles_of(t@.entries, name@),
{
    let mut r: Vec<(String, u32)> = Vec::new();
    let ghost es = t@.entries;
    let mut i: usize = 0;
    assert(es.subrange(0, 0) =~= Seq::<EntryView>::empty());
    assert(styles_view(r@) =~= Seq::<(Seq<char>, u32)>::empty());
    while i < t.entries.len()
        invariant
            i <= t.entries@.len(),
            es == t@.entries,
            styles_view(r@) == styles_of(es.subrange(0, i as int), name@),
        decreases t.entries.len() - i,
    {
        let e = &t.entries[i];
        assert(es.subrange(0, i + 1).drop_last() =~= es.subrange(0, i as int));
        assert(es.subrange(0, i + 1).last() == e@);
        if e.char_name == *name {
            let ghost b = r@;
            r.push((e.style_name.clone(), e.id));
            assert(styles_view(r@) =~= styles_view(b).push((e.style_name@, e.id)));
        }
        i = i + 1;
    }
    assert(es.subrange(0, es.len() as int) =~= es);
    r
}

/// The chooser's speakers as listed: a speaker with a mascot PSD carries
/// the ` [M]` marker.
pub fn speaker_style_speaker_items(t: &SpeakerTable, avail: &PsdAvailability) -> (r: Vec<String>)
    ensures
        r@.len() == chooser_names(t@, avail.names()).len(),
        forall|i: int|
            0 <= i < r@.len() ==> #[trigger] r@[i]@ == chooser_names(t@, avail.names())[i] + (if spec_speaker_has_psd(
                avail.names(),
                chooser_names(t@, avail.names())[i],
            ) {
                " [M]"@
            } else {
                Seq::<char>::empty()
            }),
{
    let names = partition_names(t, avail);
    let mut r: Vec<String> = Vec::new();
    let mut i: usize = 0;
    while i < names.len()
        invariant
            i <= names@.len(),
            strings_view(names@) == chooser_names(t@, avail.names()),
            r@.len() == i,
            forall|k: int|
                0 <= k < i ==> #[trigger] r@[k]@ == chooser_names(t@, avail.names())[k] + (if spec_speaker_has_psd(
                    avail.names(),
                    chooser_names(t@, avail.names())[k],
                ) {
                    " [M]"@
                } else {
                    Seq::<char>::empty()
                }),
        decreases names.len() - i,
    {
        let mut label = names[i].clone();
        assert(strings_view(names@)[i as int] == names@[i as int]@);
        if avail.speaker_has_psd(names[i].as_str()) {
            push_str(&mut label, SPEAKER_STYLE_MASCOT_MARKER);
        } else {
            assert(label@ + Seq::<char>::empty() =~= label@);
        }
        r.push(label);
        i = i + 1;
    }
    r
}

/// The styles of the chooser's speaker `speaker_index`.
pub fn speaker_style_styles(t: &SpeakerTable, avail: &PsdAvailability, speaker_index: usize) -> (r: Vec<(String, u32)>)
    ensures
        styles_view(r@) == chooser_styles(t@, avail.names(), speaker_index as int),
{
    let names = partition_names(t, avail);
    if speaker_index < names.len() {
        assert(strings_view(names@)[speaker_index as int] == names@[speaker_index as int]@);
        styles_for(t, &names[speaker_index])
    } else {
        let r: Vec<(String, u32)> = Vec::new();
        assert(styles_view(r@) =~= Seq::<(Seq<char>, u32)>::empty());
        r
    }
}

/// The voice of selection (`speaker_index`, `style_index`).
pub fn speaker_style_ctx_from_indices(
    t: &SpeakerTable,
    avail: &PsdAvailability,
    speaker_index: usize,
    style_index: usize,
) -> (c: VoiceCtx)
    ensures
        c@ == spec_ctx_from_indices(t@, avail.names(), speaker_index as int, style_index as int),
{
    let names = partition_names(t, avail);
    let styles = speaker_style_styles(t, avail, speaker_index);
    let char_name = if speaker_index < names.len() {
        assert(strings_view(names@)[speaker_index as int] == names@[speaker_index as int]@);
        names[speaker_index].clone()
    } else {
        t.default_char.clone()
    };
    let (style_name, speaker_id) = if style_index < styles.len() {
        assert(styles_view(styles@)[style_index as int] == (styles@[style_index as int].0@, styles@[style_index as int].1));
        (styles[style_index].0.clone(), styles[style_index].1)
    } else if styles.len() > 0 {
        assert(styles_view(styles@)[0] == (styles@[0].0@, styles@[0].1));
        (styles[0].0.clone(), styles[0].1)
    } else {
        (t.default_style.clone(), t.default_id)
    };
    VoiceCtx { char_name, style_name, speaker_id }
}

/// The selection that shows voice `ctx` (see `spec_indices_from_ctx`).
pub fn speaker_style_indices_from_ctx(t: &SpeakerTable, avail: &PsdAvailability, ctx: &VoiceCtx) -> (r: (usize, usize))
    ensures
        (r.0 as int, r.1 as int) == spec_indices_from_ctx(t@, avail.names(), ctx@),
{
    let names = partition_names(t, avail);
    let ghost nv = strings_view(names@);
    let mut si: usize = 0;
    let mut found = false;
    let mut i: usize = 0;
    assert(nv.subrange(0, 0) =~= Seq::<Seq<char>>::empty());
    while i < names.len() && !found
        invariant
            i <= names@.len(),
            nv == strings_view(names@),
            !found ==> first_name_index(nv.subrange(0, i as int), ctx.char_name@) is None && si == 0,
            found ==> first_name_index(nv, ctx.char_name@) == Some(si as int),
        decreases names.len() - i,
    {
        assert(nv.subrange(0, i + 1).drop_last() =~= nv.subrange(0, i as int));
        assert(nv.subrange(0, i + 1).last() == names@[i as int]@);
        if names[i] == ctx.char_name {
            proof {
                lemma_first_name_prefix(nv, ctx.char_name@, i + 1);
            }
            si = i;
            found = true;
        }
        i = i + 1;
    }
    if !found {
        assert(nv.subrange(0, nv.len() as int) =~= nv);
    }
    let styles = speaker_style_styles(t, avail, si);
    let ghost sv = styles_view(styles@);
    let mut by_id: Option<usize> = None;
    let mut j: usize = 0;
    assert(sv.subrange(0, 0) =~= Seq::<(Seq<char>, u32)>::empty());
    while j < styles.len() && by_id.is_none()
        invariant
            j <= styles@.len(),
            sv == styles_view(styles@),
            by_id is None ==> first_style_with_id(sv.subrange(0, j as int), ctx.speaker_id) is None,
            by_id is Some ==> first_style_with_id(sv, ctx.speaker_id) == Some(by_id->0 as int),
        decreases styles.len() - j,
    {
        assert(sv.subrange(0, j + 1).drop_last() =~= sv.subrange(0, j as int));
        assert(sv.subrange(0, j + 1).last() == sv[j as int]);
        if styles[j].1 == ctx.speaker_id {
            proof {
                lemma_first_style_id_prefix(sv, ctx.speaker_id, j + 1);
            }
            by_id = Some(j);
        }
        j = j + 1;
    }
    if let Some(k) = by_id {
        return (si, k);
    }
    assert(sv.subrange(0, sv.len() as int) =~= sv);
    let mut by_name: Option<usize> = None;
    let mut m: usize = 0;
    assert(sv.subrange(0, 0) =~= Seq::<(Seq<char>, u32)>::empty());
    while m < styles.len() && by_name.is_none()
        invariant
            m <= styles@.len(),
            sv == styles_view(styles@),
            by_name is None ==> first_style_named(sv.subrange(0, m as int), ctx.style_name@) is None,
            by_name is Some ==> first_style_named(sv, ctx.style_name@) == Some(by_name->0 as int),
        decreases styles.len() - m,
    {
        assert(sv.subrange(0, m + 1).drop_last() =~= sv.subrange(0, m as int));
        assert(sv.subrange(0, m + 1).last() == sv[m as int]);
        if styles[m].0 == ctx.style_name {
            proof {
                lemma_first_style_name_prefix(sv, ctx.style_name@, m + 1);
            }
            by_name = Some(m);
        }
        m = m + 1;
    }
    match by_name {
        Some(k) => (si, k),
        None => {
            assert(sv.subrange(0, sv.len() as int) =~= sv);
            (si, 0)
        },
    }
}

proof fn lemma_first_name_prefix(s: Seq<Seq<char>>, x: Seq<char>, k: int)
    requires
        0 <= k <= s.len(),
        first_name_index(s.subrange(0, k), x) is Some,
    ensures
        first_name_index(s, x) == first_name_index(s.subrange(0, k), x),
    decreases s.len(),
{
    if s.len() > k {
        assert(s.drop_last().subrange(0, k) =~= s.subrange(0, k));
        lemma_first_name_prefix(s.drop_last(), x, k);
    } else {
        assert(s.subrange(0, k) =~= s);
    }
}

proof fn lemma_first_style_id_prefix(s: Seq<(Seq<char>, u32)>, id: u32, k: int)
    requires
        0 <= k <= s.len(),
        first_style_with_id(s.subrange(0, k), id) is Some,
    ensures
        first_style_with_id(s, id) == first_style_with_id(s.subrange(0, k), id),
    decreases s.len(),
{
    if s.len() > k {
        assert(s.drop_last().subrange(0, k) =~= s.subrange(0, k));
        lemma_first_style_id_prefix(s.drop_last(), id, k);
    } else {
        assert(s.subrange(0, k) =~= s);
    }
}

proof fn lemma_first_style_name_prefix(s: Seq<(Seq<char>, u32)>, n: Seq<char>, k: int)
    requires
        0 <= k <= s.len(),
        first_style_named(s.subrange(0, k), n) is Some,
    ensures
        first_style_named(s, n) == first_style_named(s.subrange(0, k), n),
    decreases s.len(),
{
    if s.len() > k {
        assert(s.drop_last().subrange(0, k) =~= s.subrange(0, k));
        lemma_first_style_name_prefix(s.drop_last(), n, k);
    } else {
        assert(s.subrange(0, k) =~= s);
    }
}

/// `[character][style]` for a voice.
pub fn ctx_to_explicit_prefix(ctx: &VoiceCtx) -> (r: String)
    ensures
        r@ == explicit_prefix(ctx@),
{
    let mut r = "[".to_owned();
    push_str(&mut r, ctx.char_name.as_str());
    push_str(&mut r, "][");
    push_str(&mut r, ctx.style_name.as_str());
    push_str(&mut r, "]");
    r
}

/// `cur` moved by `delta`, clamped to `0..count` (see `moved_index`).
pub fn clamped_move(cur: usize, delta: i32, count: usize) -> (next: usize)
    requires
        count > 0,
    ensures
        next as int == moved_index(cur as int, delta as int, count as int),
{
    let hi = count - 1;
    if delta >= 0 {
        let d = delta as usize;
        if cur >= hi || d >= hi - cur {
            hi
        } else {
            cur + d
        }
    } else {
        let d = (-(delta as i64)) as usize;
        if d >= cur {
            0
        } else if cur - d > hi {
            hi
        } else {
            cur - d
        }
    }
}

impl<I> Editor<I> {
    /// What `s` makes of `self`: `n`, with the chooser open on the cursor
    /// line, the voice of its first spoken segment selected, the speaker
    /// list focused and the status it found kept for a cancel; the key
    /// prefixes are cleared and nothing else changes.
    pub open spec fn chooser_opened_into(&self, n: Editor<I>, t: TableView, avail: Seq<Seq<char>>) -> bool {
        let line = self.lines_view()[self.cursor as int];
        let ctx = spec_line_head_ctx(t, line);
        &&& n.speaker_style matches Some(st) && st.original_line@ == line && st.previous_status_msg@
            == self.status_msg@ && st.original_ctx@ == ctx && (st.speaker_index as int, st.style_index as int)
            == spec_indices_from_ctx(t, avail, ctx) && st.focus == SpeakerStyleFocus::Speaker
        &&& n.status_msg@ == "-- SPEAKER/STYLE --"@
        &&& n == (Editor {
            mode: Mode::SpeakerStyle,
            status_msg: n.status_msg,
            speaker_style: n.speaker_style,
            pending_d: false,
            pending_z: false,
            pending_g: false,
            pending_quote: false,
            pending_clipboard: false,
            count_buf: n.count_buf,
            ..*self
        })
        &&& n.count_buf@.len() == 0
    }
}

impl<I: Clone> Editor<I> {
    /// `s`: opens the chooser on the cursor line, selecting the voice its
    /// first spoken segment has.
    pub fn enter_speaker_style_mode(&mut self, t: &SpeakerTable, avail: &PsdAvailability)
        requires
            old(self).wf(),
        ensures
            final(self).wf(),
            old(self).chooser_opened_into(*final(self), t@, avail.names()),
    {
        self.reset_pending_prefixes();
        let original_line = self.lines[self.cursor].clone();
        let original_ctx = line_head_ctx(t, original_line.as_str());
        let (speaker_index, style_index) = speaker_style_indices_from_ctx(t, avail, &original_ctx);
        let previous_status_msg = self.status_msg.clone();
        self.speaker_style = Some(
            SpeakerStyleState {
                original_line,
                previous_status_msg,
                original_ctx,
                speaker_index,
                style_index,
                focus: SpeakerStyleFocus::Speaker,
            },
        );
        self.mode = Mode::SpeakerStyle;
        self.status_msg = "-- SPEAKER/STYLE --".to_owned();
    }

    /// The voice the chooser has selected.
    pub fn speaker_style_selected_ctx(&self, t: &SpeakerTable, avail: &PsdAvailability) -> (r: Option<VoiceCtx>)
        ensures
            match self.speaker_style {
                Some(st) => r is Some && r->0@ == spec_ctx_from_indices(
                    t@,
                    avail.names(),
                    st.speaker_index as int,
                    st.style_index as int,
                ),
                None => r is None,
            },
    {
        match &self.speaker_style {
            Some(st) => Some(speaker_style_ctx_from_indices(t, avail, st.speaker_index, st.style_index)),
            None => None,
        }
    }

    /// The chooser's line rewritten with the selected voice.
    pub fn speaker_style_selected_preview_line(&self, t: &SpeakerTable, avail: &PsdAvailability) -> (r: Option<String>)
        ensures
            match self.speaker_style {
                Some(st) => r is Some && r->0@ == spec_rewrite_line_with_ctx(
                    t@,
                    st.original_line@,
                    spec_ctx_from_indices(t@, avail.names(), st.speaker_index as int, st.style_index as int),
                ),
                None => r is None,
            },
    {
        match &self.speaker_style {
            Some(st) => {
                let ctx = speaker_style_ctx_from_indices(t, avail, st.speaker_index, st.style_index);
                Some(rewrite_line_with_ctx(t, st.original_line.as_str(), &ctx))
            },
            None => None,
        }
    }

    /// Left/right: moves the focus to the speakers or the styles.
    pub fn speaker_style_focus(&mut self, focus: SpeakerStyleFocus)
        ensures
            match old(self).speaker_style {
                Some(st) => final(self).speaker_style matches Some(n) && n.focus == focus
                    && n.speaker_index == st.speaker_index && n.style_index == st.style_index
                    && n.original_line == st.original_line && n.original_ctx == st.original_ctx
                    && n.previous_status_msg == st.previous_status_msg,
                None => final(self).speaker_style is None,
            },
            final(self).lines == old(self).lines,
            final(self).line_intonations == old(self).line_intonations,
            final(self).cursor == old(self).cursor,
            final(self).tabs == old(self).tabs,
            final(self).active_tab == old(self).active_tab,
            final(self).mode == old(self).mode,
            final(self).status_msg == old(self).status_msg,
    {
        match self.speaker_style.take() {
            Some(mut st) => {
                st.focus = focus;
                self.speaker_style = Some(st);
            },
            None => {},
        }
    }

    /// Up/down: moves the focused selection by `delta`, clamped to the list;
    /// a new speaker starts at its first style. Answers the preview line
    /// when the selection changed.
    pub fn speaker_style_adjust_selection(&mut self, t: &SpeakerTable, avail: &PsdAvailability, delta: i32) -> (r: Option<String>)
        ensures
            match old(self).speaker_style {
                None => r is None && final(self).speaker_style is None,
                Some(st) => {
                    let names = chooser_names(t@, avail.names());
                    let styles = chooser_styles(t@, avail.names(), st.speaker_index as int);
                    let count = if st.focus == SpeakerStyleFocus::Speaker {
                        names.len() as int
                    } else {
                        styles.len() as int
                    };
                    let cur = if st.focus == SpeakerStyleFocus::Speaker {
                        st.speaker_index as int
                    } else {
                        st.style_index as int
                    };
                    let next = moved_index(cur, delta as int, count);
                    if count == 0 || next == cur {
                        r is None && final(self).speaker_style == old(self).speaker_style
                    } else {
                        final(self).speaker_style matches Some(n) && n.focus == st.focus
                            && n.original_line == st.original_line && n.original_ctx == st.original_ctx
                            && n.previous_status_msg == st.previous_status_msg && (if st.focus
                            == SpeakerStyleFocus::Speaker {
                            n.speaker_index == next && n.style_index == 0
                        } else {
                            n.speaker_index == st.speaker_index && n.style_index == next
                        }) && r is Some && r->0@ == spec_rewrite_line_with_ctx(
                            t@,
                            st.original_line@,
                            spec_ctx_from_indices(t@, avail.names(), n.speaker_index as int, n.style_index as int),
                        )
                    }
                },
            },
            final(self).lines == old(self).lines,
            final(self).line_intonations == old(self).line_intonations,
            final(self).cursor == old(self).cursor,
            final(self).tabs == old(self).tabs,
            final(self).active_tab == old(self).active_tab,
            final(self).mode == old(self).mode,
            final(self).status_msg == old(self).status_msg,
    {
        let mut st = match self.speaker_style.take() {
            Some(st) => st,
            None => return None,
        };
        let ghost st0 = st;
        let (count, cur) = if st.focus == SpeakerStyleFocus::Speaker {
            let names = partition_names(t, avail);
            (names.len(), st.speaker_index)
        } else {
            let styles = speaker_style_styles(t, avail, st.speaker_index);
            (styles.len(), st.style_index)
        };
        if count == 0 {
            self.speaker_style = Some(st);
            return None;
        }
        let next = clamped_move(cur, delta, count);
        if next == cur {
            self.speaker_style = Some(st);
            return None;
        }
        if st.focus == SpeakerStyleFocus::Speaker {
            st.speaker_index = next;
            st.style_index = 0;
        } else {
            st.style_index = next;
        }
        self.speaker_style = Some(st);
        self.speaker_style_selected_preview_line(t, avail)
    }

    /// Previewing the selection: the status shows the voice and the line's
    /// text; answers the line to synthesize and play (leading spaces left
    /// out), none when it has nothing to speak or the chooser is closed.
    pub fn preview_speaker_style_selection(&mut self, t: &SpeakerTable, avail: &PsdAvailability, preview_line: &str) -> (r: Option<String>)
        ensures
            match old(self).speaker_style {
                None => r is None && final(self).status_msg == old(self).status_msg,
                Some(st) => {
                    let ctx = spec_ctx_from_indices(t@, avail.names(), st.speaker_index as int, st.style_index as int);
                    let synth = crate::text::trim_start(preview_line@);
                    &&& final(self).status_msg@ == "[preview] "@ + explicit_prefix(ctx) + crate::text::trim_start(
                        crate::tag::spec_strip_known_tags(t@, preview_line@),
                    )
                    &&& (crate::tag::spec_parse_line(t@, synth).len() == 0 ==> r is None)
                    &&& (crate::tag::spec_parse_line(t@, synth).len() > 0 ==> r is Some && r->0@ == synth)
                },
            },
            final(self).lines == old(self).lines,
            final(self).line_intonations == old(self).line_intonations,
            final(self).cursor == old(self).cursor,
            final(self).tabs == old(self).tabs,
            final(self).active_tab == old(self).active_tab,
            final(self).mode == old(self).mode,
            final(self).speaker_style == old(self).speaker_style,
    {
        let ctx = match self.speaker_style_selected_ctx(t, avail) {
            Some(c) => c,
            None => return None,
        };
        let stripped = crate::tag::strip_known_tags(t, preview_line);
        let body = crate::text::trimmed_start(stripped.as_str());
        let mut msg = "[preview] ".to_owned();
        let prefix = ctx_to_explicit_prefix(&ctx);
        push_str(&mut msg, prefix.as_str());
        push_str(&mut msg, body.as_str());
        self.status_msg = msg;
        let synth = crate::text::trimmed_start(preview_line);
        let segs = crate::tag::parse_line(t, synth.as_str());
        if segs.len() == 0 {
            return None;
        }
        Some(synth)
    }

    /// Esc: closes the chooser, putting back the status it found.
    pub fn cancel_speaker_style_mode(&mut self)
        ensures
            final(self).speaker_style is None,
            final(self).mode == Mode::Normal,
            match old(self).speaker_style {
                Some(st) => final(self).status_msg == st.previous_status_msg,
                None => final(self).status_msg == old(self).status_msg,
            },
            final(self).lines == old(self).lines,
            final(self).line_intonations == old(self).line_intonations,
            final(self).cursor == old(self).cursor,
            final(self).tabs == old(self).tabs,
            final(self).active_tab == old(self).active_tab,
    {
        match self.speaker_style.take() {
            Some(st) => {
                self.status_msg = st.previous_status_msg;
            },
            None => {},
        }
        self.mode = Mode::Normal;
    }

    /// Enter: closes the chooser. A voice other than the line's own
    /// rewrites the cursor line with it and drops its intonation data;
    /// answers whether the line changed (and prefetch is to restart).
    pub fn confirm_speaker_style_mode(&mut self, t: &SpeakerTable, avail: &PsdAvailability) -> (changed: bool)
        requires
            old(self).wf(),
        ensures
            final(self).wf(),
            final(self).speaker_style is None,
            match old(self).speaker_style {
                None => !changed && final(self).mode == old(self).mode && final(self).lines == old(self).lines
                    && final(self).line_intonations == old(self).line_intonations,
                Some(st) => {
                    let ctx = spec_ctx_from_indices(t@, avail.names(), st.speaker_index as int, st.style_index as int);
                    let c = old(self).cursor as int;
                    &&& final(self).mode == Mode::Normal
                    &&& changed == (ctx != st.original_ctx@)
                    &&& !changed ==> final(self).status_msg == st.previous_status_msg && final(self).lines
                        == old(self).lines && final(self).line_intonations == old(self).line_intonations
                    &&& changed ==> {
                        &&& final(self).lines_view() == old(self).lines_view().update(
                            c,
                            spec_rewrite_line_with_ctx(t@, st.original_line@, ctx),
                        )
                        &&& final(self).line_intonations@ == old(self).line_intonations@.update(c, None)
                        &&& final(self).status_msg@ == "[speaker/style] "@ + explicit_prefix(ctx)
                    }
                },
            },
            final(self).cursor == old(self).cursor,
            final(self).folded == old(self).folded,
            final(self).tabs == old(self).tabs,
            final(self).active_tab == old(self).active_tab,
    {
        let st = match self.speaker_style.take() {
            Some(st) => st,
            None => return false,
        };
        self.mode = Mode::Normal;
        let ctx = speaker_style_ctx_from_indices(t, avail, st.speaker_index, st.style_index);
        let same = ctx.char_name == st.original_ctx.char_name && ctx.style_name == st.original_ctx.style_name
            && ctx.speaker_id == st.original_ctx.speaker_id;
        if same {
            self.status_msg = st.previous_status_msg;
            return false;
        }
        let new_line = rewrite_line_with_ctx(t, st.original_line.as_str(), &ctx);
        let c = self.cursor;
        let ghost bl = self.lines_view();
        self.line_intonations[c] = None;
        self.lines[c] = new_line;
        assert(self.lines_view() =~= bl.update(c as int, spec_rewrite_line_with_ctx(t@, st.original_line@, ctx@)));
        let mut msg = "[speaker/style] ".to_owned();
        let prefix = ctx_to_explicit_prefix(&ctx);
        push_str(&mut msg, prefix.as_str());
        self.status_msg = msg;
        true
    }
}

} // verus!
