//! The editing state of the line editor: the lines of the active tab with
//! their per-line intonation data, the cursor, folding, the yank buffer, the
//! other tabs and the key prefixes waiting for a second key. Playback and
//! prefetch are the caller's work; the operations here answer whether the
//! cursor line should be played.

use vstd::prelude::*;

use crate::lines::{
    compress_trailing_empty, is_nearest_vis_pos, nearest_vis_pos, spec_compress_trailing_empty,
    spec_nearest, spec_visible, visible_line_indices,
};
use crate::tag::strings_view;
use crate::text::parse_usize;

verus! {

/// Input mode of the editor.
#[derive(Debug, Clone, Copy, PartialEq, Eq, Structural)]
pub enum Mode {
    Normal,
    Insert,
    /// Simple keyboard intonation editing.
    Intonation,
    /// Colon command input (e.g. `:tabnew`).
    Command,
    /// The help menu.
    Help,
    /// The speaker/style chooser.
    SpeakerStyle,
}

/// A tab that is not the active one.
pub struct Tab<I> {
    pub lines: Vec<String>,
    pub intonations: Vec<Option<I>>,
    pub cursor: usize,
    pub folded: bool,
}

/// Editing state. The active tab lives in `lines`, `line_intonations`,
/// `cursor` and `folded`; `tabs` holds every tab, the slot of the active one
/// being a placeholder.
pub struct Editor<I> {
    pub lines: Vec<String>,
    /// Intonation data of each line, aligned with `lines`.
    pub line_intonations: Vec<Option<I>>,
    pub cursor: usize,
    /// Lines starting with a half-width space are hidden.
    pub folded: bool,
    pub mode: Mode,
    /// The last deleted line and its intonation data.
    pub yank_buf: Option<(String, Option<I>)>,
    pub tabs: Vec<Tab<I>>,
    pub active_tab: usize,
    /// Count typed before a motion (e.g. the `10` of `10j`).
    pub count_buf: String,
    pub command_buf: String,
    pub help_key_buf: String,
    pub pending_d: bool,
    pub pending_z: bool,
    pub pending_g: bool,
    pub pending_quote: bool,
    pub pending_clipboard: bool,
    pub status_msg: String,
    /// The speaker/style chooser, while it is open.
    pub speaker_style: Option<crate::chooser::SpeakerStyleState>,
}

/// A stored tab has lines, one intonation slot per line and a cursor on a line.
pub open spec fn tab_ok<I>(t: Tab<I>) -> bool {
    &&& t.lines@.len() >= 1
    &&& t.intonations@.len() == t.lines@.len()
    &&& t.cursor < t.lines@.len()
}

/// `clamp(x, lo, hi)` for `lo <= hi`.
pub open spec fn clamp(x: int, lo: int, hi: int) -> int {
    if x < lo {
        lo
    } else if x > hi {
        hi
    } else {
        x
    }
}

/// `r` is the cursor after moving `cursor` onto a shown line: unchanged when
/// nothing is folded away, when nothing is shown or when it is on a shown
/// line, else the nearest shown line.
pub open spec fn normalized_cursor(lines: Seq<Seq<char>>, folded: bool, cursor: usize) -> usize {
    let vis = spec_visible(lines, folded);
    if !folded || vis.len() == 0 || vis.contains(cursor) {
        cursor
    } else {
        vis[spec_nearest(cursor, vis)]
    }
}

pub open spec fn fold_normalized(lines: Seq<Seq<char>>, folded: bool, cursor: usize, r: usize) -> bool {
    r == normalized_cursor(lines, folded, cursor)
}

/// `b` is `a` or a clone of it, as `Option::clone` gives.
pub open spec fn opt_cloned<I: Clone>(a: Option<I>, b: Option<I>) -> bool {
    match a {
        Some(x) => b is Some && cloned::<I>(x, b->0),
        None => b is None,
    }
}

impl<I> Editor<I> {
    /// Whether the state is well formed (see `wf`): a caller outside the
    /// library tests this before handing the state to a function that needs it.
    pub fn is_well_formed(&self) -> (b: bool)
        ensures
            b == self.wf(),
    {
        if !(self.active_tab < self.tabs.len() && self.lines.len() >= 1
            && self.line_intonations.len() == self.lines.len() && self.cursor < self.lines.len()) {
            return false;
        }
        let mut i: usize = 0;
        while i < self.tabs.len()
            invariant
                i <= self.tabs@.len(),
                forall|k: int| 0 <= k < i && k != self.active_tab ==> tab_ok(#[trigger] self.tabs@[k]),
            decreases self.tabs.len() - i,
        {
            if i != self.active_tab {
                let t = &self.tabs[i];
                if !(t.lines.len() >= 1 && t.intonations.len() == t.lines.len() && t.cursor < t.lines.len()) {
                    assert(!tab_ok(self.tabs@[i as int]));
                    return false;
                }
            }
            i = i + 1;
        }
        true
    }
}

impl<I> Editor<I> {
    pub open spec fn lines_view(&self) -> Seq<Seq<char>> {
        strings_view(self.lines@)
    }

    /// Lines of tab `i`.
    pub open spec fn tab_lines(&self, i: int) -> Seq<Seq<char>> {
        if i == self.active_tab {
            strings_view(self.lines@)
        } else {
            strings_view(self.tabs@[i].lines@)
        }
    }

    /// Intonation data of tab `i`.
    pub open spec fn tab_intonations(&self, i: int) -> Seq<Option<I>> {
        if i == self.active_tab {
            self.line_intonations@
        } else {
            self.tabs@[i].intonations@
        }
    }

    /// Cursor of tab `i`.
    pub open spec fn tab_cursor(&self, i: int) -> usize {
        if i == self.active_tab {
            self.cursor
        } else {
            self.tabs@[i].cursor
        }
    }

    /// Folding of tab `i`.
    pub open spec fn tab_folded(&self, i: int) -> bool {
        if i == self.active_tab {
            self.folded
        } else {
            self.tabs@[i].folded
        }
    }

    /// Every tab has lines, one intonation slot per line and a cursor on a line.
    pub open spec fn wf(&self) -> bool {
        &&& self.active_tab < self.tabs@.len()
        &&& self.lines@.len() >= 1
        &&& self.line_intonations@.len() == self.lines@.len()
        &&& self.cursor < self.lines@.len()
        &&& forall|i: int|
            0 <= i < self.tabs@.len() && i != self.active_tab ==> tab_ok(#[trigger] self.tabs@[i])
    }

    /// Lines of every tab, by tab index.
    pub open spec fn doc_lines(&self) -> Seq<Seq<Seq<char>>> {
        Seq::new(self.tabs@.len(), |i: int| self.tab_lines(i))
    }

    /// Intonation data of every tab, by tab index.
    pub open spec fn doc_intonations(&self) -> Seq<Seq<Option<I>>> {
        Seq::new(self.tabs@.len(), |i: int| self.tab_intonations(i))
    }

    /// Cursor of every tab, by tab index.
    pub open spec fn doc_cursors(&self) -> Seq<usize> {
        Seq::new(self.tabs@.len(), |i: int| self.tab_cursor(i))
    }

    /// Folding of every tab, by tab index.
    pub open spec fn doc_folded(&self) -> Seq<bool> {
        Seq::new(self.tabs@.len(), |i: int| self.tab_folded(i))
    }

    /// Everything but the tabs, cursor and folding is as in `o`.
    pub open spec fn same_extras(&self, o: &Editor<I>) -> bool {
        &&& self.mode == o.mode
        &&& self.yank_buf == o.yank_buf
        &&& self.count_buf == o.count_buf
        &&& self.command_buf == o.command_buf
        &&& self.help_key_buf == o.help_key_buf
        &&& self.pending_d == o.pending_d
        &&& self.pending_z == o.pending_z
        &&& self.pending_g == o.pending_g
        &&& self.pending_quote == o.pending_quote
        &&& self.pending_clipboard == o.pending_clipboard
        &&& self.status_msg == o.status_msg
    }

    /// `self` is `o` with tab `target` made active: the tabs' lines,
    /// intonation data and folding are unchanged, the cursors too except that
    /// of `target`, which moves onto a shown line.
    pub open spec fn switched_from(&self, o: &Editor<I>, target: int) -> bool {
        &&& self.active_tab == target
        &&& self.tabs@.len() == o.tabs@.len()
        &&& self.doc_lines() == o.doc_lines()
        &&& self.doc_intonations() == o.doc_intonations()
        &&& self.doc_folded() == o.doc_folded()
        &&& forall|i: int| 0 <= i < o.tabs@.len() && i != target ==> #[trigger] self.tab_cursor(i) == o.tab_cursor(i)
        &&& self.cursor == normalized_cursor(o.tab_lines(target), o.tab_folded(target), o.tab_cursor(target))
    }

    /// `n` is `self` with the key prefixes set to `d`, `z`, `g`, `quote` and
    /// `clipboard` and the count cleared, nothing else changed.
    pub open spec fn prefixes_set(&self, n: Editor<I>, d: bool, z: bool, g: bool, quote: bool, clipboard: bool) -> bool {
        &&& n == (Editor {
            pending_d: d,
            pending_z: z,
            pending_g: g,
            pending_quote: quote,
            pending_clipboard: clipboard,
            count_buf: n.count_buf,
            ..*self
        })
        &&& n.count_buf@.len() == 0
    }

    /// The key prefixes are all cleared.
    pub open spec fn no_pending(&self) -> bool {
        &&& !self.pending_d
        &&& !self.pending_z
        &&& !self.pending_g
        &&& !self.pending_quote
        &&& !self.pending_clipboard
        &&& self.count_buf@.len() == 0
    }

    /// What `delta` moves the cursor to (see `move_cursor`).
    pub open spec fn moved_cursor(&self, delta: int, r: usize) -> bool {
        let vis = spec_visible(self.lines_view(), self.folded);
        if self.folded {
            if vis.len() == 0 {
                r == self.cursor
            } else {
                r == vis[clamp(spec_nearest(self.cursor, vis) + delta, 0, vis.len() - 1)]
            }
        } else {
            r == clamp(self.cursor + delta, 0, self.lines@.len() - 1)
        }
    }
}

pub proof fn lemma_visible_props(lines: Seq<Seq<char>>, folded: bool)
    ensures
        spec_visible(lines, folded).len() <= lines.len(),
        forall|k: int|
            0 <= k < spec_visible(lines, folded).len() ==> #[trigger] spec_visible(lines, folded)[k]
                < lines.len(),
    decreases lines.len(),
{
    if lines.len() > 0 {
        lemma_visible_props(lines.drop_last(), folded);
        let p = spec_visible(lines.drop_last(), folded);
        assert forall|k: int|
            0 <= k < spec_visible(lines, folded).len() implies #[trigger] spec_visible(
            lines,
            folded,
        )[k] < lines.len() by {
            if k < p.len() {
                assert(spec_visible(lines, folded)[k] == p[k]);
            }
        }
    }
}

impl<I: Clone> Editor<I> {
    /// One tab holding `lines` with exactly one blank line at the end, the
    /// cursor on the last line, nothing folded, no intonation data.
    pub fn new(lines: Vec<String>) -> (e: Editor<I>)
        ensures
            e.wf(),
            e.lines_view() == spec_compress_trailing_empty(strings_view(lines@)),
            forall|k: int| 0 <= k < e.line_intonations@.len() ==> e.line_intonations@[k] is None,
            e.cursor == e.lines@.len() - 1,
            !e.folded,
            e.tabs@.len() == 1,
            e.active_tab == 0,
            e.mode == Mode::Normal,
            e.yank_buf is None,
            e.no_pending(),
            e.command_buf@.len() == 0,
            e.help_key_buf@.len() == 0,
    {
        let lines = compress_trailing_empty(lines);
        let mut line_intonations: Vec<Option<I>> = Vec::new();
        let mut k: usize = 0;
        while k < lines.len()
            invariant
                k <= lines@.len(),
                line_intonations@.len() == k,
                forall|j: int| 0 <= j < k ==> line_intonations@[j] is None,
            decreases lines.len() - k,
        {
            line_intonations.push(None);
            k = k + 1;
        }
        let cursor = lines.len() - 1;
        let mut tabs: Vec<Tab<I>> = Vec::new();
        tabs.push(Tab { lines: Vec::new(), intonations: Vec::new(), cursor: 0, folded: false });
        let e = Editor {
            lines,
            line_intonations,
            cursor,
            folded: false,
            mode: Mode::Normal,
            yank_buf: None,
            tabs,
            active_tab: 0,
            count_buf: String::new(),
            command_buf: String::new(),
            help_key_buf: String::new(),
            pending_d: false,
            pending_z: false,
            pending_g: false,
            pending_quote: false,
            pending_clipboard: false,
            status_msg: "ready".to_owned(),
            speaker_style: None,
        };
        e
    }

    /// Indices of the shown lines of the active tab.
    pub fn visible_line_indices(&self) -> (r: Vec<usize>)
        ensures
            r@ == spec_visible(self.lines_view(), self.folded),
    {
        visible_line_indices(&self.lines, self.folded)
    }

    /// Position of the cursor among the shown lines (of the nearest shown
    /// line when the cursor line is hidden).
    pub fn vis_cursor_pos(&self) -> (r: usize)
        ensures
            is_nearest_vis_pos(self.cursor, spec_visible(self.lines_view(), self.folded), r as int),
    {
        let v = self.visible_line_indices();
        nearest_vis_pos(self.cursor, v.as_slice())
    }

    /// When folded, moves a cursor on a hidden line to the nearest shown line.
    pub fn normalize_cursor_for_fold(&mut self)
        requires
            old(self).cursor < old(self).lines@.len(),
        ensures
            fold_normalized(old(self).lines_view(), old(self).folded, old(self).cursor, final(self).cursor),
            final(self).cursor < final(self).lines@.len(),
            final(self).lines == old(self).lines,
            final(self).line_intonations == old(self).line_intonations,
            final(self).folded == old(self).folded,
            final(self).tabs == old(self).tabs,
            final(self).active_tab == old(self).active_tab,
            final(self).yank_buf == old(self).yank_buf,
            final(self).mode == old(self).mode,
            final(self).count_buf == old(self).count_buf,
            final(self).pending_d == old(self).pending_d,
            final(self).pending_z == old(self).pending_z,
            final(self).pending_g == old(self).pending_g,
            final(self).pending_quote == old(self).pending_quote,
            final(self).pending_clipboard == old(self).pending_clipboard,
            final(self).command_buf == old(self).command_buf,
            final(self).help_key_buf == old(self).help_key_buf,
            final(self).status_msg == old(self).status_msg,
    {
        if !self.folded {
            return;
        }
        let visible = self.visible_line_indices();
        proof {
            lemma_visible_props(self.lines_view(), self.folded);
        }
        if visible.len() == 0 || contains_usize(&visible, self.cursor) {
            return;
        }
        let p = nearest_vis_pos(self.cursor, visible.as_slice());
        self.cursor = visible[p];
    }

    /// Clears every key prefix and the typed count.
    pub fn reset_pending_prefixes(&mut self)
        ensures
            old(self).prefixes_set(*final(self), false, false, false, false, false),
            final(self).no_pending(),
            final(self).lines == old(self).lines,
            final(self).line_intonations == old(self).line_intonations,
            final(self).cursor == old(self).cursor,
            final(self).folded == old(self).folded,
            final(self).tabs == old(self).tabs,
            final(self).active_tab == old(self).active_tab,
            final(self).yank_buf == old(self).yank_buf,
            final(self).mode == old(self).mode,
            final(self).command_buf == old(self).command_buf,
            final(self).help_key_buf == old(self).help_key_buf,
            final(self).status_msg == old(self).status_msg,
    {
        self.pending_d = false;
        self.pending_z = false;
        self.pending_g = false;
        self.pending_quote = false;
        self.pending_clipboard = false;
        self.count_buf = String::new();
    }

    /// The typed count for the next motion (1 when none, or when it is 0);
    /// the count buffer is emptied.
    pub fn take_count(&mut self) -> (n: usize)
        ensures
            n == match parse_usize(old(self).count_buf@) {
                Some(v) => if v == 0 {
                    1
                } else {
                    v
                },
                None => 1,
            },
            final(self).count_buf@.len() == 0,
            final(self).lines == old(self).lines,
            final(self).line_intonations == old(self).line_intonations,
            final(self).cursor == old(self).cursor,
            final(self).folded == old(self).folded,
            final(self).tabs == old(self).tabs,
            final(self).active_tab == old(self).active_tab,
            final(self).yank_buf == old(self).yank_buf,
            final(self).mode == old(self).mode,
    {
        let c = crate::text::chars_of(self.count_buf.as_str());
        let n = match crate::text::parse_usize_chars(c.as_slice()) {
            Some(v) => if v == 0 {
                1
            } else {
                v
            },
            None => 1,
        };
        self.count_buf = String::new();
        n
    }

    /// Moves the cursor by `delta` lines (shown lines when folded), clamped to
    /// the tab; answers whether it moved, in which case the new line is played.
    pub fn move_cursor(&mut self, delta: i32) -> (moved: bool)
        requires
            old(self).wf(),
            old(self).lines@.len() <= i32::MAX,
        ensures
            final(self).wf(),
            old(self).moved_cursor(delta as int, final(self).cursor),
            moved == (final(self).cursor != old(self).cursor),
            final(self).no_pending(),
            final(self).lines == old(self).lines,
            final(self).line_intonations == old(self).line_intonations,
            final(self).folded == old(self).folded,
            final(self).tabs == old(self).tabs,
            final(self).active_tab == old(self).active_tab,
            final(self).yank_buf == old(self).yank_buf,
            final(self).mode == old(self).mode,
    {
        self.reset_pending_prefixes();
        let next: usize = if self.folded {
            let visible = self.visible_line_indices();
            proof {
                lemma_visible_props(self.lines_view(), self.folded);
            }
            if visible.len() == 0 {
                return false;
            }
            let vis_pos = nearest_vis_pos(self.cursor, visible.as_slice());
            let target: i64 = vis_pos as i64 + delta as i64;
            let hi: i64 = visible.len() as i64 - 1;
            let idx: i64 = if target < 0 {
                0
            } else if target > hi {
                hi
            } else {
                target
            };
            visible[idx as usize]
        } else {
            let target: i64 = self.cursor as i64 + delta as i64;
            let hi: i64 = self.lines.len() as i64 - 1;
            let idx: i64 = if target < 0 {
                0
            } else if target > hi {
                hi
            } else {
                target
            };
            idx as usize
        };
        if next != self.cursor {
            self.cursor = next;
            true
        } else {
            false
        }
    }
}

/// The last shown line above the cursor, if any.
pub open spec fn last_below(vis: Seq<usize>, c: usize) -> Option<usize>
    decreases vis.len(),
{
    if vis.len() == 0 {
        None
    } else if vis.last() < c {
        Some(vis.last())
    } else {
        last_below(vis.drop_last(), c)
    }
}

/// Where `zm` puts the cursor: unchanged on a shown line (or when nothing is
/// shown), else the last shown line above it, else the first shown line.
pub open spec fn fold_cursor(vis: Seq<usize>, c: usize) -> usize {
    if vis.len() == 0 || vis.contains(c) {
        c
    } else {
        match last_below(vis, c) {
            Some(v) => v,
            None => vis[0],
        }
    }
}

proof fn lemma_last_below_in(vis: Seq<usize>, c: usize)
    ensures
        last_below(vis, c) is Some ==> vis.contains(last_below(vis, c)->0),
    decreases vis.len(),
{
    if vis.len() > 0 && !(vis.last() < c) {
        lemma_last_below_in(vis.drop_last(), c);
        if last_below(vis, c) is Some {
            let k = choose|k: int| 0 <= k < vis.drop_last().len() && vis.drop_last()[k] == last_below(vis, c)->0;
            assert(vis[k] == vis.drop_last()[k]);
        }
    } else if vis.len() > 0 {
        assert(vis[vis.len() - 1] == vis.last());
    }
}

fn contains_usize(v: &Vec<usize>, x: usize) -> (b: bool)
    ensures
        b == v@.contains(x),
{
    let mut i: usize = 0;
    while i < v.len()
        invariant
            i <= v@.len(),
            forall|k: int| 0 <= k < i ==> v@[k] != x,
        decreases v.len() - i,
    {
        if v[i] == x {
            return true;
        }
        i = i + 1;
    }
    false
}


impl<I: Clone> Editor<I> {
    /// What `dd` makes of `self`: `n`, answering `play` (see
    /// `delete_current_line`).
    pub open spec fn deleted_into(&self, n: Editor<I>, play: bool) -> bool {
        &&& n.yank_buf == Some((self.lines@[self.cursor as int], self.line_intonations@[self.cursor as int]))
        &&& self.lines@.len() <= 1 ==> {
            &&& n.lines_view() == seq![Seq::<char>::empty()]
            &&& n.line_intonations@ == seq![None::<I>]
            &&& n.cursor == 0
            &&& !play
        }
        &&& self.lines@.len() > 1 ==> {
            &&& n.lines@ == self.lines@.remove(self.cursor as int)
            &&& n.line_intonations@ == self.line_intonations@.remove(self.cursor as int)
            &&& n.cursor == if self.cursor < n.lines@.len() {
                self.cursor
            } else {
                (n.lines@.len() - 1) as usize
            }
            &&& play
        }
        &&& n.no_pending()
        &&& n.folded == self.folded
        &&& n.tabs == self.tabs
        &&& n.active_tab == self.active_tab
        &&& n.mode == self.mode
    }

    /// What `p` (`below`) or `P` makes of `self`: `n`, answering `play` (see
    /// `paste_below` and `paste_above`).
    pub open spec fn pasted_into(&self, n: Editor<I>, below: bool, play: bool) -> bool {
        let at = if below {
            self.cursor + 1
        } else {
            self.cursor as int
        };
        &&& n.no_pending()
        &&& n.folded == self.folded
        &&& n.tabs == self.tabs
        &&& n.active_tab == self.active_tab
        &&& n.yank_buf == self.yank_buf
        &&& n.mode == self.mode
        &&& match self.yank_buf {
            None => {
                &&& !play
                &&& n.lines == self.lines
                &&& n.line_intonations == self.line_intonations
                &&& n.cursor == self.cursor
            },
            Some((text, inton)) => {
                &&& play
                &&& n.lines@ == self.lines@.insert(at, text)
                &&& n.line_intonations@.remove(at) == self.line_intonations@
                &&& n.line_intonations@.len() == self.line_intonations@.len() + 1
                &&& opt_cloned(inton, n.line_intonations@[at])
                &&& fold_normalized(n.lines_view(), n.folded, at as usize, n.cursor)
            },
        }
    }

    /// What `gt` (`forward`) or `gT` makes of `self`: `n` (see `tab_next`
    /// and `tab_prev`).
    pub open spec fn tab_stepped_into(&self, n: Editor<I>, forward: bool) -> bool {
        let len = self.tabs@.len() as int;
        let target = if forward {
            (self.active_tab + 1) % len
        } else if self.active_tab == 0 {
            len - 1
        } else {
            self.active_tab - 1
        };
        &&& n.no_pending()
        &&& n.mode == self.mode
        &&& n.yank_buf == self.yank_buf
        &&& len <= 1 ==> n.lines == self.lines && n.cursor == self.cursor && n.folded == self.folded && n.tabs
            == self.tabs && n.active_tab == self.active_tab && n.line_intonations == self.line_intonations
        &&& len > 1 ==> n.switched_from(self, target)
    }
}

impl<I: Clone> Editor<I> {
    /// `zm`: hides the lines that start with a half-width space; a cursor on
    /// a hidden line goes to the shown line above it (or the first shown line).
    pub fn fold(&mut self)
        requires
            old(self).wf(),
        ensures
            final(self).wf(),
            final(self).folded,
            final(self).cursor == fold_cursor(spec_visible(old(self).lines_view(), true), old(self).cursor),
            final(self).no_pending(),
            final(self).lines == old(self).lines,
            final(self).line_intonations == old(self).line_intonations,
            final(self).tabs == old(self).tabs,
            final(self).active_tab == old(self).active_tab,
            final(self).yank_buf == old(self).yank_buf,
            final(self).mode == old(self).mode,
    {
        self.reset_pending_prefixes();
        self.folded = true;
        let visible = self.visible_line_indices();
        proof {
            lemma_visible_props(self.lines_view(), true);
        }
        if visible.len() == 0 || contains_usize(&visible, self.cursor) {
            return;
        }
        let ghost vis = visible@;
        let mut j = visible.len();
        assert(vis.take(j as int) =~= vis);
        while j > 0 && visible[j - 1] >= self.cursor
            invariant
                j <= vis.len(),
                vis == visible@,
                last_below(vis, self.cursor) == last_below(vis.take(j as int), self.cursor),
            decreases j,
        {
            assert(vis.take(j as int).drop_last() =~= vis.take(j - 1));
            j = j - 1;
        }
        if j > 0 {
            assert(vis.take(j as int).last() == vis[j - 1]);
            self.cursor = visible[j - 1];
        } else {
            assert(vis.take(0) =~= Seq::<usize>::empty());
            self.cursor = visible[0];
        }
    }

    /// `zr`: shows every line.
    pub fn unfold(&mut self)
        requires
            old(self).wf(),
        ensures
            final(self).wf(),
            !final(self).folded,
            final(self).cursor == old(self).cursor,
            final(self).no_pending(),
            final(self).lines == old(self).lines,
            final(self).line_intonations == old(self).line_intonations,
            final(self).tabs == old(self).tabs,
            final(self).active_tab == old(self).active_tab,
            final(self).yank_buf == old(self).yank_buf,
            final(self).mode == old(self).mode,
    {
        self.reset_pending_prefixes();
        self.folded = false;
    }

    /// `dd`: deletes the cursor line into the yank buffer (with its intonation
    /// data); the last remaining line becomes empty instead. Answers whether
    /// the new cursor line is played.
    pub fn delete_current_line(&mut self) -> (play: bool)
        requires
            old(self).wf(),
        ensures
            final(self).wf(),
            old(self).deleted_into(*final(self), play),
    {
        self.reset_pending_prefixes();
        let c = self.cursor;
        let line = self.lines.remove(c);
        let inton = self.line_intonations.remove(c);
        self.yank_buf = Some((line, inton));
        if self.lines.len() == 0 {
            self.lines.push(String::new());
            self.line_intonations.push(None);
            self.cursor = 0;
            assert(self.lines_view() =~= seq![Seq::<char>::empty()]);
            assert(self.line_intonations@ =~= seq![None::<I>]);
            return false;
        }
        if self.cursor >= self.lines.len() {
            self.cursor = self.lines.len() - 1;
        }
        true
    }

    /// `p`: puts the yanked line (and a clone of its intonation data) below
    /// the cursor and moves onto it. Answers whether it is played.
    pub fn paste_below(&mut self) -> (play: bool)
        requires
            old(self).wf(),
        ensures
            final(self).wf(),
            old(self).pasted_into(*final(self), true, play),
    {
        self.reset_pending_prefixes();
        let (text, inton) = match &self.yank_buf {
            Some(y) => (y.0.clone(), y.1.clone()),
            None => return false,
        };
        let n = self.lines.len();
        assert(self.cursor < n);
        let at = self.cursor + 1;
        self.lines.insert(at, text);
        self.line_intonations.insert(at, inton);
        assert(self.line_intonations@.remove(at as int) =~= old(self).line_intonations@);
        self.cursor = at;
        self.normalize_cursor_for_fold();
        true
    }

    /// `P`: puts the yanked line (and a clone of its intonation data) above
    /// the cursor; the cursor stays on it. Answers whether it is played.
    pub fn paste_above(&mut self) -> (play: bool)
        requires
            old(self).wf(),
        ensures
            final(self).wf(),
            old(self).pasted_into(*final(self), false, play),
    {
        self.reset_pending_prefixes();
        let (text, inton) = match &self.yank_buf {
            Some(y) => (y.0.clone(), y.1.clone()),
            None => return false,
        };
        let at = self.cursor;
        self.lines.insert(at, text);
        self.line_intonations.insert(at, inton);
        assert(self.line_intonations@.remove(at as int) =~= old(self).line_intonations@);
        self.normalize_cursor_for_fold();
        true
    }
}

/// `dd` then `P` on a line that is not the last one, with nothing folded,
/// gives the lines back as they were, with the cursor where it was and the
/// line's intonation data back (as a clone).
pub proof fn lemma_delete_then_paste_above_restores<I: Clone>(
    e0: Editor<I>,
    e1: Editor<I>,
    e2: Editor<I>,
)
    requires
        e0.wf(),
        !e0.folded,
        e0.lines@.len() > 1,
        e0.cursor + 1 < e0.lines@.len(),
        e1.yank_buf == Some((e0.lines@[e0.cursor as int], e0.line_intonations@[e0.cursor as int])),
        e1.lines@ == e0.lines@.remove(e0.cursor as int),
        e1.line_intonations@ == e0.line_intonations@.remove(e0.cursor as int),
        e1.cursor == (if e0.cursor < e1.lines@.len() {
            e0.cursor
        } else {
            (e1.lines@.len() - 1) as usize
        }),
        e1.folded == e0.folded,
        e2.lines@ == e1.lines@.insert(e1.cursor as int, e0.lines@[e0.cursor as int]),
        e2.line_intonations@.remove(e1.cursor as int) == e1.line_intonations@,
        e2.line_intonations@.len() == e1.line_intonations@.len() + 1,
        opt_cloned(e0.line_intonations@[e0.cursor as int], e2.line_intonations@[e1.cursor as int]),
        e2.folded == e1.folded,
        fold_normalized(strings_view(e2.lines@), e2.folded, e1.cursor, e2.cursor),
    ensures
        e2.lines@ == e0.lines@,
        e2.cursor == e0.cursor,
        opt_cloned(e0.line_intonations@[e0.cursor as int], e2.line_intonations@[e0.cursor as int]),
        forall|k: int|
            0 <= k < e0.line_intonations@.len() && k != e0.cursor ==> #[trigger] e2.line_intonations@[k]
                == e0.line_intonations@[k],
{
    let c = e0.cursor as int;
    assert(e2.lines@ =~= e0.lines@);
    assert forall|k: int| 0 <= k < e0.line_intonations@.len() && k != c implies #[trigger] e2.line_intonations@[k]
        == e0.line_intonations@[k] by {
        if k < c {
            assert(e2.line_intonations@.remove(c)[k] == e2.line_intonations@[k]);
        } else {
            assert(e2.line_intonations@.remove(c)[k - 1] == e2.line_intonations@[k]);
        }
    }
}


/// The tab after `a` of `n` tabs, wrapping round, is another tab.
proof fn lemma_next_index(a: int, n: int)
    requires
        0 <= a < n,
        n > 1,
    ensures
        0 <= (a + 1) % n < n,
        (a + 1) % n != a,
        a + 1 < n ==> (a + 1) % n == a + 1,
        a + 1 == n ==> (a + 1) % n == 0,
{
    if a + 1 < n {
        vstd::arithmetic::div_mod::lemma_small_mod((a + 1) as nat, n as nat);
    } else {
        vstd::arithmetic::div_mod::lemma_mod_self_0(n);
    }
}

/// Two editors with the same tabs, lines, cursor and folding describe the
/// same document.
proof fn lemma_same_tab_state<I>(x: Editor<I>, y: Editor<I>)
    requires
        x.lines == y.lines,
        x.line_intonations == y.line_intonations,
        x.cursor == y.cursor,
        x.folded == y.folded,
        x.tabs == y.tabs,
        x.active_tab == y.active_tab,
    ensures
        x.doc_lines() == y.doc_lines(),
        x.doc_intonations() == y.doc_intonations(),
        x.doc_cursors() == y.doc_cursors(),
        x.doc_folded() == y.doc_folded(),
        forall|i: int| #[trigger] x.tab_lines(i) == y.tab_lines(i),
        forall|i: int| #[trigger] x.tab_folded(i) == y.tab_folded(i),
        forall|i: int| #[trigger] x.tab_cursor(i) == y.tab_cursor(i),
        forall|i: int| #[trigger] x.tab_intonations(i) == y.tab_intonations(i),
{
    assert(x.doc_lines() =~= y.doc_lines());
    assert(x.doc_intonations() =~= y.doc_intonations());
    assert(x.doc_cursors() =~= y.doc_cursors());
    assert(x.doc_folded() =~= y.doc_folded());
}

impl<I: Clone> Editor<I> {
    /// Stores the active tab into its slot and takes tab `target` out of its slot.
    fn switch_active(&mut self, target: usize)
        requires
            old(self).wf(),
            target < old(self).tabs@.len(),
            target != old(self).active_tab,
        ensures
            final(self).wf(),
            final(self).switched_from(old(self), target as int),
            final(self).same_extras(old(self)),
    {
        let ghost o = *self;
        let a = self.active_tab;
        let mut cur_lines: Vec<String> = Vec::new();
        std::mem::swap(&mut cur_lines, &mut self.lines);
        let mut cur_int: Vec<Option<I>> = Vec::new();
        std::mem::swap(&mut cur_int, &mut self.line_intonations);
        let saved = Tab { lines: cur_lines, intonations: cur_int, cursor: self.cursor, folded: self.folded };
        let _placeholder = self.tabs.remove(a);
        self.tabs.insert(a, saved);
        let t = self.tabs.remove(target);
        self.tabs.insert(target, Tab { lines: Vec::new(), intonations: Vec::new(), cursor: 0, folded: false });
        assert(t == o.tabs@[target as int]);
        assert(tab_ok(t));
        self.lines = t.lines;
        self.line_intonations = t.intonations;
        self.cursor = t.cursor;
        self.folded = t.folded;
        self.active_tab = target;
        proof {
            assert forall|i: int| 0 <= i < self.tabs@.len() && i != self.active_tab implies tab_ok(#[trigger] self.tabs@[i]) by {
                if i != a {
                    assert(self.tabs@[i] == o.tabs@[i]);
                }
            }
            assert forall|i: int| 0 <= i < o.tabs@.len() implies #[trigger] self.tab_lines(i) == o.tab_lines(i)
                && self.tab_intonations(i) == o.tab_intonations(i) && self.tab_folded(i) == o.tab_folded(i)
                && (i != target ==> self.tab_cursor(i) == o.tab_cursor(i)) by {
                if i != a && i != target {
                    assert(self.tabs@[i] == o.tabs@[i]);
                }
            }
            assert(self.doc_lines() =~= o.doc_lines());
            assert(self.doc_intonations() =~= o.doc_intonations());
            assert(self.doc_folded() =~= o.doc_folded());
        }
        let ghost before_norm = *self;
        self.normalize_cursor_for_fold();
        proof {
            assert forall|i: int| 0 <= i < o.tabs@.len() implies #[trigger] self.tab_lines(i) == before_norm.tab_lines(i)
                && self.tab_intonations(i) == before_norm.tab_intonations(i) && self.tab_folded(i) == before_norm.tab_folded(i)
                && (i != target ==> self.tab_cursor(i) == before_norm.tab_cursor(i)) by {
            }
            assert(self.doc_lines() =~= o.doc_lines());
            assert(self.doc_intonations() =~= o.doc_intonations());
            assert(self.doc_folded() =~= o.doc_folded());
        }
    }

    /// `:tabnew`: stores the active tab and opens a new empty tab after the
    /// last one.
    pub fn tabnew(&mut self)
        requires
            old(self).wf(),
        ensures
            final(self).wf(),
            final(self).no_pending(),
            final(self).tabs@.len() == old(self).tabs@.len() + 1,
            final(self).active_tab == old(self).tabs@.len(),
            final(self).doc_lines() == old(self).doc_lines().push(seq![Seq::<char>::empty()]),
            final(self).doc_intonations() == old(self).doc_intonations().push(seq![None::<I>]),
            final(self).doc_cursors() == old(self).doc_cursors().push(0usize),
            final(self).doc_folded() == old(self).doc_folded().push(false),
            final(self).mode == old(self).mode,
            final(self).yank_buf == old(self).yank_buf,
    {
        self.reset_pending_prefixes();
        let ghost o = *self;
        let a = self.active_tab;
        let mut cur_lines: Vec<String> = Vec::new();
        std::mem::swap(&mut cur_lines, &mut self.lines);
        let mut cur_int: Vec<Option<I>> = Vec::new();
        std::mem::swap(&mut cur_int, &mut self.line_intonations);
        let saved = Tab { lines: cur_lines, intonations: cur_int, cursor: self.cursor, folded: self.folded };
        let _placeholder = self.tabs.remove(a);
        self.tabs.insert(a, saved);
        self.tabs.push(Tab { lines: Vec::new(), intonations: Vec::new(), cursor: 0, folded: false });
        self.active_tab = self.tabs.len() - 1;
        let mut lines: Vec<String> = Vec::new();
        lines.push(String::new());
        let mut ints: Vec<Option<I>> = Vec::new();
        ints.push(None);
        self.lines = lines;
        self.line_intonations = ints;
        self.cursor = 0;
        self.folded = false;
        proof {
            let n = o.tabs@.len() as int;
            assert forall|i: int| 0 <= i < self.tabs@.len() && i != self.active_tab implies tab_ok(#[trigger] self.tabs@[i]) by {
                if i != a {
                    assert(self.tabs@[i] == o.tabs@[i]);
                }
            }
            assert forall|i: int| 0 <= i < n implies #[trigger] self.tab_lines(i) == o.tab_lines(i)
                && self.tab_intonations(i) == o.tab_intonations(i) && self.tab_folded(i) == o.tab_folded(i)
                && self.tab_cursor(i) == o.tab_cursor(i) by {
                if i != a {
                    assert(self.tabs@[i] == o.tabs@[i]);
                }
            }
            assert(self.tab_lines(n) =~= seq![Seq::<char>::empty()]);
            assert(self.doc_lines() =~= o.doc_lines().push(seq![Seq::<char>::empty()]));
            assert(self.tab_intonations(n) =~= seq![None::<I>]);
            assert(self.doc_intonations() =~= o.doc_intonations().push(seq![None::<I>]));
            assert(self.doc_cursors() =~= o.doc_cursors().push(0usize));
            assert(self.doc_folded() =~= o.doc_folded().push(false));
        }
    }

    /// `gt`: moves to the next tab (from the last to the first).
    pub fn tab_next(&mut self)
        requires
            old(self).wf(),
        ensures
            final(self).wf(),
            old(self).tab_stepped_into(*final(self), true),
    {
        let ghost o = *self;
        self.reset_pending_prefixes();
        if self.tabs.len() <= 1 {
            return;
        }
        let target = (self.active_tab + 1) % self.tabs.len();
        proof {
            lemma_next_index(self.active_tab as int, self.tabs@.len() as int);
        }
        let ghost mid = *self;
        self.switch_active(target);
        proof {
            lemma_same_tab_state(mid, o);
        }
    }

    /// `gT`: moves to the previous tab (from the first to the last).
    pub fn tab_prev(&mut self)
        requires
            old(self).wf(),
        ensures
            final(self).wf(),
            old(self).tab_stepped_into(*final(self), false),
    {
        let ghost o = *self;
        self.reset_pending_prefixes();
        if self.tabs.len() <= 1 {
            return;
        }
        let target = if self.active_tab == 0 {
            self.tabs.len() - 1
        } else {
            self.active_tab - 1
        };
        let ghost mid = *self;
        self.switch_active(target);
        proof {
            lemma_same_tab_state(mid, o);
        }
    }

    /// Moves to tab `index`; nothing happens for the active tab or an index
    /// past the last tab.
    pub fn switch_to_tab(&mut self, index: usize)
        requires
            old(self).wf(),
        ensures
            final(self).wf(),
            final(self).same_extras(old(self)),
            (index >= old(self).tabs@.len() || index == old(self).active_tab) ==> *final(self) == *old(self),
            (index < old(self).tabs@.len() && index != old(self).active_tab) ==> final(self).switched_from(old(self), index as int),
    {
        if index >= self.tabs.len() {
            return;
        }
        if index == self.active_tab {
            return;
        }
        self.switch_active(index);
    }
}

/// Moving to the next tab and back to the previous one returns to the same
/// tab with every tab's lines, intonation data, folding and cursor unchanged,
/// when every tab's cursor is on a shown line.
pub proof fn lemma_tab_next_then_prev<I: Clone>(e0: Editor<I>, e1: Editor<I>, e2: Editor<I>)
    requires
        e0.wf(),
        e0.tabs@.len() > 1,
        forall|i: int|
            0 <= i < e0.tabs@.len() ==> #[trigger] e0.tab_cursor(i) == normalized_cursor(
                e0.tab_lines(i),
                e0.tab_folded(i),
                e0.tab_cursor(i),
            ),
        e1.switched_from(&e0, (e0.active_tab + 1) % e0.tabs@.len() as int),
        e2.switched_from(&e1, if e1.active_tab == 0 {
            e1.tabs@.len() - 1
        } else {
            e1.active_tab - 1
        }),
    ensures
        e2.active_tab == e0.active_tab,
        e2.doc_lines() == e0.doc_lines(),
        e2.doc_intonations() == e0.doc_intonations(),
        e2.doc_folded() == e0.doc_folded(),
        e2.doc_cursors() == e0.doc_cursors(),
{
    let n = e0.tabs@.len() as int;
    let a = e0.active_tab as int;
    lemma_next_index(a, n);
    let b = (a + 1) % n;
    assert(e2.active_tab == a);
    assert(e1.doc_lines()[a] == e0.doc_lines()[a]);
    assert(e1.doc_folded()[a] == e0.doc_folded()[a]);
    assert(e1.tab_lines(a) == e0.tab_lines(a));
    assert(e1.tab_folded(a) == e0.tab_folded(a));
    assert(e1.tab_cursor(a) == e0.tab_cursor(a));
    assert(e0.tab_cursor(b) == normalized_cursor(e0.tab_lines(b), e0.tab_folded(b), e0.tab_cursor(b)));
    assert(e0.tab_cursor(a) == normalized_cursor(e0.tab_lines(a), e0.tab_folded(a), e0.tab_cursor(a)));
    assert forall|i: int| 0 <= i < n implies #[trigger] e2.tab_cursor(i) == e0.tab_cursor(i) by {
        if i != a && i != b {
            assert(e2.tab_cursor(i) == e1.tab_cursor(i));
        } else if i == b {
            assert(e2.tab_cursor(i) == e1.tab_cursor(i));
        }
    }
    assert(e2.doc_cursors() =~= e0.doc_cursors());
}

} // verus!
