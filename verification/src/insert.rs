//! Insert mode: which text the edit buffer starts with, how a committed edit
//! goes back into the lines, and the command line.

use vstd::prelude::*;

use crate::editor::{Editor, Mode};
use crate::lines::{compress_trailing_empty, spec_compress_trailing_empty};
use crate::speakers::{SpeakerTable, TableView};
use crate::tag::{
    ctx_to_prefix, expand_id_tags, spec_ctx_to_prefix, spec_expand_id_tags, spec_split_by_ctx_change,
    spec_tail_ctx, split_by_ctx_change, strings_view, tail_ctx,
};
use crate::text::{chars_of, is_blank, trim, trim_start};

verus! {

/// Leading tags carrying the voice at the end of `line` over to a new line.
pub open spec fn carried_prefix(t: TableView, line: Seq<char>) -> Seq<char> {
    spec_ctx_to_prefix(t, spec_tail_ctx(t, line))
}

/// The lines after the cursor line `c` is replaced by the pieces `split`.
pub open spec fn spliced_lines(old: Seq<Seq<char>>, c: int, split: Seq<Seq<char>>) -> Seq<Seq<char>> {
    old.subrange(0, c) + split + old.subrange(c + 1, old.len() as int)
}

/// The intonation data after the same replacement: the cursor line keeps its
/// data when `keep`, the extra pieces have none.
pub open spec fn spliced_intonations<I>(old: Seq<Option<I>>, c: int, keep: bool, extra: nat) -> Seq<Option<I>> {
    old.subrange(0, c) + seq![
        if keep {
            old[c]
        } else {
            None
        },
    ] + Seq::new(extra, |j: int| None::<I>) + old.subrange(c + 1, old.len() as int)
}

/// `v` cut or padded with `None` to `n` entries.
pub open spec fn resized<I>(v: Seq<Option<I>>, n: nat) -> Seq<Option<I>> {
    Seq::new(
        n,
        |j: int|
            if j < v.len() {
                v[j]
            } else {
                None
            },
    )
}

/// The pieces a committed edit buffer `raw` becomes: `[N]` tags expanded,
/// split where the voice changes.
pub open spec fn committed_pieces(t: TableView, raw: Seq<char>) -> Seq<Seq<char>> {
    spec_split_by_ctx_change(t, spec_expand_id_tags(t, raw))
}

proof fn lemma_split_nonempty(t: TableView, line: Seq<char>)
    ensures
        spec_split_by_ctx_change(t, line).len() >= 1,
{
}

impl<I> Editor<I> {
    /// `self` is `o` after the edit buffer `raw` was committed on the cursor
    /// line (see `commit_lines`).
    pub open spec fn committed_from(&self, o: &Editor<I>, t: TableView, raw: Seq<char>) -> bool {
        let c = o.cursor as int;
        let pieces = committed_pieces(t, raw);
        let keep = trim_start(o.lines_view()[c]) == trim_start(pieces[0]);
        let lines = spec_compress_trailing_empty(spliced_lines(o.lines_view(), c, pieces));
        &&& self.lines_view() == lines
        &&& self.line_intonations@ == resized(
            spliced_intonations(o.line_intonations@, c, keep, (pieces.len() - 1) as nat),
            lines.len(),
        )
        &&& self.cursor == (if o.cursor < lines.len() {
            o.cursor
        } else {
            (lines.len() - 1) as usize
        })
        &&& self.folded == o.folded
        &&& self.tabs == o.tabs
        &&& self.active_tab == o.active_tab
        &&& self.yank_buf == o.yank_buf
    }
}

/// A commit keeps the cursor line's intonation data exactly when the line's
/// text (leading spaces aside) is the same as that of the first committed
/// piece; when the texts differ at all, the data is dropped.
pub proof fn lemma_commit_keeps_intonation_only_for_same_text<I>(o: Editor<I>, n: Editor<I>, t: TableView, raw: Seq<char>)
    requires
        o.wf(),
        n.committed_from(&o, t, raw),
        o.cursor < n.line_intonations@.len(),
    ensures
        ({
            let c = o.cursor as int;
            let first = committed_pieces(t, raw)[0];
            &&& trim_start(o.lines_view()[c]) == trim_start(first) ==> n.line_intonations@[c] == o.line_intonations@[c]
            &&& trim_start(o.lines_view()[c]) != trim_start(first) ==> n.line_intonations@[c] is None
        }),
{
    let c = o.cursor as int;
    let pieces = committed_pieces(t, raw);
    lemma_split_nonempty(t, spec_expand_id_tags(t, raw));
    let keep = trim_start(o.lines_view()[c]) == trim_start(pieces[0]);
    let sp = spliced_intonations(o.line_intonations@, c, keep, (pieces.len() - 1) as nat);
    assert(sp[c] == (if keep {
        o.line_intonations@[c]
    } else {
        None
    }));
}

impl<I> Editor<I> {
    /// What `i` makes of `self`: `n`, with the edit buffer `text` (see
    /// `enter_insert_current`).
    pub open spec fn entered_current(&self, n: Editor<I>, t: TableView, text: Seq<char>) -> bool {
        &&& text == (if is_blank(self.lines_view()[self.cursor as int]) {
            if self.cursor > 0 {
                carried_prefix(t, self.lines_view()[self.cursor - 1])
            } else {
                Seq::<char>::empty()
            }
        } else {
            self.lines_view()[self.cursor as int]
        })
        &&& n.mode == Mode::Insert
        &&& n.status_msg@ == "-- INSERT --"@
        &&& n.no_pending()
        &&& n.lines == self.lines
        &&& n.line_intonations == self.line_intonations
        &&& n.cursor == self.cursor
        &&& n.folded == self.folded
        &&& n.tabs == self.tabs
        &&& n.active_tab == self.active_tab
    }

    /// What `o` (`below`) or `O` makes of `self`: `n`, editing a new line
    /// that holds `text`, the voice carried from the line above it (see
    /// `enter_insert_below` and `enter_insert_above`).
    pub open spec fn opened_into(&self, n: Editor<I>, t: TableView, below: bool, text: Seq<char>) -> bool {
        let at = if below {
            self.cursor + 1
        } else {
            self.cursor as int
        };
        &&& text == (if at > 0 {
            carried_prefix(t, self.lines_view()[at - 1])
        } else {
            Seq::<char>::empty()
        })
        &&& n.lines_view() == self.lines_view().insert(at, text)
        &&& n.line_intonations@ == self.line_intonations@.insert(at, None)
        &&& n.cursor == at
        &&& n.mode == Mode::Insert
        &&& n.status_msg@ == "-- INSERT --"@
        &&& n.no_pending()
        &&& n.folded == self.folded
        &&& n.tabs == self.tabs
        &&& n.active_tab == self.active_tab
        &&& n.yank_buf == self.yank_buf
    }
}

impl<I: Clone> Editor<I> {
    /// `i`: edits the cursor line; a blank line starts with the voice at the
    /// end of the line above. Answers the edit buffer's text.
    pub fn enter_insert_current(&mut self, t: &SpeakerTable) -> (text: String)
        requires
            old(self).wf(),
        ensures
            final(self).wf(),
            old(self).entered_current(*final(self), t@, text@),
    {
        self.reset_pending_prefixes();
        let current = self.lines[self.cursor].clone();
        let text = if crate::text::is_blank_str(current.as_str()) {
            if self.cursor > 0 {
                let ctx = tail_ctx(t, self.lines[self.cursor - 1].as_str());
                ctx_to_prefix(t, &ctx)
            } else {
                String::new()
            }
        } else {
            current
        };
        self.mode = Mode::Insert;
        self.status_msg = "-- INSERT --".to_owned();
        text
    }

    /// `o`: opens a line below the cursor with the voice at the end of the
    /// cursor line, and edits it. Answers the edit buffer's text.
    pub fn enter_insert_below(&mut self, t: &SpeakerTable) -> (text: String)
        requires
            old(self).wf(),
            old(self).lines@.len() < usize::MAX,
        ensures
            final(self).wf(),
            old(self).opened_into(*final(self), t@, true, text@),
    {
        self.reset_pending_prefixes();
        let ctx = tail_ctx(t, self.lines[self.cursor].as_str());
        let prefix = ctx_to_prefix(t, &ctx);
        let at = self.cursor + 1;
        let ghost before = self.lines_view();
        self.lines.insert(at, prefix.clone());
        self.line_intonations.insert(at, None);
        assert(self.lines_view() =~= before.insert(at as int, prefix@));
        self.cursor = at;
        self.mode = Mode::Insert;
        self.status_msg = "-- INSERT --".to_owned();
        prefix
    }

    /// `O`: opens a line above the cursor with the voice at the end of the
    /// line above, and edits it. Answers the edit buffer's text.
    pub fn enter_insert_above(&mut self, t: &SpeakerTable) -> (text: String)
        requires
            old(self).wf(),
        ensures
            final(self).wf(),
            old(self).opened_into(*final(self), t@, false, text@),
    {
        self.reset_pending_prefixes();
        let prefix = if self.cursor > 0 {
            let ctx = tail_ctx(t, self.lines[self.cursor - 1].as_str());
            ctx_to_prefix(t, &ctx)
        } else {
            String::new()
        };
        let at = self.cursor;
        let ghost before = self.lines_view();
        self.lines.insert(at, prefix.clone());
        self.line_intonations.insert(at, None);
        assert(self.lines_view() =~= before.insert(at as int, prefix@));
        self.mode = Mode::Insert;
        self.status_msg = "-- INSERT --".to_owned();
        prefix
    }

    /// Writes the edit buffer `raw` back on the cursor line: `[N]` tags are
    /// expanded, the line is split where its voice changes, the pieces
    /// replace the cursor line, and the lines end with exactly one blank line.
    /// The cursor line keeps its intonation data only when its text is
    /// unchanged but for leading spaces (folding marks); the other pieces
    /// have none. The cursor stays, clamped to the lines.
    pub fn commit_lines(&mut self, t: &SpeakerTable, raw: &str)
        requires
            old(self).wf(),
        ensures
            final(self).wf(),
            final(self).committed_from(old(self), t@, raw@),
            final(self).mode == old(self).mode,
            final(self).status_msg == old(self).status_msg,
    {
        let ghost o = *self;
        let text = expand_id_tags(t, raw);
        let pieces = split_by_ctx_change(t, text.as_str());
        let ghost pv = strings_view(pieces@);
        proof {
            lemma_split_nonempty(t@, text@);
        }
        let c = self.cursor;
        let old_trim = crate::text::trimmed_start(self.lines[c].as_str());
        let new_trim = crate::text::trimmed_start(pieces[0].as_str());
        let keep = old_trim == new_trim;
        if !keep {
            self.line_intonations[c] = None;
        }
        self.lines[c] = pieces[0].clone();
        let ghost iv0 = self.line_intonations@;
        let mut k: usize = 1;
        proof {
            assert(pv[0] == pieces@[0]@);
            assert(self.lines_view() =~= spliced_lines(o.lines_view(), c as int, pv.subrange(0, 1)));
            assert(self.line_intonations@ =~= spliced_intonations(o.line_intonations@, c as int, keep, 0));
        }
        while k < pieces.len()
            invariant
                1 <= k <= pieces@.len(),
                pv == strings_view(pieces@),
                c == o.cursor,
                c < o.lines@.len(),
                self.lines_view() == spliced_lines(o.lines_view(), c as int, pv.subrange(0, k as int)),
                self.line_intonations@ == spliced_intonations(o.line_intonations@, c as int, keep, (k - 1) as nat),
                o.line_intonations@.len() == o.lines@.len(),
                self.lines@.len() == o.lines@.len() + k - 1,
                self.line_intonations@.len() == self.lines@.len(),
                self.cursor == o.cursor,
                self.folded == o.folded,
                self.tabs == o.tabs,
                self.active_tab == o.active_tab,
                self.yank_buf == o.yank_buf,
                self.mode == o.mode,
                self.status_msg == o.status_msg,
            decreases pieces.len() - k,
        {
            let ghost bl = self.lines_view();
            let ghost bi = self.line_intonations@;
            assert(c + k <= self.lines.len());
            self.lines.insert(c + k, pieces[k].clone());
            self.line_intonations.insert(c + k, None);
            proof {
                assert(self.lines_view() =~= bl.insert(c + k, pv[k as int]));
                assert(self.lines_view() =~= spliced_lines(o.lines_view(), c as int, pv.subrange(0, k + 1)));
                assert(self.line_intonations@ =~= spliced_intonations(o.line_intonations@, c as int, keep, k as nat));
            }
            k = k + 1;
        }
        assert(pv.subrange(0, k as int) =~= pv);
        let mut taken: Vec<String> = Vec::new();
        std::mem::swap(&mut taken, &mut self.lines);
        self.lines = compress_trailing_empty(taken);
        let n = self.lines.len();
        let ghost spl = self.line_intonations@;
        let ghost final_lines = self.lines_view();
        if self.line_intonations.len() > n {
            self.line_intonations.truncate(n);
        }
        while self.line_intonations.len() < n
            invariant
                self.line_intonations@.len() <= n,
                self.line_intonations@.len() < n ==> self.line_intonations@.len() >= spl.len(),
                forall|j: int| 0 <= j < self.line_intonations@.len() ==> #[trigger] self.line_intonations@[j]
                    == resized(spl, n as nat)[j],
                n == self.lines@.len(),
                n >= 1,
                self.lines_view() == final_lines,
                self.cursor == o.cursor,
                self.folded == o.folded,
                self.tabs == o.tabs,
                self.active_tab == o.active_tab,
                self.yank_buf == o.yank_buf,
                self.mode == o.mode,
                self.status_msg == o.status_msg,
            decreases n - self.line_intonations.len(),
        {
            self.line_intonations.push(None);
        }
        assert(self.line_intonations@ =~= resized(spl, n as nat));
        if self.cursor >= n {
            self.cursor = n - 1;
        }
    }

    /// Enter in Insert mode: commits the edit buffer and goes back to Normal.
    pub fn commit_insert(&mut self, t: &SpeakerTable, raw: &str)
        requires
            old(self).wf(),
        ensures
            final(self).wf(),
            final(self).committed_from(old(self), t@, raw@),
            final(self).mode == Mode::Normal,
            final(self).status_msg@ == "ready"@,
    {
        self.status_msg = "ready".to_owned();
        self.commit_lines(t, raw);
        self.mode = Mode::Normal;
    }

    /// Commits the edit buffer and opens a new line below, as `o` does.
    /// Answers the new edit buffer's text.
    pub fn commit_and_insert_below(&mut self, t: &SpeakerTable, raw: &str) -> (text: String)
        requires
            old(self).wf(),
            old(self).lines@.len() + committed_pieces(t@, raw@).len() < usize::MAX,
        ensures
            final(self).wf(),
            exists|m: Editor<I>|
                #![trigger m.committed_from(old(self), t@, raw@)]
                m.wf() && m.committed_from(old(self), t@, raw@) && m.opened_into(*final(self), t@, true, text@),
    {
        self.commit_lines(t, raw);
        let ghost m = *self;
        proof {
            let c = old(self).cursor as int;
            let pieces = committed_pieces(t@, raw@);
            let sp = spliced_lines(old(self).lines_view(), c, pieces);
            assert(sp.len() == old(self).lines@.len() + pieces.len() - 1);
            crate::lines::lemma_compress_len(sp);
        }
        self.enter_insert_below(t)
    }

    /// The text prefetched while the edit buffer holds `raw`: `[N]` tags
    /// expanded, leading spaces left out; none for blank text.
    pub fn on_edit_buf_changed(t: &SpeakerTable, raw: &str) -> (r: Option<String>)
        ensures
            ({
                let text = trim_start(spec_expand_id_tags(t@, raw@));
                if is_blank(text) {
                    r is None
                } else {
                    r is Some && r->0@ == text
                }
            }),
    {
        let e = expand_id_tags(t, raw);
        let text = crate::text::trimmed_start(e.as_str());
        if crate::text::is_blank_str(text.as_str()) {
            None
        } else {
            Some(text)
        }
    }

    /// Runs the command line: `tabnew` opens a tab; anything else is
    /// reported as unknown.
    pub fn execute_command(&mut self)
        requires
            old(self).wf(),
        ensures
            final(self).wf(),
            trim(old(self).command_buf@) == "tabnew"@ ==> {
                &&& final(self).tabs@.len() == old(self).tabs@.len() + 1
                &&& final(self).active_tab == old(self).tabs@.len()
                &&& final(self).doc_lines() == old(self).doc_lines().push(seq![Seq::<char>::empty()])
            },
            trim(old(self).command_buf@) != "tabnew"@ ==> {
                &&& final(self).status_msg@ == "Unknown command: "@ + trim(old(self).command_buf@)
                &&& final(self).lines == old(self).lines
                &&& final(self).tabs == old(self).tabs
                &&& final(self).cursor == old(self).cursor
                &&& final(self).active_tab == old(self).active_tab
            },
    {
        let cmd = crate::text::trimmed(self.command_buf.as_str());
        let cc = chars_of(cmd.as_str());
        let tn = chars_of("tabnew");
        if crate::text::chars_eq(cc.as_slice(), tn.as_slice()) {
            self.tabnew();
        } else {
            let mut m = "Unknown command: ".to_owned();
            crate::text::push_str(&mut m, cmd.as_str());
            self.status_msg = m;
        }
    }

    /// The status line: while a fetch runs, `[fetching...]` in Insert mode
    /// and elsewhere the spinner frame for `elapsed_ms` before the message.
    pub fn status_display(&self, is_fetching: bool, elapsed_ms: u128) -> (s: String)
        ensures
            !is_fetching ==> s@ == self.status_msg@,
            is_fetching && self.mode == Mode::Insert ==> s@ == "[fetching...]"@,
            is_fetching && self.mode != Mode::Insert ==> s@ == crate::cli::spec_frame(elapsed_ms) + " "@
                + self.status_msg@,
    {
        if is_fetching && self.mode == Mode::Insert {
            "[fetching...]".to_owned()
        } else if is_fetching {
            let f = crate::cli::frame_at(elapsed_ms);
            crate::cli::decorate_with_frame(self.status_msg.as_str(), f)
        } else {
            self.status_msg.clone()
        }
    }
}

} // verus!
