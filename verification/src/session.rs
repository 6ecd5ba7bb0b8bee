//! Saving and restoring the editor's tabs: every tab's lines and intonation
//! data for the history files, the cursors and folding for the session file,
//! and how a loaded history and a saved session are put back.

use vstd::prelude::*;

use crate::editor::{normalized_cursor, opt_cloned, tab_ok, Editor, Mode, Tab};
use crate::history::{SessionState, TabSessionState};
use crate::lines::{compress_trailing_empty, spec_compress_trailing_empty};
use crate::tag::strings_view;

verus! {

/// A copy of the strings of `v`.
pub fn clone_lines(v: &Vec<String>) -> (r: Vec<String>)
    ensures
        strings_view(r@) == strings_view(v@),
{
    let mut r: Vec<String> = Vec::new();
    let mut i: usize = 0;
    while i < v.len()
        invariant
            i <= v@.len(),
            r@.len() == i,
            forall|k: int| 0 <= k < i ==> #[trigger] r@[k]@ == v@[k]@,
        decreases v.len() - i,
    {
        r.push(v[i].clone());
        i = i + 1;
    }
    assert(strings_view(r@) =~= strings_view(v@));
    r
}

/// `b` holds a clone of each entry of `a`.
pub open spec fn all_cloned<I: Clone>(a: Seq<Option<I>>, b: Seq<Option<I>>) -> bool {
    &&& a.len() == b.len()
    &&& forall|k: int| 0 <= k < a.len() ==> opt_cloned(#[trigger] a[k], b[k])
}

/// A clone of each intonation entry of `v`.
pub fn clone_intonations<I: Clone>(v: &Vec<Option<I>>) -> (r: Vec<Option<I>>)
    ensures
        all_cloned(v@, r@),
{
    let mut r: Vec<Option<I>> = Vec::new();
    let mut i: usize = 0;
    while i < v.len()
        invariant
            i <= v@.len(),
            r@.len() == i,
            forall|k: int| 0 <= k < i ==> opt_cloned(#[trigger] v@[k], r@[k]),
        decreases v.len() - i,
    {
        r.push(v[i].clone());
        i = i + 1;
    }
    r
}

/// `min(c, len - 1)`, and 0 for no lines.
pub open spec fn clamp_cursor(c: usize, len: nat) -> usize {
    if len == 0 {
        0
    } else if c < len {
        c
    } else {
        (len - 1) as usize
    }
}

/// Number of lines of tab `i`.
pub open spec fn tab_len<I>(e: Editor<I>, i: int) -> nat {
    e.tab_lines(i).len()
}

/// The cursor of tab `i` once the saved state is applied (before moving to
/// the saved active tab): the first saved entry goes to the active tab, the
/// others to the tabs of the same index.
pub open spec fn restored_cursor<I>(o: Editor<I>, state: SessionState, i: int) -> usize {
    if i == o.active_tab {
        if state.tabs@.len() > 0 {
            normalized_cursor(
                o.tab_lines(i),
                state.tabs@[0].folded,
                clamp_cursor(state.tabs@[0].cursor, tab_len(o, i)),
            )
        } else {
            o.tab_cursor(i)
        }
    } else if 1 <= i < state.tabs@.len() && i < o.tabs@.len() {
        clamp_cursor(state.tabs@[i].cursor, tab_len(o, i))
    } else {
        o.tab_cursor(i)
    }
}

/// The folding of tab `i` once the saved state is applied.
pub open spec fn restored_folded<I>(o: Editor<I>, state: SessionState, i: int) -> bool {
    if i == o.active_tab {
        if state.tabs@.len() > 0 {
            state.tabs@[0].folded
        } else {
            o.tab_folded(i)
        }
    } else if 1 <= i < state.tabs@.len() && i < o.tabs@.len() {
        state.tabs@[i].folded
    } else {
        o.tab_folded(i)
    }
}

/// The saved active tab, clamped to the tabs there are.
pub open spec fn restored_target<I>(o: Editor<I>, state: SessionState) -> int {
    if state.active_tab < o.tabs@.len() {
        state.active_tab as int
    } else {
        o.tabs@.len() - 1
    }
}

impl<I> Editor<I> {
    /// `self` is `o` with the saved `state` applied: the documents are
    /// unchanged, cursors and folding are the restored ones, and the saved
    /// active tab (when it is not tab 1) is made active, its cursor moved
    /// onto a shown line.
    pub open spec fn restored_from(&self, o: &Editor<I>, state: SessionState) -> bool {
        let t = restored_target(*o, state);
        let moves = t != 0 && t != o.active_tab;
        &&& self.tabs@.len() == o.tabs@.len()
        &&& self.doc_lines() == o.doc_lines()
        &&& self.doc_intonations() == o.doc_intonations()
        &&& forall|i: int| 0 <= i < o.tabs@.len() ==> #[trigger] self.tab_folded(i) == restored_folded(*o, state, i)
        &&& self.active_tab == (if moves {
            t
        } else {
            o.active_tab as int
        })
        &&& forall|i: int|
            0 <= i < o.tabs@.len() && !(moves && i == t) ==> #[trigger] self.tab_cursor(i) == restored_cursor(*o, state, i)
        &&& moves ==> self.cursor == normalized_cursor(
            o.tab_lines(t),
            restored_folded(*o, state, t),
            restored_cursor(*o, state, t),
        )
    }

    /// The saved cursors and folding of every tab, by tab index.
    pub open spec fn session_of(&self, s: SessionState) -> bool {
        &&& s.active_tab == self.active_tab
        &&& s.tabs@.len() == self.tabs@.len()
        &&& forall|i: int|
            0 <= i < self.tabs@.len() ==> #[trigger] s.tabs@[i] == (TabSessionState {
                cursor: self.tab_cursor(i),
                folded: self.tab_folded(i),
            })
    }
}

impl<I: Clone> Editor<I> {
    /// The lines of every tab, for saving.
    pub fn all_tab_lines(&self) -> (r: Vec<Vec<String>>)
        requires
            self.wf(),
        ensures
            r@.len() == self.tabs@.len(),
            forall|i: int| 0 <= i < r@.len() ==> strings_view(#[trigger] r@[i]@) == self.tab_lines(i),
    {
        let mut r: Vec<Vec<String>> = Vec::new();
        let mut i: usize = 0;
        while i < self.tabs.len()
            invariant
                i <= self.tabs@.len(),
                r@.len() == i,
                forall|k: int| 0 <= k < i ==> strings_view(#[trigger] r@[k]@) == self.tab_lines(k),
            decreases self.tabs.len() - i,
        {
            if i == self.active_tab {
                r.push(clone_lines(&self.lines));
            } else {
                r.push(clone_lines(&self.tabs[i].lines));
            }
            i = i + 1;
        }
        r
    }

    /// The intonation data of every tab (clones), for saving.
    pub fn all_tab_intonations(&self) -> (r: Vec<Vec<Option<I>>>)
        requires
            self.wf(),
        ensures
            r@.len() == self.tabs@.len(),
            forall|i: int| 0 <= i < r@.len() ==> all_cloned(self.tab_intonations(i), #[trigger] r@[i]@),
    {
        let mut r: Vec<Vec<Option<I>>> = Vec::new();
        let mut i: usize = 0;
        while i < self.tabs.len()
            invariant
                i <= self.tabs@.len(),
                r@.len() == i,
                forall|k: int| 0 <= k < i ==> all_cloned(self.tab_intonations(k), #[trigger] r@[k]@),
            decreases self.tabs.len() - i,
        {
            if i == self.active_tab {
                r.push(clone_intonations(&self.line_intonations));
            } else {
                r.push(clone_intonations(&self.tabs[i].intonations));
            }
            i = i + 1;
        }
        r
    }

    /// The active tab and every tab's cursor and folding.
    pub fn collect_session_state(&self) -> (s: SessionState)
        requires
            self.wf(),
        ensures
            self.session_of(s),
    {
        let mut tabs: Vec<TabSessionState> = Vec::new();
        let mut i: usize = 0;
        while i < self.tabs.len()
            invariant
                i <= self.tabs@.len(),
                tabs@.len() == i,
                forall|k: int|
                    0 <= k < i ==> #[trigger] tabs@[k] == (TabSessionState {
                        cursor: self.tab_cursor(k),
                        folded: self.tab_folded(k),
                    }),
            decreases self.tabs.len() - i,
        {
            if i == self.active_tab {
                tabs.push(TabSessionState { cursor: self.cursor, folded: self.folded });
            } else {
                tabs.push(TabSessionState { cursor: self.tabs[i].cursor, folded: self.tabs[i].folded });
            }
            i = i + 1;
        }
        SessionState { active_tab: self.active_tab, tabs }
    }

    /// Applies a saved session: the first entry to the active tab (cursor
    /// clamped to its lines and moved onto a shown line), the others to the
    /// other tabs by index (cursors clamped), then moves to the saved active
    /// tab (clamped) unless that is tab 1.
    pub fn restore_session_state(&mut self, state: &SessionState)
        requires
            old(self).wf(),
        ensures
            final(self).wf(),
            final(self).restored_from(old(self), *state),
            final(self).same_extras(old(self)),
    {
        let ghost o = *self;
        let num_tabs = self.tabs.len();
        if state.tabs.len() > 0 {
            let ts = state.tabs[0];
            let max_cursor = self.lines.len() - 1;
            self.cursor = if ts.cursor < max_cursor {
                ts.cursor
            } else {
                max_cursor
            };
            self.folded = ts.folded;
            self.normalize_cursor_for_fold();
        }
        let mut i: usize = 1;
        while i < state.tabs.len() && i < num_tabs
            invariant
                1 <= i,
                num_tabs == o.tabs@.len(),
                self.wf(),
                self.active_tab == o.active_tab,
                self.same_extras(&o),
                self.tabs@.len() == num_tabs,
                self.doc_lines() == o.doc_lines(),
                self.doc_intonations() == o.doc_intonations(),
                forall|k: int|
                    0 <= k < num_tabs ==> #[trigger] self.tab_cursor(k) == (if k == o.active_tab || (1 <= k < i
                        && k < state.tabs@.len()) {
                        restored_cursor(o, *state, k)
                    } else {
                        o.tab_cursor(k)
                    }),
                forall|k: int|
                    0 <= k < num_tabs ==> #[trigger] self.tab_folded(k) == (if k == o.active_tab || (1 <= k < i
                        && k < state.tabs@.len()) {
                        restored_folded(o, *state, k)
                    } else {
                        o.tab_folded(k)
                    }),
            decreases num_tabs - i,
        {
            let ts = state.tabs[i];
            let ghost before = *self;
            let mut slot = self.tabs.remove(i);
            let len = slot.lines.len();
            slot.cursor = if len == 0 {
                0
            } else if ts.cursor < len {
                ts.cursor
            } else {
                len - 1
            };
            slot.folded = ts.folded;
            let ghost new_slot = slot;
            self.tabs.insert(i, slot);
            proof {
                assert(self.tabs@[i as int] == new_slot);
                assert(new_slot.lines == before.tabs@[i as int].lines);
                assert(new_slot.cursor == clamp_cursor(state.tabs@[i as int].cursor, before.tabs@[i as int].lines@.len()));
                if i != self.active_tab {
                    assert(before.tab_lines(i as int) == strings_view(before.tabs@[i as int].lines@));
                    assert(before.doc_lines()[i as int] == before.tab_lines(i as int));
                    assert(o.doc_lines()[i as int] == o.tab_lines(i as int));
                    assert(tab_len(o, i as int) == before.tabs@[i as int].lines@.len());
                    assert(self.tab_cursor(i as int) == restored_cursor(o, *state, i as int));
                    assert(self.tab_folded(i as int) == restored_folded(o, *state, i as int));
                }
                assert forall|k: int| 0 <= k < num_tabs && k != i implies self.tabs@[k] == before.tabs@[k] by {}
                assert forall|k: int| 0 <= k < num_tabs && k != self.active_tab implies tab_ok(#[trigger] self.tabs@[k]) by {
                    if k != i {
                        assert(self.tabs@[k] == before.tabs@[k]);
                    }
                }
                assert forall|k: int| 0 <= k < num_tabs implies #[trigger] self.tab_lines(k) == before.tab_lines(k)
                    && self.tab_intonations(k) == before.tab_intonations(k) by {
                    if k != i && k != self.active_tab {
                        assert(self.tabs@[k] == before.tabs@[k]);
                    }
                }
                assert(self.doc_lines() =~= before.doc_lines());
                assert(self.doc_intonations() =~= before.doc_intonations());
                assert(before.doc_lines()[i as int] == o.doc_lines()[i as int]);
                assert forall|k: int| 0 <= k < num_tabs implies #[trigger] self.tab_cursor(k) == (if k == o.active_tab
                    || (1 <= k < i + 1 && k < state.tabs@.len()) {
                    restored_cursor(o, *state, k)
                } else {
                    o.tab_cursor(k)
                }) by {
                    if k != i || k == self.active_tab {
                        if k != self.active_tab {
                            assert(self.tabs@[k] == before.tabs@[k]);
                        }
                        assert(self.tab_cursor(k) == before.tab_cursor(k));
                    }
                }
                assert forall|k: int| 0 <= k < num_tabs implies #[trigger] self.tab_folded(k) == (if k == o.active_tab
                    || (1 <= k < i + 1 && k < state.tabs@.len()) {
                    restored_folded(o, *state, k)
                } else {
                    o.tab_folded(k)
                }) by {
                    if k != i || k == self.active_tab {
                        if k != self.active_tab {
                            assert(self.tabs@[k] == before.tabs@[k]);
                        }
                        assert(self.tab_folded(k) == before.tab_folded(k));
                    }
                }
            }
            i = i + 1;
        }
        let ghost mid = *self;
        let target = if state.active_tab < num_tabs {
            state.active_tab
        } else {
            num_tabs - 1
        };
        if target != 0 {
            self.switch_to_tab(target);
        }
        proof {
            assert forall|k: int| 0 <= k < num_tabs implies #[trigger] mid.tab_cursor(k) == restored_cursor(o, *state, k)
                && mid.tab_folded(k) == restored_folded(o, *state, k) by {
                assert(mid.tab_cursor(k) == restored_cursor(o, *state, k));
                assert(mid.tab_folded(k) == restored_folded(o, *state, k));
            }
            if target != 0 && target != o.active_tab {
                assert(mid.doc_lines()[target as int] == o.doc_lines()[target as int]);
                assert(mid.tab_lines(target as int) == o.tab_lines(target as int));
                assert(mid.doc_folded()[target as int] == mid.tab_folded(target as int));
                assert forall|k: int| 0 <= k < num_tabs implies #[trigger] self.tab_folded(k) == restored_folded(o, *state, k) by {
                    assert(self.doc_folded()[k] == mid.doc_folded()[k]);
                }
            }
        }
    }
}

/// The loaded tabs, with one tab of one empty line when nothing was loaded.
pub open spec fn loaded_tabs(al: Seq<Seq<Seq<char>>>) -> Seq<Seq<Seq<char>>> {
    if al.len() == 0 {
        seq![seq![Seq::<char>::empty()]]
    } else {
        al
    }
}

/// Intonation entry `j` of loaded tab `k`: none where nothing was loaded.
pub open spec fn loaded_intonation<I>(ai: Seq<Seq<Option<I>>>, k: int, j: int) -> Option<I> {
    if k < ai.len() && j < ai[k].len() {
        ai[k][j]
    } else {
        None
    }
}

impl<I> Editor<I> {
    /// `self` holds the loaded tabs, tab 1 active: each tab's lines with one
    /// blank line at the end, its intonation data fitted to them, its cursor
    /// on its last line, nothing folded.
    pub open spec fn loaded_from(&self, al: Seq<Seq<Seq<char>>>, ai: Seq<Seq<Option<I>>>) -> bool {
        let tabs = loaded_tabs(al);
        &&& self.active_tab == 0
        &&& self.tabs@.len() == tabs.len()
        &&& forall|k: int| 0 <= k < tabs.len() ==> #[trigger] self.tab_lines(k) == spec_compress_trailing_empty(tabs[k])
        &&& forall|k: int|
            0 <= k < tabs.len() ==> #[trigger] self.tab_intonations(k).len() == self.tab_lines(k).len()
        &&& forall|k: int, j: int|
            0 <= k < tabs.len() && 0 <= j < self.tab_lines(k).len() ==> #[trigger] self.tab_intonations(k)[j]
                == loaded_intonation(ai, k, j)
        &&& forall|k: int| 0 <= k < tabs.len() ==> #[trigger] self.tab_cursor(k) == self.tab_lines(k).len() - 1
        &&& forall|k: int| 0 <= k < tabs.len() ==> !#[trigger] self.tab_folded(k)
    }
}

pub open spec fn lines_views(v: Seq<Vec<String>>) -> Seq<Seq<Seq<char>>> {
    v.map_values(|x: Vec<String>| strings_view(x@))
}

pub open spec fn intonations_views<I>(v: Seq<Vec<Option<I>>>) -> Seq<Seq<Option<I>>> {
    v.map_values(|x: Vec<Option<I>>| x@)
}

impl<I: Clone> Editor<I> {
    /// Puts back the history loaded at start-up and then the saved session:
    /// the loaded tabs replace every tab (see `loaded_from`), the editor goes
    /// to Normal mode with no key prefix, count or command pending, and the
    /// session is restored on them.
    pub fn apply_loaded_history(
        &mut self,
        all_lines: Vec<Vec<String>>,
        all_intonations: Vec<Vec<Option<I>>>,
        session_state: &SessionState,
    )
        requires
            old(self).wf(),
        ensures
            final(self).wf(),
            exists|m: Editor<I>|
                #![trigger m.loaded_from(lines_views(all_lines@), intonations_views(all_intonations@))]
                m.wf() && m.loaded_from(lines_views(all_lines@), intonations_views(all_intonations@))
                    && final(self).restored_from(&m, *session_state),
            final(self).mode == Mode::Normal,
            final(self).no_pending(),
            final(self).command_buf@.len() == 0,
            final(self).help_key_buf@.len() == 0,
            final(self).yank_buf == old(self).yank_buf,
    {
        let ghost al = lines_views(all_lines@);
        let ghost ai = intonations_views(all_intonations@);
        let mut all_lines = all_lines;
        if all_lines.len() == 0 {
            let mut one: Vec<String> = Vec::new();
            one.push(String::new());
            assert(strings_view(one@) =~= seq![Seq::<char>::empty()]);
            all_lines.push(one);
            assert(lines_views(all_lines@)[0] == seq![Seq::<char>::empty()]);
            assert(lines_views(all_lines@) =~= loaded_tabs(al));
        } else {
            assert(lines_views(all_lines@) =~= loaded_tabs(al));
        }
        let ghost tabs_v = loaded_tabs(al);
        let mut all_intonations = all_intonations;
        let total = all_lines.len();
        let first = all_lines.remove(0);
        let first_lines = compress_trailing_empty(first);
        let ghost ai_before = all_intonations@;
        let first_int = if all_intonations.len() == 0 {
            None
        } else {
            Some(all_intonations.remove(0))
        };
        assert(ai.len() == 0 ==> first_int is None);
        assert(ai.len() > 0 ==> first_int is Some && first_int->0@ == ai[0]);
        assert(all_intonations@ == (if ai.len() > 0 {
            ai_before.subrange(1, ai_before.len() as int)
        } else {
            ai_before
        }));
        let first_ints = crate::history::normalize_loaded_intonations(first_lines.len(), first_int);
        self.lines = first_lines;
        self.line_intonations = first_ints;
        self.cursor = self.lines.len() - 1;
        self.folded = false;
        let mut tabs: Vec<Tab<I>> = Vec::new();
        tabs.push(Tab { lines: Vec::new(), intonations: Vec::new(), cursor: 0, folded: false });
        self.tabs = tabs;
        self.active_tab = 0;
        self.mode = Mode::Normal;
        self.reset_pending_prefixes();
        self.command_buf = String::new();
        self.help_key_buf = String::new();
        proof {
            assert(self.tab_lines(0) == spec_compress_trailing_empty(tabs_v[0]));
            assert forall|j: int| 0 <= j < self.tab_lines(0).len() implies #[trigger] self.tab_intonations(0)[j]
                == loaded_intonation(ai, 0, j) by {
                assert(self.tab_lines(0).len() == self.line_intonations@.len());
            }
            assert forall|m: int| 0 <= m < all_intonations@.len() implies #[trigger] all_intonations@[m]@ == ai[1 + m] by {}
        }
        let mut k: usize = 1;
        while all_lines.len() > 0
            invariant
                k + all_lines@.len() == total,
                total == tabs_v.len(),
                lines_views(all_lines@) == tabs_v.subrange(k as int, total as int),
                all_intonations@.len() == (if ai.len() > k {
                    ai.len() - k
                } else {
                    0
                }),
                forall|m: int| 0 <= m < all_intonations@.len() ==> #[trigger] all_intonations@[m]@ == ai[k + m],
                self.wf(),
                self.active_tab == 0,
                self.tabs@.len() == k,
                self.mode == Mode::Normal,
                self.no_pending(),
                self.command_buf@.len() == 0,
                self.help_key_buf@.len() == 0,
                self.yank_buf == old(self).yank_buf,
                forall|m: int| 0 <= m < k ==> #[trigger] self.tab_lines(m) == spec_compress_trailing_empty(tabs_v[m]),
                forall|m: int| 0 <= m < k ==> #[trigger] self.tab_intonations(m).len() == self.tab_lines(m).len(),
                forall|m: int, j: int|
                    0 <= m < k && 0 <= j < self.tab_lines(m).len() ==> #[trigger] self.tab_intonations(m)[j]
                        == loaded_intonation(ai, m, j),
                forall|m: int| 0 <= m < k ==> #[trigger] self.tab_cursor(m) == self.tab_lines(m).len() - 1,
                forall|m: int| 0 <= m < k ==> !#[trigger] self.tab_folded(m),
            decreases all_lines.len(),
        {
            let ghost al_before = all_lines@;
            let extra = all_lines.remove(0);
            proof {
                assert(lines_views(al_before)[0] == strings_view(extra@));
                assert(tabs_v.subrange(k as int, total as int)[0] == tabs_v[k as int]);
                assert(all_lines@ =~= al_before.subrange(1, al_before.len() as int));
                assert forall|j: int| 0 <= j < all_lines@.len() implies #[trigger] lines_views(all_lines@)[j]
                    == lines_views(al_before)[j + 1] by {}
                assert(lines_views(all_lines@) =~= tabs_v.subrange(k + 1, total as int));
            }
            let extra_lines = compress_trailing_empty(extra);
            let extra_int = if all_intonations.len() == 0 {
                None
            } else {
                Some(all_intonations.remove(0))
            };
            let extra_ints = crate::history::normalize_loaded_intonations(extra_lines.len(), extra_int);
            let cursor = extra_lines.len() - 1;
            let ghost before = *self;
            self.tabs.push(Tab { lines: extra_lines, intonations: extra_ints, cursor, folded: false });
            proof {
                assert forall|m: int| 0 <= m < self.tabs@.len() && m != self.active_tab implies tab_ok(#[trigger] self.tabs@[m]) by {
                    if m < k {
                        assert(self.tabs@[m] == before.tabs@[m]);
                    }
                }
                assert forall|m: int| 0 <= m < k implies #[trigger] self.tab_lines(m) == before.tab_lines(m)
                    && self.tab_intonations(m) == before.tab_intonations(m) && self.tab_cursor(m) == before.tab_cursor(m)
                    && self.tab_folded(m) == before.tab_folded(m) by {
                    if m != 0 {
                        assert(self.tabs@[m] == before.tabs@[m]);
                    }
                }
                assert(self.tab_lines(k as int) == spec_compress_trailing_empty(tabs_v[k as int]));
                assert(self.tab_intonations(k as int).len() == self.tab_lines(k as int).len());
                assert(self.tab_cursor(k as int) == self.tab_lines(k as int).len() - 1);
                assert(!self.tab_folded(k as int));
                assert forall|m: int| 0 <= m < k + 1 implies !#[trigger] self.tab_folded(m) by {
                    if m < k {
                        assert(!before.tab_folded(m));
                        if m != 0 {
                            assert(self.tabs@[m] == before.tabs@[m]);
                        }
                    }
                }
                assert forall|j: int| 0 <= j < self.tab_lines(k as int).len() implies #[trigger] self.tab_intonations(
                    k as int,
                )[j] == loaded_intonation(ai, k as int, j) by {}
                assert forall|m: int| 0 <= m < all_intonations@.len() implies #[trigger] all_intonations@[m]@ == ai[k + 1 + m] by {
                }
            }
            k = k + 1;
        }
        let ghost m = *self;
        self.restore_session_state(session_state);
        proof {
            assert(m.loaded_from(al, ai));
        }
    }
}

/// Every tab's cursor is on a shown line.
pub open spec fn cursors_on_shown<I>(e: Editor<I>) -> bool {
    forall|i: int|
        0 <= i < e.tabs@.len() ==> #[trigger] e.tab_cursor(i) == normalized_cursor(
            e.tab_lines(i),
            e.tab_folded(i),
            e.tab_cursor(i),
        )
}

/// A session saved from an editor and restored on the same tabs reloaded
/// (tab 1 active) gives back the active tab and every tab's cursor and
/// folding, when every cursor was on a shown line.
pub proof fn lemma_session_round_trip<I>(e: Editor<I>, s: SessionState, m: Editor<I>, f: Editor<I>)
    requires
        e.wf(),
        cursors_on_shown(e),
        e.session_of(s),
        m.wf(),
        m.active_tab == 0,
        m.tabs@.len() == e.tabs@.len(),
        m.doc_lines() == e.doc_lines(),
        f.restored_from(&m, s),
    ensures
        f.active_tab == e.active_tab,
        f.doc_lines() == e.doc_lines(),
        f.doc_cursors() == e.doc_cursors(),
        f.doc_folded() == e.doc_folded(),
{
    let n = e.tabs@.len() as int;
    let t = restored_target(m, s);
    assert(t == e.active_tab);
    assert forall|i: int| 0 <= i < n implies #[trigger] e.tab_cursor(i) < e.tab_lines(i).len() by {
        if i != e.active_tab {
            assert(tab_ok(e.tabs@[i]));
        }
    }
    assert forall|i: int| 0 <= i < n implies m.tab_lines(i) == e.tab_lines(i) by {
        assert(m.doc_lines()[i] == e.doc_lines()[i]);
    }
    assert forall|i: int| 0 <= i < n implies #[trigger] restored_cursor(m, s, i) == e.tab_cursor(i)
        && restored_folded(m, s, i) == e.tab_folded(i) by {
        assert(s.tabs@[i] == (TabSessionState { cursor: e.tab_cursor(i), folded: e.tab_folded(i) }));
        assert(m.tab_lines(i) == e.tab_lines(i));
        assert(e.tab_cursor(i) < e.tab_lines(i).len());
    }
    assert forall|i: int| 0 <= i < n implies #[trigger] f.tab_cursor(i) == e.tab_cursor(i) by {
        if t != 0 && i == t {
            assert(m.tab_lines(t) == e.tab_lines(t));
            assert(restored_cursor(m, s, t) == e.tab_cursor(t));
            assert(restored_folded(m, s, t) == e.tab_folded(t));
        } else {
            assert(f.tab_cursor(i) == restored_cursor(m, s, i));
        }
    }
    assert forall|i: int| 0 <= i < n implies #[trigger] f.tab_folded(i) == e.tab_folded(i) by {
        assert(f.tab_folded(i) == restored_folded(m, s, i));
    }
    assert(f.doc_cursors() =~= e.doc_cursors());
    assert(f.doc_folded() =~= e.doc_folded());
}

} // verus!
