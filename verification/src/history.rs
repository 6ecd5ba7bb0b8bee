//! Session bookkeeping and the names of the history files: tab 1 is
//! `history.txt`, tab 2 `history2.txt`, tab 3 `history3.txt`, …

use vstd::prelude::*;

use crate::text::{chars_of, decimal, decimal_string, has_prefix, parse_usize, parse_usize_chars};

verus! {

/// Cursor line and folding of one tab.
#[derive(Debug, Clone, Copy, PartialEq, Eq, Structural)]
pub struct TabSessionState {
    pub cursor: usize,
    pub folded: bool,
}

/// What is saved and restored at start, exit and autosave.
#[derive(Debug)]
pub struct SessionState {
    /// Index of the active tab (from 0).
    pub active_tab: usize,
    /// Cursor and folding of each tab, by tab index.
    pub tabs: Vec<TabSessionState>,
}

impl Default for TabSessionState {
    fn default() -> (s: Self)
        ensures
            s.cursor == 0,
            !s.folded,
    {
        TabSessionState { cursor: 0, folded: false }
    }
}

impl Default for SessionState {
    fn default() -> (s: Self)
        ensures
            s.active_tab == 0,
            s.tabs@.len() == 0,
    {
        SessionState { active_tab: 0, tabs: Vec::new() }
    }
}

impl SessionState {
    /// A copy with the same fields.
    pub fn copy(&self) -> (r: SessionState)
        ensures
            r.active_tab == self.active_tab,
            r.tabs@ == self.tabs@,
    {
        let mut tabs: Vec<TabSessionState> = Vec::new();
        let mut i: usize = 0;
        while i < self.tabs.len()
            invariant
                i <= self.tabs@.len(),
                tabs@ == self.tabs@.take(i as int),
            decreases self.tabs.len() - i,
        {
            tabs.push(self.tabs[i]);
            i = i + 1;
            assert(tabs@ =~= self.tabs@.take(i as int));
        }
        assert(self.tabs@.take(i as int) =~= self.tabs@);
        SessionState { active_tab: self.active_tab, tabs }
    }
}

/// File name of the history of tab `tab_index`.
pub open spec fn spec_history_file_name(tab_index: usize) -> Seq<char> {
    if tab_index == 0 {
        "history.txt"@
    } else {
        "history"@ + decimal((tab_index + 1) as nat) + ".txt"@
    }
}

/// `N` of a file named `history{N}.txt`, as `str::parse::<usize>` reads it.
pub open spec fn history_number(name: Seq<char>) -> Option<usize> {
    let p = "history"@;
    let x = ".txt"@;
    if has_prefix(name, p) && name.len() >= p.len() + x.len() && name.subrange(
        name.len() - x.len(),
        name.len() as int,
    ) == x {
        parse_usize(name.subrange(p.len() as int, name.len() - x.len()))
    } else {
        None
    }
}

/// A history file left over from a tab that no longer exists:
/// `history{N}.txt` with `N >= 2` whose tab index `N - 1` is not below
/// `current_tabs`. `history.txt` always stays.
pub open spec fn spec_is_stale_history_file(name: Seq<char>, current_tabs: usize) -> bool {
    name != "history.txt"@ && match history_number(name) {
        Some(n) => n >= 2 && n - 1 >= current_tabs,
        None => false,
    }
}

/// The history file name of tab `tab_index`.
pub fn history_file_name(tab_index: usize) -> (s: String)
    requires
        tab_index < usize::MAX,
    ensures
        s@ == spec_history_file_name(tab_index),
{
    if tab_index == 0 {
        return "history.txt".to_owned();
    }
    let n = (tab_index + 1) as u64;
    let mut s = "history".to_owned();
    let d = decimal_string(n);
    crate::text::push_str(&mut s, d.as_str());
    crate::text::push_str(&mut s, ".txt");
    s
}

/// Whether the file `file_name` of the history directory belongs to no
/// current tab and is to be removed after saving `current_tabs` tabs.
pub fn is_stale_history_file(file_name: &str, current_tabs: usize) -> (b: bool)
    ensures
        b == spec_is_stale_history_file(file_name@, current_tabs),
{
    let name = file_name.to_owned();
    let keep = "history.txt".to_owned();
    if name == keep {
        return false;
    }
    let c = chars_of(file_name);
    let p = chars_of("history");
    let x = chars_of(".txt");
    let n = c.len();
    if n < p.len() || n - p.len() < x.len() {
        return false;
    }
    let mut i: usize = 0;
    while i < p.len()
        invariant
            i <= p@.len(),
            p@ == "history"@,
            x@ == ".txt"@,
            c@ == file_name@,
            p@.len() + x@.len() <= n,
            n == c@.len(),
            forall|k: int| 0 <= k < i ==> c@[k] == p@[k],
        decreases p.len() - i,
    {
        if c[i] != p[i] {
            assert(c@.subrange(0, p@.len() as int)[i as int] != p@[i as int]);
            return false;
        }
        i = i + 1;
    }
    assert(c@.subrange(0, p@.len() as int) =~= p@);
    let tail = n - x.len();
    let mut j: usize = 0;
    while j < x.len()
        invariant
            j <= x@.len(),
            tail == n - x@.len(),
            p@ == "history"@,
            x@ == ".txt"@,
            c@ == file_name@,
            c@.subrange(0, p@.len() as int) == p@,
            p@.len() + x@.len() <= n,
            n == c@.len(),
            forall|k: int| 0 <= k < j ==> c@[tail + k] == x@[k],
        decreases x.len() - j,
    {
        if c[tail + j] != x[j] {
            assert(c@.subrange(tail as int, n as int)[j as int] != x@[j as int]);
            return false;
        }
        j = j + 1;
    }
    assert(c@.subrange(tail as int, n as int) =~= x@);
    let mid = crate::text::sub_chars(c.as_slice(), p.len(), tail);
    match parse_usize_chars(mid.as_slice()) {
        Some(num) => num >= 2 && num - 1 >= current_tabs,
        None => false,
    }
}

/// The loaded intonation data of a tab fitted to its `line_len` lines:
/// missing entries are `None`, surplus entries are dropped.
pub fn normalize_loaded_intonations<T>(line_len: usize, loaded: Option<Vec<Option<T>>>) -> (r: Vec<Option<T>>)
    ensures
        r@.len() == line_len,
        forall|i: int|
            0 <= i < line_len ==> #[trigger] r@[i] == match loaded {
                Some(v) => if i < v@.len() {
                    v@[i]
                } else {
                    None
                },
                None => None,
            },
{
    let mut r: Vec<Option<T>> = Vec::new();
    match loaded {
        Some(v) => {
            let ghost v0 = v@;
            let mut v = v;
            let mut i: usize = 0;
            let keep = if v.len() < line_len {
                v.len()
            } else {
                line_len
            };
            v.truncate(keep);
            assert(v@ == v0.take(keep as int));
            while i < line_len
                invariant
                    i <= line_len,
                    r@.len() == i,
                    keep == (if v0.len() < line_len {
                        v0.len()
                    } else {
                        line_len as nat
                    }),
                    forall|k: int| 0 <= k < i ==> #[trigger] r@[k] == if k < v0.len() {
                        v0[k]
                    } else {
                        None
                    },
                    i <= keep ==> v@ == v0.subrange(i as int, keep as int),
                    i > keep ==> v@.len() == 0,
                decreases line_len - i,
            {
                if i < keep {
                    let ghost before = v@;
                    let x = v.remove(0);
                    assert(x == v0[i as int]);
                    assert(v@ =~= v0.subrange(i + 1, keep as int));
                    r.push(x);
                    assert(r@[i as int] == v0[i as int]);
                } else {
                    assert(v@.len() == 0);
                    r.push(None);
                }
                i = i + 1;
            }
        },
        None => {
            let mut i: usize = 0;
            while i < line_len
                invariant
                    i <= line_len,
                    r@.len() == i,
                    forall|k: int| 0 <= k < i ==> #[trigger] r@[k] == None::<T>,
                decreases line_len - i,
            {
                r.push(None);
                i = i + 1;
            }
        },
    }
    r
}

/// Position of the last tab character.
pub open spec fn last_tab(s: Seq<char>) -> Option<int>
    decreases s.len(),
{
    if s.len() == 0 {
        None
    } else if s.last() == '\t' {
        Some(s.len() - 1)
    } else {
        last_tab(s.drop_last())
    }
}

/// Where a saved line keeps its pitches: after its last tab, a text that
/// begins with `{"pitches":`. Answers the line's text and that suffix.
pub open spec fn spec_pitches_suffix(raw: Seq<char>) -> Option<(Seq<char>, Seq<char>)> {
    match last_tab(raw) {
        Some(t) => {
            let suffix = raw.subrange(t + 1, raw.len() as int);
            if has_prefix(suffix, "{\"pitches\":"@) {
                Some((raw.subrange(0, t), suffix))
            } else {
                None
            }
        },
        None => None,
    }
}

/// Splits a saved line into its text and its pitches suffix, when it has one
/// (see `spec_pitches_suffix`); the suffix is JSON for the caller to decode.
pub fn split_pitches_suffix_text(raw_line: &str) -> (r: Option<(String, String)>)
    ensures
        match r {
            Some((text, suffix)) => spec_pitches_suffix(raw_line@) == Some((text@, suffix@)),
            None => spec_pitches_suffix(raw_line@) is None,
        },
{
    let c = chars_of(raw_line);
    let n = c.len();
    let mut j: usize = n;
    assert(c@.subrange(0, n as int) =~= c@);
    while j > 0 && c[j - 1] != '\t'
        invariant
            j <= n,
            n == c@.len(),
            last_tab(c@) == last_tab(c@.subrange(0, j as int)),
        decreases j,
    {
        assert(c@.subrange(0, j as int).drop_last() =~= c@.subrange(0, j - 1));
        j = j - 1;
    }
    if j == 0 {
        assert(c@.subrange(0, 0) =~= Seq::<char>::empty());
        return None;
    }
    assert(c@.subrange(0, j as int).last() == c@[j - 1]);
    let suffix = crate::text::sub_chars(c.as_slice(), j, n);
    let p = chars_of("{\"pitches\":");
    if suffix.len() < p.len() {
        return None;
    }
    let head = crate::text::sub_chars(suffix.as_slice(), 0, p.len());
    if !crate::text::chars_eq(head.as_slice(), p.as_slice()) {
        return None;
    }
    let text = crate::text::sub_chars(c.as_slice(), 0, j - 1);
    Some((crate::text::string_from_chars(text.as_slice()), crate::text::string_from_chars(suffix.as_slice())))
}

/// One tab read from its history file, each line with its decoded
/// intonation data: an empty file gives one empty line.
pub fn tab_from_loaded<I>(raw: Vec<(String, Option<I>)>) -> (r: (Vec<String>, Vec<Option<I>>))
    ensures
        raw@.len() == 0 ==> r.0@.len() == 1 && r.0@[0]@ == Seq::<char>::empty() && r.1@.len() == 1 && r.1@[0] is None,
        raw@.len() > 0 ==> {
            &&& r.0@.len() == raw@.len()
            &&& r.1@.len() == raw@.len()
            &&& forall|i: int| 0 <= i < raw@.len() ==> #[trigger] r.0@[i] == raw@[i].0 && r.1@[i] == raw@[i].1
        },
{
    let mut lines: Vec<String> = Vec::new();
    let mut intonations: Vec<Option<I>> = Vec::new();
    if raw.len() == 0 {
        lines.push(String::new());
        intonations.push(None);
        return (lines, intonations);
    }
    let ghost r0 = raw@;
    let mut raw = raw;
    let mut k: usize = 0;
    let n = raw.len();
    while raw.len() > 0
        invariant
            k + raw@.len() == n,
            n == r0.len(),
            raw@ == r0.subrange(k as int, n as int),
            lines@.len() == k,
            intonations@.len() == k,
            forall|i: int| 0 <= i < k ==> #[trigger] lines@[i] == r0[i].0 && intonations@[i] == r0[i].1,
        decreases raw.len(),
    {
        let (t, x) = raw.remove(0);
        assert(raw@ =~= r0.subrange(k + 1, n as int));
        lines.push(t);
        intonations.push(x);
        k = k + 1;
    }
    (lines, intonations)
}

/// One step of reading the tabs at start-up: a tab that was read is added
/// and reading goes on; the first missing history file ends it.
pub fn take_loaded_tab<T>(tabs: &mut Vec<T>, loaded: Option<T>) -> (more: bool)
    ensures
        match loaded {
            Some(x) => more && final(tabs)@ == old(tabs)@.push(x),
            None => !more && final(tabs)@ == old(tabs)@,
        },
{
    match loaded {
        Some(x) => {
            tabs.push(x);
            true
        },
        None => false,
    }
}

/// Every tab read at start-up, in order (tab 1 from `history.txt`, and so on
/// while the next file exists): with no history at all, one tab with one
/// empty line.
pub fn load_all<I>(tabs: Vec<(Vec<String>, Vec<Option<I>>)>) -> (r: (Vec<Vec<String>>, Vec<Vec<Option<I>>>))
    ensures
        tabs@.len() == 0 ==> r.0@.len() == 1 && r.0@[0]@.len() == 1 && r.0@[0]@[0]@ == Seq::<char>::empty()
            && r.1@.len() == 1 && r.1@[0]@.len() == 1 && r.1@[0]@[0] is None,
        tabs@.len() > 0 ==> {
            &&& r.0@.len() == tabs@.len()
            &&& r.1@.len() == tabs@.len()
            &&& forall|i: int| 0 <= i < tabs@.len() ==> #[trigger] r.0@[i] == tabs@[i].0 && r.1@[i] == tabs@[i].1
        },
{
    let mut all_lines: Vec<Vec<String>> = Vec::new();
    let mut all_intonations: Vec<Vec<Option<I>>> = Vec::new();
    if tabs.len() == 0 {
        let mut l: Vec<String> = Vec::new();
        l.push(String::new());
        let mut x: Vec<Option<I>> = Vec::new();
        x.push(None);
        all_lines.push(l);
        all_intonations.push(x);
        return (all_lines, all_intonations);
    }
    let ghost r0 = tabs@;
    let mut tabs = tabs;
    let n = tabs.len();
    let mut k: usize = 0;
    while tabs.len() > 0
        invariant
            k + tabs@.len() == n,
            n == r0.len(),
            tabs@ == r0.subrange(k as int, n as int),
            all_lines@.len() == k,
            all_intonations@.len() == k,
            forall|i: int| 0 <= i < k ==> #[trigger] all_lines@[i] == r0[i].0 && all_intonations@[i] == r0[i].1,
        decreases tabs.len(),
    {
        let (t, x) = tabs.remove(0);
        assert(tabs@ =~= r0.subrange(k + 1, n as int));
        all_lines.push(t);
        all_intonations.push(x);
        k = k + 1;
    }
    (all_lines, all_intonations)
}

proof fn lemma_last_tab_past_tabless_suffix(s: Seq<char>, suf: Seq<char>)
    requires
        !suf.contains('\t'),
    ensures
        last_tab(s + suf) == last_tab(s),
    decreases suf.len(),
{
    if suf.len() == 0 {
        assert(s + suf =~= s);
    } else {
        let whole = s + suf;
        assert(whole.drop_last() =~= s + suf.drop_last());
        assert(whole.last() == suf.last());
        assert(suf.last() == suf[suf.len() - 1]);
        assert forall|i: int| 0 <= i < suf.drop_last().len() implies suf.drop_last()[i] != '\t' by {
            assert(suf.drop_last()[i] == suf[i]);
        }
        lemma_last_tab_past_tabless_suffix(s, suf.drop_last());
    }
}

/// Writing a line with its pitches and reading it back: a line written as
/// its text, a tab and a pitches suffix (which holds no tab, as compact JSON
/// does not) splits back into that same text and suffix, whatever tabs the
/// text holds.
pub proof fn lemma_pitches_suffix_round_trip(text: Seq<char>, suffix: Seq<char>)
    requires
        has_prefix(suffix, "{\"pitches\":"@),
        !suffix.contains('\t'),
    ensures
        spec_pitches_suffix(text + seq!['\t'] + suffix) == Some((text, suffix)),
{
    let head = text + seq!['\t'];
    let whole = head + suffix;
    lemma_last_tab_past_tabless_suffix(head, suffix);
    assert(head.last() == '\t');
    assert(last_tab(head) == Some(text.len() as int));
    assert(whole.subrange(text.len() + 1int, whole.len() as int) =~= suffix);
    assert(whole.subrange(0, text.len() as int) =~= text);
    assert(text + seq!['\t'] + suffix == whole);
}

/// A saved line: its text, a tab and its pitches suffix.
pub fn join_pitches_suffix(text: &str, suffix: &str) -> (r: String)
    ensures
        r@ == text@ + seq!['\t'] + suffix@,
{
    let mut r = text.to_owned();
    crate::text::push_char(&mut r, '\t');
    crate::text::push_str(&mut r, suffix);
    r
}

proof fn lemma_history_number_of_name(i: usize)
    requires
        0 < i < usize::MAX,
    ensures
        history_number(spec_history_file_name(i)) == Some((i + 1) as usize),
        spec_history_file_name(i) != "history.txt"@,
{
    reveal_strlit("history");
    reveal_strlit(".txt");
    reveal_strlit("history.txt");
    let n = (i + 1) as nat;
    let d = crate::text::decimal(n);
    crate::text::lemma_decimal_digits(n);
    crate::text::lemma_parse_decimal(n);
    let name = "history"@ + d + ".txt"@;
    assert(name.len() == 11 + d.len());
    assert(name.subrange(0, 7) =~= "history"@);
    assert(name.subrange(name.len() - 4, name.len() as int) =~= ".txt"@);
    assert(name.subrange(7, name.len() - 4) =~= d);
    assert(name.len() != "history.txt"@.len());
}

/// Saving removes a history file only when its tab is gone: the file of tab
/// `i` counts as left over after `current_tabs` tabs were saved exactly when
/// `i` is not the first tab and is not below `current_tabs`.
pub proof fn lemma_stale_file_iff_tab_gone(i: usize, current_tabs: usize)
    requires
        i < usize::MAX,
    ensures
        spec_is_stale_history_file(spec_history_file_name(i), current_tabs) == (i > 0 && i >= current_tabs),
{
    if i > 0 {
        lemma_history_number_of_name(i);
    }
}

/// Each tab has a history file of its own: two tabs never share a file name.
pub proof fn lemma_history_file_names_distinct(i: usize, j: usize)
    requires
        i < usize::MAX,
        j < usize::MAX,
        i != j,
    ensures
        spec_history_file_name(i) != spec_history_file_name(j),
{
    if i > 0 {
        lemma_history_number_of_name(i);
    }
    if j > 0 {
        lemma_history_number_of_name(j);
    }
}
} // verus!
