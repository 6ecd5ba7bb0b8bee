//! The intonation editor's decisions: whether the cursor line can be edited
//! and how, what each key does to the selected mora and the typed number, which
//! mora a click on the pitch graph hits, and how the edited data is saved.
//! The pitches themselves are floating-point values that the caller keeps; this
//! module decides which of them change and when.

use vstd::prelude::*;

use crate::editor::{Editor, Mode};
use crate::keys::KeyCode;
use crate::speakers::SpeakerTable;
use crate::tag::{parse_line, spec_parse_line};
use crate::text::{chars_of, decimal, decimal_string, is_blank, is_blank_str, push_str, string_from_chars, sub_chars};

verus! {

/// How the intonation editor opens on the cursor line.
pub enum IntonationEntry {
    /// Nothing to edit: the line is blank, has no text or mixes voices.
    Stay,
    /// The line has intonation data already; edit that.
    UseSaved,
    /// Fetch an audio query for this text and voice first.
    FetchQuery { text: String, speaker_id: u32 },
}

pub open spec fn multi_voice_message() -> Seq<char> {
    "[intonation] 複数の話者/スタイルが含まれる行はイントネーション編集できません"@
}

pub open spec fn fetching_query_message() -> Seq<char> {
    "[audio_query 取得中...]"@
}

pub open spec fn no_mora_message() -> Seq<char> {
    "[intonation] モーラが取得できなかった"@
}

pub open spec fn editing_message() -> Seq<char> {
    "-- INTONATION --"@
}

/// The typed number, the selected mora and how many moras there are.
pub struct IntonationSession {
    /// The selected mora.
    pub cursor: usize,
    /// Digits (and one dot) typed for a pitch value; empty when no number is
    /// being typed.
    pub num_buf: String,
    /// How many moras the line has.
    pub mora_count: usize,
}

/// What a key means in the intonation editor, given whether a number is
/// being typed and whether it has a dot.
#[derive(Debug, Clone, Copy, PartialEq, Eq, Structural)]
pub enum IntonationKey {
    ClearNumber,
    ConfirmNumber,
    Confirm,
    PopNumber,
    PlayNow,
    ResetToInitial,
    Digit(char),
    Dot,
    MoveLeft,
    MoveRight,
    PitchUpCurrent,
    PitchDownCurrent,
    /// Raise the pitch of the mora with this index (`a` is the first).
    PitchUp(usize),
    /// Lower the pitch of the mora with this index (`A` is the first).
    PitchDown(usize),
    Ignore,
}

/// The meaning of a key (see `IntonationKey`).
pub open spec fn spec_intonation_key(num_active: bool, has_dot: bool, code: KeyCode) -> IntonationKey {
    match code {
        KeyCode::Esc => if num_active {
            IntonationKey::ClearNumber
        } else {
            IntonationKey::Confirm
        },
        KeyCode::Enter => if num_active {
            IntonationKey::ConfirmNumber
        } else {
            IntonationKey::Confirm
        },
        KeyCode::Backspace => if num_active {
            IntonationKey::PopNumber
        } else {
            IntonationKey::Ignore
        },
        KeyCode::Left => if num_active {
            IntonationKey::Ignore
        } else {
            IntonationKey::MoveLeft
        },
        KeyCode::Right => if num_active {
            IntonationKey::Ignore
        } else {
            IntonationKey::MoveRight
        },
        KeyCode::Up => if num_active {
            IntonationKey::Ignore
        } else {
            IntonationKey::PitchUpCurrent
        },
        KeyCode::Down => if num_active {
            IntonationKey::Ignore
        } else {
            IntonationKey::PitchDownCurrent
        },
        KeyCode::Char(c) => if c == ' ' {
            IntonationKey::PlayNow
        } else if c == 'i' && !num_active {
            IntonationKey::ResetToInitial
        } else if '0' <= c && c <= '9' {
            IntonationKey::Digit(c)
        } else if c == '.' && !has_dot {
            IntonationKey::Dot
        } else if num_active {
            IntonationKey::Ignore
        } else if c == 'h' {
            IntonationKey::MoveLeft
        } else if c == 'l' {
            IntonationKey::MoveRight
        } else if c == 'k' {
            IntonationKey::PitchUpCurrent
        } else if c == 'j' {
            IntonationKey::PitchDownCurrent
        } else if 'a' <= c && c <= 'z' {
            IntonationKey::PitchUp((c as u32 - 'a' as u32) as usize)
        } else if 'A' <= c && c <= 'Z' {
            IntonationKey::PitchDown((c as u32 - 'A' as u32) as usize)
        } else {
            IntonationKey::Ignore
        },
        KeyCode::Other => IntonationKey::Ignore,
    }
}

/// With no number typed, the vim keys and the arrow keys mean the same in
/// the intonation editor: `k` and Up raise the selected mora, `j` and Down
/// lower it, `h` and Left select the mora before, `l` and Right the one
/// after.
pub proof fn lemma_intonation_vim_keys_match_arrows(has_dot: bool)
    ensures
        spec_intonation_key(false, has_dot, KeyCode::Char('k')) == IntonationKey::PitchUpCurrent,
        spec_intonation_key(false, has_dot, KeyCode::Up) == IntonationKey::PitchUpCurrent,
        spec_intonation_key(false, has_dot, KeyCode::Char('j')) == IntonationKey::PitchDownCurrent,
        spec_intonation_key(false, has_dot, KeyCode::Down) == IntonationKey::PitchDownCurrent,
        spec_intonation_key(false, has_dot, KeyCode::Char('h')) == IntonationKey::MoveLeft,
        spec_intonation_key(false, has_dot, KeyCode::Left) == IntonationKey::MoveLeft,
        spec_intonation_key(false, has_dot, KeyCode::Char('l')) == IntonationKey::MoveRight,
        spec_intonation_key(false, has_dot, KeyCode::Right) == IntonationKey::MoveRight,
{
}

/// The meaning of a key in the intonation editor.
pub fn intonation_key(num_active: bool, has_dot: bool, code: KeyCode) -> (k: IntonationKey)
    ensures
        k == spec_intonation_key(num_active, has_dot, code),
{
    match code {
        KeyCode::Esc => if num_active {
            IntonationKey::ClearNumber
        } else {
            IntonationKey::Confirm
        },
        KeyCode::Enter => if num_active {
            IntonationKey::ConfirmNumber
        } else {
            IntonationKey::Confirm
        },
        KeyCode::Backspace => if num_active {
            IntonationKey::PopNumber
        } else {
            IntonationKey::Ignore
        },
        KeyCode::Left => if num_active {
            IntonationKey::Ignore
        } else {
            IntonationKey::MoveLeft
        },
        KeyCode::Right => if num_active {
            IntonationKey::Ignore
        } else {
            IntonationKey::MoveRight
        },
        KeyCode::Up => if num_active {
            IntonationKey::Ignore
        } else {
            IntonationKey::PitchUpCurrent
        },
        KeyCode::Down => if num_active {
            IntonationKey::Ignore
        } else {
            IntonationKey::PitchDownCurrent
        },
        KeyCode::Char(c) => if c == ' ' {
            IntonationKey::PlayNow
        } else if c == 'i' && !num_active {
            IntonationKey::ResetToInitial
        } else if '0' <= c && c <= '9' {
            IntonationKey::Digit(c)
        } else if c == '.' && !has_dot {
            IntonationKey::Dot
        } else if num_active {
            IntonationKey::Ignore
        } else if c == 'h' {
            IntonationKey::MoveLeft
        } else if c == 'l' {
            IntonationKey::MoveRight
        } else if c == 'k' {
            IntonationKey::PitchUpCurrent
        } else if c == 'j' {
            IntonationKey::PitchDownCurrent
        } else if 'a' <= c && c <= 'z' {
            IntonationKey::PitchUp((c as u32 - 'a' as u32) as usize)
        } else if 'A' <= c && c <= 'Z' {
            IntonationKey::PitchDown((c as u32 - 'A' as u32) as usize)
        } else {
            IntonationKey::Ignore
        },
        KeyCode::Other => IntonationKey::Ignore,
    }
}

/// What the caller does after a key in the intonation editor.
pub enum IntonationAction {
    Nothing,
    /// Save the edited data and go back to Normal mode.
    Confirm,
    /// Read this typed number as the selected mora's pitch and play.
    ConfirmNumber { text: String, mora: usize },
    /// Play the line with the current pitches.
    PlayNow,
    /// Put back the pitches the line had when the editor opened.
    ResetToInitial,
    /// Raise (`up`) or lower the pitch of this mora by one step.
    AdjustPitch { mora: usize, up: bool },
}

fn contains_char(v: &[char], c: char) -> (b: bool)
    ensures
        b == v@.contains(c),
{
    let mut i: usize = 0;
    while i < v.len()
        invariant
            i <= v@.len(),
            forall|k: int| 0 <= k < i ==> v@[k] != c,
        decreases v.len() - i,
    {
        if v[i] == c {
            assert(v@[i as int] == c);
            return true;
        }
        i = i + 1;
    }
    false
}

/// The selected mora after a move by one to the left (`left`) or right,
/// kept on the moras there are.
pub open spec fn spec_step_cursor(cursor: usize, mora_count: usize, left: bool) -> usize {
    if left {
        if cursor > 0 {
            (cursor - 1) as usize
        } else {
            cursor
        }
    } else if cursor + 1 < mora_count {
        (cursor + 1) as usize
    } else {
        cursor
    }
}

impl IntonationSession {
    /// A session on a line with `mora_count` moras: the first mora selected,
    /// no number typed.
    pub fn new(mora_count: usize) -> (s: IntonationSession)
        ensures
            s.cursor == 0,
            s.num_buf@.len() == 0,
            s.mora_count == mora_count,
    {
        IntonationSession { cursor: 0, num_buf: String::new(), mora_count }
    }

    /// Applies a key: the typed number and the selected mora change as the
    /// key's meaning says, and the answer tells the caller what else to do.
    pub fn on_key(&mut self, code: KeyCode) -> (a: IntonationAction)
        ensures
            final(self).mora_count == old(self).mora_count,
            old(self).cursor < old(self).mora_count ==> final(self).cursor < final(self).mora_count,
            match spec_intonation_key(old(self).num_buf@.len() > 0, old(self).num_buf@.contains('.'), code) {
                IntonationKey::ClearNumber => a is Nothing && final(self).num_buf@.len() == 0
                    && final(self).cursor == old(self).cursor,
                IntonationKey::ConfirmNumber => (a matches IntonationAction::ConfirmNumber { text, mora }
                    && text@ == old(self).num_buf@ && mora == old(self).cursor) && final(self).num_buf@.len() == 0
                    && final(self).cursor == old(self).cursor,
                IntonationKey::Confirm => a is Confirm && final(self).num_buf@ == old(self).num_buf@
                    && final(self).cursor == old(self).cursor,
                IntonationKey::PopNumber => a is Nothing && final(self).num_buf@ == old(self).num_buf@.drop_last()
                    && final(self).cursor == old(self).cursor,
                IntonationKey::PlayNow => a is PlayNow && final(self).num_buf@ == old(self).num_buf@
                    && final(self).cursor == old(self).cursor,
                IntonationKey::ResetToInitial => a is ResetToInitial && final(self).num_buf@ == old(self).num_buf@
                    && final(self).cursor == old(self).cursor,
                IntonationKey::Digit(c) => a is Nothing && final(self).num_buf@ == old(self).num_buf@.push(c)
                    && final(self).cursor == old(self).cursor,
                IntonationKey::Dot => a is Nothing && final(self).num_buf@ == (if old(self).num_buf@.len() == 0 {
                    "0."@
                } else {
                    old(self).num_buf@.push('.')
                }) && final(self).cursor == old(self).cursor,
                IntonationKey::MoveLeft => a is Nothing && final(self).num_buf@ == old(self).num_buf@
                    && final(self).cursor == spec_step_cursor(old(self).cursor, old(self).mora_count, true),
                IntonationKey::MoveRight => a is Nothing && final(self).num_buf@ == old(self).num_buf@
                    && final(self).cursor == spec_step_cursor(old(self).cursor, old(self).mora_count, false),
                IntonationKey::PitchUpCurrent => final(self).num_buf@ == old(self).num_buf@ && final(self).cursor
                    == old(self).cursor && if old(self).cursor < old(self).mora_count {
                    a matches IntonationAction::AdjustPitch { mora, up } && mora == old(self).cursor && up
                } else {
                    a is Nothing
                },
                IntonationKey::PitchDownCurrent => final(self).num_buf@ == old(self).num_buf@ && final(self).cursor
                    == old(self).cursor && if old(self).cursor < old(self).mora_count {
                    a matches IntonationAction::AdjustPitch { mora, up } && mora == old(self).cursor && !up
                } else {
                    a is Nothing
                },
                IntonationKey::PitchUp(i) => final(self).num_buf@ == old(self).num_buf@ && if i
                    < old(self).mora_count {
                    final(self).cursor == i && (a matches IntonationAction::AdjustPitch { mora, up } && mora == i
                        && up)
                } else {
                    final(self).cursor == old(self).cursor && a is Nothing
                },
                IntonationKey::PitchDown(i) => final(self).num_buf@ == old(self).num_buf@ && if i
                    < old(self).mora_count {
                    final(self).cursor == i && (a matches IntonationAction::AdjustPitch { mora, up } && mora == i
                        && !up)
                } else {
                    final(self).cursor == old(self).cursor && a is Nothing
                },
                IntonationKey::Ignore => a is Nothing && final(self).num_buf@ == old(self).num_buf@
                    && final(self).cursor == old(self).cursor,
            },
    {
        let buf = chars_of(self.num_buf.as_str());
        let num_active = buf.len() > 0;
        let has_dot = contains_char(buf.as_slice(), '.');
        let k = intonation_key(num_active, has_dot, code);
        match k {
            IntonationKey::ClearNumber => {
                self.num_buf = String::new();
                IntonationAction::Nothing
            },
            IntonationKey::ConfirmNumber => {
                let text = self.num_buf.clone();
                self.num_buf = String::new();
                IntonationAction::ConfirmNumber { text, mora: self.cursor }
            },
            IntonationKey::Confirm => IntonationAction::Confirm,
            IntonationKey::PopNumber => {
                let kept = sub_chars(buf.as_slice(), 0, buf.len() - 1);
                self.num_buf = string_from_chars(kept.as_slice());
                IntonationAction::Nothing
            },
            IntonationKey::PlayNow => IntonationAction::PlayNow,
            IntonationKey::ResetToInitial => IntonationAction::ResetToInitial,
            IntonationKey::Digit(c) => {
                crate::text::push_char(&mut self.num_buf, c);
                IntonationAction::Nothing
            },
            IntonationKey::Dot => {
                if num_active {
                    crate::text::push_char(&mut self.num_buf, '.');
                } else {
                    self.num_buf = "0.".to_owned();
                }
                IntonationAction::Nothing
            },
            IntonationKey::MoveLeft => {
                if self.cursor > 0 {
                    self.cursor = self.cursor - 1;
                }
                IntonationAction::Nothing
            },
            IntonationKey::MoveRight => {
                if self.cursor < usize::MAX && self.cursor + 1 < self.mora_count {
                    self.cursor = self.cursor + 1;
                }
                IntonationAction::Nothing
            },
            IntonationKey::PitchUpCurrent => {
                if self.cursor < self.mora_count {
                    IntonationAction::AdjustPitch { mora: self.cursor, up: true }
                } else {
                    IntonationAction::Nothing
                }
            },
            IntonationKey::PitchDownCurrent => {
                if self.cursor < self.mora_count {
                    IntonationAction::AdjustPitch { mora: self.cursor, up: false }
                } else {
                    IntonationAction::Nothing
                }
            },
            IntonationKey::PitchUp(i) => {
                if i < self.mora_count {
                    self.cursor = i;
                    IntonationAction::AdjustPitch { mora: i, up: true }
                } else {
                    IntonationAction::Nothing
                }
            },
            IntonationKey::PitchDown(i) => {
                if i < self.mora_count {
                    self.cursor = i;
                    IntonationAction::AdjustPitch { mora: i, up: false }
                } else {
                    IntonationAction::Nothing
                }
            },
            IntonationKey::Ignore => IntonationAction::Nothing,
        }
    }
}

/// The first pitch-graph column at or after `i` whose span `[x, x + w)`
/// holds `col`.
pub open spec fn column_from(col: u16, xs: Seq<u16>, ws: Seq<u16>, i: int) -> Option<int>
    decreases xs.len() - i,
{
    if i < 0 || i >= xs.len() || i >= ws.len() {
        None
    } else if xs[i] <= col && col < xs[i] + ws[i] {
        Some(i)
    } else {
        column_from(col, xs, ws, i + 1)
    }
}

proof fn lemma_column_from_bounds(col: u16, xs: Seq<u16>, ws: Seq<u16>, i: int)
    ensures
        column_from(col, xs, ws, i) matches Some(k) ==> i <= k < xs.len() && k < ws.len(),
    decreases xs.len() - i,
{
    if !(i < 0 || i >= xs.len() || i >= ws.len()) && !(xs[i] <= col && col < xs[i] + ws[i]) {
        lemma_column_from_bounds(col, xs, ws, i + 1);
    }
}

/// Where a click on the pitch graph lands: the mora of the column it hits
/// and the row below the graph's top, when it hits a mora inside the graph.
pub open spec fn spec_click_target(
    col: u16,
    row: u16,
    graph_x: u16,
    graph_y: u16,
    graph_h: u16,
    xs: Seq<u16>,
    ws: Seq<u16>,
    mora_count: usize,
) -> Option<(usize, u16)> {
    if graph_h == 0 || row < graph_y || row >= graph_y + graph_h || col < graph_x {
        None
    } else {
        match column_from(col, xs, ws, 0) {
            Some(i) => if i < mora_count {
                Some((i as usize, (row - graph_y) as u16))
            } else {
                None
            },
            None => None,
        }
    }
}

/// Finds the mora and graph row a click hits (see `spec_click_target`);
/// `col_x` and `col_w` give each mora column's left edge and width.
pub fn click_target(
    col: u16,
    row: u16,
    graph_x: u16,
    graph_y: u16,
    graph_h: u16,
    col_x: &[u16],
    col_w: &[u16],
    mora_count: usize,
) -> (r: Option<(usize, u16)>)
    ensures
        r == spec_click_target(col, row, graph_x, graph_y, graph_h, col_x@, col_w@, mora_count),
{
    if graph_h == 0 || row < graph_y || row as u32 >= graph_y as u32 + graph_h as u32 || col < graph_x {
        return None;
    }
    let mut i: usize = 0;
    while i < col_x.len() && i < col_w.len()
        invariant
            column_from(col, col_x@, col_w@, 0) == column_from(col, col_x@, col_w@, i as int),
            graph_h != 0,
            graph_y <= row < graph_y + graph_h,
            graph_x <= col,
        decreases col_x.len() - i,
    {
        if col_x[i] <= col && (col as u32) < col_x[i] as u32 + col_w[i] as u32 {
            if i < mora_count {
                return Some((i, row - graph_y));
            } else {
                return None;
            }
        }
        i = i + 1;
    }
    None
}

impl IntonationSession {
    /// A click on the pitch graph: when it hits a mora, that mora is
    /// selected, the typed number is dropped, and the mora and the row below
    /// the graph's top are answered for the caller to set the pitch from.
    pub fn on_click(
        &mut self,
        col: u16,
        row: u16,
        graph_x: u16,
        graph_y: u16,
        graph_h: u16,
        col_x: &[u16],
        col_w: &[u16],
    ) -> (r: Option<(usize, u16)>)
        ensures
            r == spec_click_target(col, row, graph_x, graph_y, graph_h, col_x@, col_w@, old(self).mora_count),
            final(self).mora_count == old(self).mora_count,
            old(self).cursor < old(self).mora_count ==> final(self).cursor < final(self).mora_count,
            match r {
                Some(hit) => final(self).cursor == hit.0 && final(self).num_buf@.len() == 0,
                None => final(self).cursor == old(self).cursor && final(self).num_buf@ == old(self).num_buf@,
            },
    {
        let r = click_target(col, row, graph_x, graph_y, graph_h, col_x, col_w, self.mora_count);
        proof {
            lemma_column_from_bounds(col, col_x@, col_w@, 0);
        }
        match r {
            Some(hit) => {
                self.cursor = hit.0;
                self.num_buf = String::new();
            },
            None => {},
        }
        r
    }
}

impl<I: Clone> Editor<I> {
    /// `v`: decides how the intonation editor opens on the cursor line (see
    /// `IntonationEntry`); key prefixes are dropped either way.
    pub fn begin_intonation_mode(&mut self, t: &SpeakerTable) -> (r: IntonationEntry)
        requires
            old(self).wf(),
        ensures
            final(self).no_pending(),
            final(self).lines == old(self).lines,
            final(self).line_intonations == old(self).line_intonations,
            final(self).cursor == old(self).cursor,
            final(self).folded == old(self).folded,
            final(self).tabs == old(self).tabs,
            final(self).active_tab == old(self).active_tab,
            final(self).yank_buf == old(self).yank_buf,
            final(self).mode == old(self).mode,
            ({
                let line = old(self).lines@[old(self).cursor as int]@;
                let segs = spec_parse_line(t@, line);
                if is_blank(line) || segs.len() == 0 {
                    r is Stay && final(self).status_msg == old(self).status_msg
                } else if segs.len() > 1 {
                    r is Stay && final(self).status_msg@ == multi_voice_message()
                } else if old(self).line_intonations@[old(self).cursor as int] is Some {
                    r is UseSaved && final(self).status_msg == old(self).status_msg
                } else {
                    (r matches IntonationEntry::FetchQuery { text, speaker_id } && text@ == segs[0].0
                        && speaker_id == segs[0].1.speaker_id) && final(self).status_msg@
                        == fetching_query_message()
                }
            }),
    {
        self.reset_pending_prefixes();
        let idx = self.cursor;
        if is_blank_str(self.lines[idx].as_str()) {
            return IntonationEntry::Stay;
        }
        let segments = parse_line(t, self.lines[idx].as_str());
        if segments.len() == 0 {
            return IntonationEntry::Stay;
        }
        if segments.len() != 1 {
            self.status_msg = "[intonation] 複数の話者/スタイルが含まれる行はイントネーション編集できません".to_owned();
            return IntonationEntry::Stay;
        }
        if self.line_intonations[idx].is_some() {
            return IntonationEntry::UseSaved;
        }
        self.status_msg = "[audio_query 取得中...]".to_owned();
        IntonationEntry::FetchQuery { text: segments[0].0.clone(), speaker_id: segments[0].1.speaker_id }
    }

    /// Opens the editor on a line with `mora_count` moras.
    pub fn start_intonation_editing(&mut self, mora_count: usize) -> (s: IntonationSession)
        ensures
            final(self).mode == Mode::Intonation,
            final(self).status_msg@ == editing_message(),
            s.cursor == 0,
            s.num_buf@.len() == 0,
            s.mora_count == mora_count,
            final(self).lines == old(self).lines,
            final(self).line_intonations == old(self).line_intonations,
            final(self).cursor == old(self).cursor,
            final(self).folded == old(self).folded,
            final(self).tabs == old(self).tabs,
            final(self).active_tab == old(self).active_tab,
            final(self).yank_buf == old(self).yank_buf,
            final(self).count_buf == old(self).count_buf,
    {
        self.mode = Mode::Intonation;
        self.status_msg = "-- INTONATION --".to_owned();
        IntonationSession::new(mora_count)
    }

    /// The audio query for the cursor line came back with `Ok` and its mora
    /// count, or failed with `Err` and the reason: the editor opens when there
    /// are moras, and the status says why it does not otherwise.
    pub fn finish_query_fetch(&mut self, fetched: Result<usize, String>) -> (s: Option<IntonationSession>)
        ensures
            final(self).lines == old(self).lines,
            final(self).line_intonations == old(self).line_intonations,
            final(self).cursor == old(self).cursor,
            final(self).folded == old(self).folded,
            final(self).tabs == old(self).tabs,
            final(self).active_tab == old(self).active_tab,
            final(self).yank_buf == old(self).yank_buf,
            match fetched {
                Err(e) => s is None && final(self).mode == old(self).mode && final(self).status_msg@
                    == "[audio_query error] "@ + e@,
                Ok(n) => if n == 0 {
                    s is None && final(self).mode == old(self).mode && final(self).status_msg@ == no_mora_message()
                } else {
                    (s matches Some(sess) && sess.cursor == 0 && sess.num_buf@.len() == 0 && sess.mora_count == n)
                        && final(self).mode == Mode::Intonation && final(self).status_msg@ == editing_message()
                },
            },
    {
        match fetched {
            Err(e) => {
                let mut m = "[audio_query error] ".to_owned();
                push_str(&mut m, e.as_str());
                self.status_msg = m;
                None
            },
            Ok(n) => {
                if n == 0 {
                    self.status_msg = "[intonation] モーラが取得できなかった".to_owned();
                    None
                } else {
                    Some(self.start_intonation_editing(n))
                }
            },
        }
    }

    /// Enter or Esc with no number typed: keeps `data` as the cursor line's
    /// intonation and goes back to Normal mode; the caller then plays the line.
    pub fn save_intonation(&mut self, data: I)
        requires
            old(self).wf(),
            old(self).cursor < usize::MAX,
        ensures
            final(self).wf(),
            final(self).line_intonations@ == old(self).line_intonations@.update(old(self).cursor as int, Some(data)),
            final(self).mode == Mode::Normal,
            final(self).status_msg@ == "[♬ intonation saved] line "@ + decimal((old(self).cursor + 1) as nat),
            final(self).lines == old(self).lines,
            final(self).cursor == old(self).cursor,
            final(self).folded == old(self).folded,
            final(self).tabs == old(self).tabs,
            final(self).active_tab == old(self).active_tab,
            final(self).yank_buf == old(self).yank_buf,
    {
        let idx = self.cursor;
        self.line_intonations.set(idx, Some(data));
        self.mode = Mode::Normal;
        let mut m = "[♬ intonation saved] line ".to_owned();
        let d = decimal_string(idx as u64 + 1);
        push_str(&mut m, d.as_str());
        self.status_msg = m;
    }
}

} // verus!
