//! What a key does in each mode: the command it stands for (given the key
//! prefixes typed before it), how the editor state changes, and what is left
//! for the caller to do (play a line, restart prefetch, read the clipboard,
//! quit).

use vstd::prelude::*;

use crate::chooser::SpeakerStyleFocus;
use crate::editor::{Editor, Mode};
use crate::help::{spec_append, spec_help_keys, HelpAction};
use crate::mascot::PsdAvailability;
use crate::speakers::{SpeakerTable, TableView};
use crate::tag::strings_view;
use crate::text::chars_of;

verus! {

/// The key of a key event.
#[derive(Debug, Clone, Copy, PartialEq, Eq, Structural)]
pub enum KeyCode {
    Char(char),
    Enter,
    Esc,
    Backspace,
    Up,
    Down,
    Left,
    Right,
    Other,
}

/// A key event: its key, its modifiers and whether it is a press.
#[derive(Debug, Clone, Copy, PartialEq, Eq, Structural)]
pub struct KeyInput {
    pub code: KeyCode,
    pub ctrl: bool,
    pub shift: bool,
    /// Alt or another modifier than Ctrl and Shift.
    pub other_modifier: bool,
    /// A press (not a release or repeat).
    pub press: bool,
}

/// What a key stands for in Normal mode.
#[derive(Debug, Clone, Copy, PartialEq, Eq, Structural)]
pub enum NormalCommand {
    Quit,
    MoveDown,
    MoveUp,
    EditCurrent,
    InsertBelow,
    InsertAbove,
    PlayCurrent,
    PasteBelowClipboard,
    PasteAboveClipboard,
    PasteBelow,
    PasteAbove,
    PendingQuote,
    PendingClipboard,
    PendingZ,
    Fold,
    Unfold,
    DeleteLine,
    PendingD,
    PendingG,
    TabNext,
    TabPrev,
    TabNew,
    SpeakerStyleMode,
    IntonationMode,
    HelpMode,
    CommandMode,
    EscHint,
    CountDigit(char),
    Reset,
}

pub open spec fn is_ascii_digit(c: char) -> bool {
    '0' <= c && c <= '9'
}

/// The Normal-mode command of `code` after the prefixes `d`, `z`, `g`,
/// `"` and `"+`.
pub open spec fn spec_normal_command(
    code: KeyCode,
    pending_d: bool,
    pending_z: bool,
    pending_g: bool,
    pending_quote: bool,
    pending_clipboard: bool,
) -> NormalCommand {
    match code {
        KeyCode::Char(c) => if c == 'q' {
            NormalCommand::Quit
        } else if c == 'j' {
            NormalCommand::MoveDown
        } else if c == 'k' {
            NormalCommand::MoveUp
        } else if c == 'i' {
            NormalCommand::EditCurrent
        } else if c == 'o' {
            NormalCommand::InsertBelow
        } else if c == 'O' {
            NormalCommand::InsertAbove
        } else if c == ' ' {
            NormalCommand::PlayCurrent
        } else if c == 'p' {
            if pending_clipboard {
                NormalCommand::PasteBelowClipboard
            } else {
                NormalCommand::PasteBelow
            }
        } else if c == 'P' {
            if pending_clipboard {
                NormalCommand::PasteAboveClipboard
            } else {
                NormalCommand::PasteAbove
            }
        } else if c == '"' {
            NormalCommand::PendingQuote
        } else if c == '+' && pending_quote {
            NormalCommand::PendingClipboard
        } else if c == 'z' {
            NormalCommand::PendingZ
        } else if c == 'm' && pending_z {
            NormalCommand::Fold
        } else if c == 'r' && pending_z {
            NormalCommand::Unfold
        } else if c == 'd' {
            if pending_d {
                NormalCommand::DeleteLine
            } else {
                NormalCommand::PendingD
            }
        } else if c == 'g' {
            NormalCommand::PendingG
        } else if c == 't' && pending_g {
            NormalCommand::TabNext
        } else if c == 'T' && pending_g {
            NormalCommand::TabPrev
        } else if c == 's' {
            NormalCommand::SpeakerStyleMode
        } else if c == 'v' {
            NormalCommand::IntonationMode
        } else if c == '?' {
            NormalCommand::HelpMode
        } else if c == 'l' {
            NormalCommand::TabNext
        } else if c == ':' {
            NormalCommand::CommandMode
        } else if is_ascii_digit(c) {
            NormalCommand::CountDigit(c)
        } else {
            NormalCommand::Reset
        },
        KeyCode::Down | KeyCode::Enter => NormalCommand::MoveDown,
        KeyCode::Up => NormalCommand::MoveUp,
        KeyCode::Right => NormalCommand::TabNext,
        KeyCode::Left => NormalCommand::HelpMode,
        KeyCode::Esc => NormalCommand::EscHint,
        _ => NormalCommand::Reset,
    }
}

/// In Normal mode the vim keys and the arrow keys mean the same, whatever
/// prefix was typed: `k` and Up move up, `j`, Down and Enter move down,
/// `l` and Right go to the next tab; `?` and Left open the help menu.
pub proof fn lemma_vim_keys_match_arrows(d: bool, z: bool, g: bool, quote: bool, clipboard: bool)
    ensures
        spec_normal_command(KeyCode::Char('k'), d, z, g, quote, clipboard) == NormalCommand::MoveUp,
        spec_normal_command(KeyCode::Up, d, z, g, quote, clipboard) == NormalCommand::MoveUp,
        spec_normal_command(KeyCode::Char('j'), d, z, g, quote, clipboard) == NormalCommand::MoveDown,
        spec_normal_command(KeyCode::Down, d, z, g, quote, clipboard) == NormalCommand::MoveDown,
        spec_normal_command(KeyCode::Enter, d, z, g, quote, clipboard) == NormalCommand::MoveDown,
        spec_normal_command(KeyCode::Char('l'), d, z, g, quote, clipboard) == NormalCommand::TabNext,
        spec_normal_command(KeyCode::Right, d, z, g, quote, clipboard) == NormalCommand::TabNext,
        spec_normal_command(KeyCode::Char('?'), d, z, g, quote, clipboard) == NormalCommand::HelpMode,
        spec_normal_command(KeyCode::Left, d, z, g, quote, clipboard) == NormalCommand::HelpMode,
{
}

/// The Normal-mode command of `code` (see `spec_normal_command`).
pub fn normal_command(
    code: KeyCode,
    pending_d: bool,
    pending_z: bool,
    pending_g: bool,
    pending_quote: bool,
    pending_clipboard: bool,
) -> (c: NormalCommand)
    ensures
        c == spec_normal_command(code, pending_d, pending_z, pending_g, pending_quote, pending_clipboard),
{
    match code {
        KeyCode::Char(c) => if c == 'q' {
            NormalCommand::Quit
        } else if c == 'j' {
            NormalCommand::MoveDown
        } else if c == 'k' {
            NormalCommand::MoveUp
        } else if c == 'i' {
            NormalCommand::EditCurrent
        } else if c == 'o' {
            NormalCommand::InsertBelow
        } else if c == 'O' {
            NormalCommand::InsertAbove
        } else if c == ' ' {
            NormalCommand::PlayCurrent
        } else if c == 'p' {
            if pending_clipboard {
                NormalCommand::PasteBelowClipboard
            } else {
                NormalCommand::PasteBelow
            }
        } else if c == 'P' {
            if pending_clipboard {
                NormalCommand::PasteAboveClipboard
            } else {
                NormalCommand::PasteAbove
            }
        } else if c == '"' {
            NormalCommand::PendingQuote
        } else if c == '+' && pending_quote {
            NormalCommand::PendingClipboard
        } else if c == 'z' {
            NormalCommand::PendingZ
        } else if c == 'm' && pending_z {
            NormalCommand::Fold
        } else if c == 'r' && pending_z {
            NormalCommand::Unfold
        } else if c == 'd' {
            if pending_d {
                NormalCommand::DeleteLine
            } else {
                NormalCommand::PendingD
            }
        } else if c == 'g' {
            NormalCommand::PendingG
        } else if c == 't' && pending_g {
            NormalCommand::TabNext
        } else if c == 'T' && pending_g {
            NormalCommand::TabPrev
        } else if c == 's' {
            NormalCommand::SpeakerStyleMode
        } else if c == 'v' {
            NormalCommand::IntonationMode
        } else if c == '?' {
            NormalCommand::HelpMode
        } else if c == 'l' {
            NormalCommand::TabNext
        } else if c == ':' {
            NormalCommand::CommandMode
        } else if '0' <= c && c <= '9' {
            NormalCommand::CountDigit(c)
        } else {
            NormalCommand::Reset
        },
        KeyCode::Down | KeyCode::Enter => NormalCommand::MoveDown,
        KeyCode::Up => NormalCommand::MoveUp,
        KeyCode::Right => NormalCommand::TabNext,
        KeyCode::Left => NormalCommand::HelpMode,
        KeyCode::Esc => NormalCommand::EscHint,
        _ => NormalCommand::Reset,
    }
}

/// The command a help-menu action stands for.
pub open spec fn spec_help_command(a: HelpAction) -> Option<NormalCommand> {
    match a {
        HelpAction::NoAction => None,
        HelpAction::MoveDown => Some(NormalCommand::MoveDown),
        HelpAction::MoveUp => Some(NormalCommand::MoveUp),
        HelpAction::EditCurrent => Some(NormalCommand::EditCurrent),
        HelpAction::InsertBelow => Some(NormalCommand::InsertBelow),
        HelpAction::InsertAbove => Some(NormalCommand::InsertAbove),
        HelpAction::PlayCurrent => Some(NormalCommand::PlayCurrent),
        HelpAction::DeleteLine => Some(NormalCommand::DeleteLine),
        HelpAction::PasteBelow => Some(NormalCommand::PasteBelow),
        HelpAction::PasteAbove => Some(NormalCommand::PasteAbove),
        HelpAction::PasteBelowClipboard => Some(NormalCommand::PasteBelowClipboard),
        HelpAction::PasteAboveClipboard => Some(NormalCommand::PasteAboveClipboard),
        HelpAction::Fold => Some(NormalCommand::Fold),
        HelpAction::Unfold => Some(NormalCommand::Unfold),
        HelpAction::SpeakerStyleMode => Some(NormalCommand::SpeakerStyleMode),
        HelpAction::IntonationMode => Some(NormalCommand::IntonationMode),
        HelpAction::TabNext => Some(NormalCommand::TabNext),
        HelpAction::TabPrev => Some(NormalCommand::TabPrev),
        HelpAction::TabNew => Some(NormalCommand::TabNew),
        HelpAction::Quit => Some(NormalCommand::Quit),
    }
}

/// The command a help-menu action stands for (see `spec_help_command`).
pub fn help_command(a: HelpAction) -> (c: Option<NormalCommand>)
    ensures
        c == spec_help_command(a),
{
    match a {
        HelpAction::NoAction => None,
        HelpAction::MoveDown => Some(NormalCommand::MoveDown),
        HelpAction::MoveUp => Some(NormalCommand::MoveUp),
        HelpAction::EditCurrent => Some(NormalCommand::EditCurrent),
        HelpAction::InsertBelow => Some(NormalCommand::InsertBelow),
        HelpAction::InsertAbove => Some(NormalCommand::InsertAbove),
        HelpAction::PlayCurrent => Some(NormalCommand::PlayCurrent),
        HelpAction::DeleteLine => Some(NormalCommand::DeleteLine),
        HelpAction::PasteBelow => Some(NormalCommand::PasteBelow),
        HelpAction::PasteAbove => Some(NormalCommand::PasteAbove),
        HelpAction::PasteBelowClipboard => Some(NormalCommand::PasteBelowClipboard),
        HelpAction::PasteAboveClipboard => Some(NormalCommand::PasteAboveClipboard),
        HelpAction::Fold => Some(NormalCommand::Fold),
        HelpAction::Unfold => Some(NormalCommand::Unfold),
        HelpAction::SpeakerStyleMode => Some(NormalCommand::SpeakerStyleMode),
        HelpAction::IntonationMode => Some(NormalCommand::IntonationMode),
        HelpAction::TabNext => Some(NormalCommand::TabNext),
        HelpAction::TabPrev => Some(NormalCommand::TabPrev),
        HelpAction::TabNew => Some(NormalCommand::TabNew),
        HelpAction::Quit => Some(NormalCommand::Quit),
    }
}

/// What the caller does after a command.
pub enum Effect {
    Nothing,
    /// Leave the editor, saving the state.
    Quit,
    /// Play the cursor line and restart prefetch.
    PlayAndPrefetch,
    /// Play the cursor line.
    Play,
    /// Restart prefetch.
    Prefetch,
    /// Start editing with this text in the edit buffer.
    EditBuffer(String),
    /// Read the clipboard and paste its lines below or above the cursor.
    ClipboardPaste { below: bool },
    /// Open the intonation editor on the cursor line.
    IntonationMode,
    /// Highlight the quit hint for a while.
    EscHint,
    /// Play this line as a preview.
    Preview(String),
}

/// The lines of a text as `str::lines` gives them: split at `\n`, a `\r`
/// just before a `\n` dropped (a final `\r` with no `\n` after it stays),
/// no line after a final line ending.
pub open spec fn text_lines(s: Seq<char>) -> Seq<Seq<char>>
    decreases s.len(),
{
    if s.len() == 0 {
        Seq::empty()
    } else {
        proof {
            lemma_first_newline_bound(s);
        }
        seq![split_first_line(s).0] + text_lines(split_first_line(s).1)
    }
}

/// Position of the first `\n`.
pub open spec fn first_newline(s: Seq<char>) -> Option<int>
    decreases s.len(),
{
    if s.len() == 0 {
        None
    } else {
        match first_newline(s.drop_last()) {
            Some(i) => Some(i),
            None => if s.last() == '\n' {
                Some(s.len() - 1)
            } else {
                None
            },
        }
    }
}

pub open spec fn strip_cr(l: Seq<char>) -> Seq<char> {
    if l.len() > 0 && l.last() == '\r' {
        l.drop_last()
    } else {
        l
    }
}

/// The first line of a non-empty text and what follows its line ending.
pub open spec fn split_first_line(s: Seq<char>) -> (Seq<char>, Seq<char>) {
    match first_newline(s) {
        Some(i) => (strip_cr(s.subrange(0, i)), s.subrange(i + 1, s.len() as int)),
        None => (s, Seq::empty()),
    }
}

pub proof fn lemma_first_newline_bound(s: Seq<char>)
    ensures
        first_newline(s) matches Some(i) ==> 0 <= i < s.len() && s[i] == '\n' && forall|k: int|
            0 <= k < i ==> s[k] != '\n',
        first_newline(s) is None ==> forall|k: int| 0 <= k < s.len() ==> s[k] != '\n',
    decreases s.len(),
{
    if s.len() > 0 {
        lemma_first_newline_bound(s.drop_last());
        assert forall|k: int| 0 <= k < s.len() - 1 implies s[k] == s.drop_last()[k] by {}
    }
}

/// The lines of a text (see `text_lines`).
pub fn split_text_lines(text: &str) -> (r: Vec<String>)
    ensures
        strings_view(r@) == text_lines(text@),
{
    let c = chars_of(text);
    let n = c.len();
    let mut r: Vec<String> = Vec::new();
    let mut start: usize = 0;
    assert(c@.subrange(0, n as int) =~= c@);
    assert(strings_view(r@) =~= Seq::<Seq<char>>::empty());
    while start < n
        invariant
            start <= n,
            n == c@.len(),
            text@ == c@,
            strings_view(r@) + text_lines(c@.subrange(start as int, n as int)) == text_lines(c@),
        decreases n - start,
    {
        let ghost rest = c@.subrange(start as int, n as int);
        let mut e = start;
        while e < n && c[e] != '\n'
            invariant
                start <= e <= n,
                n == c@.len(),
                forall|k: int| start <= k < e ==> c@[k] != '\n',
            decreases n - e,
        {
            e = e + 1;
        }
        proof {
            lemma_first_newline_bound(rest);
            if e < n {
                assert(rest[e - start] == '\n');
                match first_newline(rest) {
                    Some(i) => {
                        if i < e - start {
                            assert(rest[i] == c@[start + i]);
                        }
                        assert(i == e - start);
                    },
                    None => {},
                }
            } else {
                match first_newline(rest) {
                    Some(i) => {
                        assert(rest[i] == c@[start + i]);
                    },
                    None => {},
                }
            }
        }
        let end = if e < n && e > start && c[e - 1] == '\r' {
            e - 1
        } else {
            e
        };
        let line = crate::text::sub_chars(c.as_slice(), start, end);
        let ghost before = r@;
        r.push(crate::text::string_from_chars(line.as_slice()));
        proof {
            let seg = rest.subrange(0, e - start);
            assert(seg =~= c@.subrange(start as int, e as int));
            if e < n {
                assert(split_first_line(rest) == (strip_cr(seg), rest.subrange(e - start + 1, rest.len() as int)));
                assert(rest.subrange(e - start + 1, rest.len() as int) =~= c@.subrange(e + 1, n as int));
            } else {
                assert(seg =~= rest);
                assert(split_first_line(rest) == (rest, Seq::<char>::empty()));
                assert(c@.subrange(n as int, n as int) =~= Seq::<char>::empty());
            }
            if e < n && e > start && c@[e - 1] == '\r' {
                assert(strip_cr(seg) =~= c@.subrange(start as int, e - 1));
            } else if e == n {
                assert(seg =~= c@.subrange(start as int, e as int));
            } else {
                assert(strip_cr(seg) =~= seg);
            }
            assert(strings_view(r@) =~= strings_view(before).push(line@));
            assert(text_lines(rest) == seq![split_first_line(rest).0] + text_lines(split_first_line(rest).1));
        }
        if e < n {
            start = e + 1;
            proof {
                assert(strings_view(r@) + text_lines(c@.subrange(start as int, n as int)) =~= strings_view(before)
                    + text_lines(rest));
            }
        } else {
            start = n;
            proof {
                assert(text_lines(c@.subrange(n as int, n as int)) == Seq::<Seq<char>>::empty());
                assert(strings_view(r@) + text_lines(c@.subrange(start as int, n as int)) =~= strings_view(before)
                    + text_lines(rest));
            }
        }
    }
    assert(c@.subrange(n as int, n as int) =~= Seq::<char>::empty());
    assert(strings_view(r@) + Seq::<Seq<char>>::empty() =~= strings_view(r@));
    r
}

/// `10^n`.
pub open spec fn pow10(n: nat) -> int
    decreases n,
{
    if n == 0 {
        1
    } else {
        10 * pow10((n - 1) as nat)
    }
}

proof fn lemma_digits_below_pow10(s: Seq<char>)
    requires
        crate::text::all_digits(s),
    ensures
        0 <= crate::text::digits_value(s) < pow10(s.len()),
    decreases s.len(),
{
    if s.len() > 0 {
        assert(crate::text::is_digit(s[s.len() - 1]));
        assert forall|i: int| 0 <= i < s.drop_last().len() implies crate::text::is_digit(
            #[trigger] s.drop_last()[i],
        ) by {
            assert(crate::text::is_digit(s[i]));
        }
        lemma_digits_below_pow10(s.drop_last());
    }
}

/// A count of at most six characters is at most 999999.
proof fn lemma_small_count(s: Seq<char>)
    requires
        s.len() <= 6,
    ensures
        match crate::text::parse_usize(s) {
            Some(v) => v <= 999999,
            None => true,
        },
{
    let d = crate::text::unsigned_digits(s);
    if d.len() > 0 && crate::text::all_digits(d) {
        lemma_digits_below_pow10(d);
        assert(pow10(d.len()) <= 1000000) by {
            reveal_with_fuel(pow10, 7);
            assert(d.len() <= 6);
            if d.len() == 0 {
            } else if d.len() == 1 {
            } else if d.len() == 2 {
            } else if d.len() == 3 {
            } else if d.len() == 4 {
            } else if d.len() == 5 {
            } else {
            }
        }
    }
}

/// The count a motion uses: the typed count, 1 when none or 0.
pub open spec fn count_of(buf: Seq<char>) -> int {
    match crate::text::parse_usize(buf) {
        Some(v) => if v == 0 {
            1
        } else {
            v as int
        },
        None => 1,
    }
}

/// The chooser's selection (speaker index, style index) after moving the
/// focused list by `delta`, clamped to the list (a new speaker starts at its
/// first style); none when the selection does not move.
pub open spec fn moved_selection(
    t: crate::speakers::TableView,
    avail: Seq<Seq<char>>,
    st: crate::chooser::SpeakerStyleState,
    delta: int,
) -> Option<(usize, usize)> {
    let names = crate::chooser::chooser_names(t, avail);
    let styles = crate::chooser::chooser_styles(t, avail, st.speaker_index as int);
    let on_speakers = st.focus == crate::chooser::SpeakerStyleFocus::Speaker;
    let count = if on_speakers {
        names.len() as int
    } else {
        styles.len() as int
    };
    let cur = if on_speakers {
        st.speaker_index as int
    } else {
        st.style_index as int
    };
    let next = crate::chooser::moved_index(cur, delta, count);
    if count == 0 || next == cur {
        None
    } else if on_speakers {
        Some((next as usize, 0usize))
    } else {
        Some((st.speaker_index, next as usize))
    }
}

impl<I: Clone> Editor<I> {
    /// What the Normal-mode command `cmd` makes of `self`: `n`, leaving `e`
    /// for the caller (see `apply_normal_command`).
    pub open spec fn normal_applied(&self, n: Editor<I>, t: TableView, avail: Seq<Seq<char>>, cmd: NormalCommand, e: Effect) -> bool {
        match cmd {
            NormalCommand::Quit => e is Quit && n == *self,
            NormalCommand::MoveDown => {
                &&& self.moved_cursor(count_of(self.count_buf@), n.cursor)
                &&& n.lines == self.lines
                &&& (if n.cursor != self.cursor {
                    e is PlayAndPrefetch
                } else {
                    e is Nothing
                })
            },
            NormalCommand::MoveUp => {
                &&& self.moved_cursor(-count_of(self.count_buf@), n.cursor)
                &&& n.lines == self.lines
                &&& (if n.cursor != self.cursor {
                    e is PlayAndPrefetch
                } else {
                    e is Nothing
                })
            },
            NormalCommand::EditCurrent => e matches Effect::EditBuffer(text) && self.entered_current(
                n,
                t,
                text@,
            ),
            NormalCommand::InsertBelow => e matches Effect::EditBuffer(text) && self.opened_into(
                n,
                t,
                true,
                text@,
            ),
            NormalCommand::InsertAbove => e matches Effect::EditBuffer(text) && self.opened_into(
                n,
                t,
                false,
                text@,
            ),
            NormalCommand::PlayCurrent => e is Play && self.prefixes_set(n, false, false, false, false, false),
            NormalCommand::PasteBelowClipboard => e matches Effect::ClipboardPaste { below } && below && n == *self,
            NormalCommand::PasteAboveClipboard => e matches Effect::ClipboardPaste { below } && !below && n == *self,
            NormalCommand::PasteBelow => (e is PlayAndPrefetch || e is Nothing) && self.pasted_into(
                n,
                true,
                e is PlayAndPrefetch,
            ),
            NormalCommand::PasteAbove => (e is PlayAndPrefetch || e is Nothing) && self.pasted_into(
                n,
                false,
                e is PlayAndPrefetch,
            ),
            NormalCommand::DeleteLine => (e is PlayAndPrefetch || e is Nothing) && self.deleted_into(
                n,
                e is PlayAndPrefetch,
            ),
            NormalCommand::PendingQuote => e is Nothing && self.prefixes_set(n, false, false, false, true, false),
            NormalCommand::PendingClipboard => e is Nothing && n == (Editor {
                pending_quote: false,
                pending_clipboard: true,
                ..*self
            }),
            NormalCommand::PendingZ => e is Nothing && self.prefixes_set(n, false, true, false, false, false),
            NormalCommand::PendingD => e is Nothing && self.prefixes_set(n, true, false, false, false, false),
            NormalCommand::PendingG => e is Nothing && self.prefixes_set(n, false, false, true, false, false),
            NormalCommand::Fold => n.folded && n.cursor == crate::editor::fold_cursor(
                crate::lines::spec_visible(self.lines_view(), true),
                self.cursor,
            ) && e is Nothing && self.view_changed_only(n),
            NormalCommand::Unfold => !n.folded && n.cursor == self.cursor && e is Nothing && self.view_changed_only(n),
            NormalCommand::TabNext => self.tab_stepped_into(n, true) && (if self.tabs@.len() > 1 {
                e is Prefetch
            } else {
                e is Nothing
            }),
            NormalCommand::TabPrev => self.tab_stepped_into(n, false) && (if self.tabs@.len() > 1 {
                e is Prefetch
            } else {
                e is Nothing
            }),
            NormalCommand::TabNew => {
                &&& e is Prefetch
                &&& n.no_pending()
                &&& n.tabs@.len() == self.tabs@.len() + 1
                &&& n.active_tab == self.tabs@.len()
                &&& n.doc_lines() == self.doc_lines().push(seq![Seq::<char>::empty()])
                &&& n.doc_cursors() == self.doc_cursors().push(0usize)
                &&& n.doc_folded() == self.doc_folded().push(false)
                &&& n.mode == self.mode
            },
            NormalCommand::SpeakerStyleMode => e is Nothing && self.chooser_opened_into(n, t, avail),
            NormalCommand::IntonationMode => e is IntonationMode && n == *self,
            NormalCommand::HelpMode => e is Nothing && self.help_opened_into(n),
            NormalCommand::CommandMode => {
                &&& e is Nothing
                &&& n == (Editor {
                    mode: Mode::Command,
                    command_buf: n.command_buf,
                    pending_d: false,
                    pending_z: false,
                    pending_g: false,
                    pending_quote: false,
                    pending_clipboard: false,
                    count_buf: n.count_buf,
                    ..*self
                })
                &&& n.command_buf@.len() == 0
                &&& n.count_buf@.len() == 0
            },
            NormalCommand::EscHint => e is EscHint && self.prefixes_set(n, false, false, false, false, false),
            NormalCommand::CountDigit(c) => e is Nothing && n == (Editor { count_buf: n.count_buf, ..*self }) && (if self.count_buf@.len() < 6 {
                n.count_buf@ == self.count_buf@.push(c)
            } else {
                n.count_buf@ == self.count_buf@
            }),
            NormalCommand::Reset => e is Nothing && self.prefixes_set(n, false, false, false, false, false),
        }
    }

    /// `n` is `self` with the prefixes cleared and at most the folding and
    /// the cursor changed: the document itself is as it was.
    pub open spec fn view_changed_only(&self, n: Editor<I>) -> bool {
        &&& n.no_pending()
        &&& n.lines == self.lines
        &&& n.line_intonations == self.line_intonations
        &&& n.tabs == self.tabs
        &&& n.active_tab == self.active_tab
        &&& n.yank_buf == self.yank_buf
        &&& n.mode == self.mode
    }

    /// What `?` makes of `self`: `n`, in the help menu with an empty key
    /// buffer and the prefixes cleared; nothing else changes.
    pub open spec fn help_opened_into(&self, n: Editor<I>) -> bool {
        &&& n == (Editor {
            mode: Mode::Help,
            help_key_buf: n.help_key_buf,
            pending_d: false,
            pending_z: false,
            pending_g: false,
            pending_quote: false,
            pending_clipboard: false,
            count_buf: n.count_buf,
            ..*self
        })
        &&& n.help_key_buf@.len() == 0
        &&& n.count_buf@.len() == 0
    }

    /// `n` is `self` with the help menu closed: Normal mode, the key buffer
    /// holding `buf`, nothing else changed.
    pub open spec fn help_closed(&self, n: Editor<I>, buf: Seq<char>) -> bool {
        n == (Editor { help_key_buf: n.help_key_buf, mode: Mode::Normal, ..*self }) && n.help_key_buf@ == buf
    }

    /// `self` with the help menu closed (Normal mode, the key buffer holding
    /// `buf`), from which the Normal-mode command `cmd` gives `n` and `e`.
    pub open spec fn closed_help_then(
        &self,
        n: Editor<I>,
        t: TableView,
        avail: Seq<Seq<char>>,
        buf: Seq<char>,
        cmd: NormalCommand,
        e: Effect,
    ) -> bool {
        exists|mid: Editor<I>|
            #[trigger] mid.normal_applied(n, t, avail, cmd, e) && mid == (Editor { help_key_buf: mid.help_key_buf, mode: Mode::Normal, ..*self })
                && mid.help_key_buf@ == buf
    }
}

impl<I> Editor<I> {
    /// `n` is `self` with at most the chooser and the status message changed.
    pub open spec fn chooser_only(&self, n: Editor<I>) -> bool {
        &&& n.mode == self.mode
        &&& n.lines == self.lines
        &&& n.line_intonations == self.line_intonations
        &&& n.cursor == self.cursor
        &&& n.tabs == self.tabs
        &&& n.active_tab == self.active_tab
    }

    /// What `j`/`k` (moving by `delta`) make of `self` in the chooser: the
    /// selection moves (see `moved_selection`) and, when it did, the new
    /// voice is previewed; `e` is what is left to play.
    pub open spec fn adjusted_into(&self, n: Editor<I>, t: TableView, avail: Seq<Seq<char>>, delta: int, e: Effect) -> bool {
        &&& self.chooser_only(n)
        &&& match self.speaker_style {
            None => e is Nothing && n.speaker_style is None && n.status_msg == self.status_msg,
            Some(st) => match moved_selection(t, avail, st, delta) {
                None => e is Nothing && n.speaker_style == self.speaker_style && n.status_msg == self.status_msg,
                Some(sel) => {
                    &&& n.speaker_style == Some(
                        crate::chooser::SpeakerStyleState { speaker_index: sel.0, style_index: sel.1, ..st },
                    )
                    &&& previewed(n, t, avail, st.original_line@, sel.0 as int, sel.1 as int, e)
                },
            },
        }
    }

    /// What Space / `p` make of `self` in the chooser: the selected voice is
    /// previewed, the selection stays.
    pub open spec fn previewed_into(&self, n: Editor<I>, t: TableView, avail: Seq<Seq<char>>, e: Effect) -> bool {
        &&& self.chooser_only(n)
        &&& n.speaker_style == self.speaker_style
        &&& match self.speaker_style {
            None => e is Nothing && n.status_msg == self.status_msg,
            Some(st) => previewed(n, t, avail, st.original_line@, st.speaker_index as int, st.style_index as int, e),
        }
    }

    /// What Left/`h` and Right/`l` make of `self` in the chooser: the focus
    /// moves to `focus`, nothing else changes.
    pub open spec fn focused_into(&self, n: Editor<I>, focus: crate::chooser::SpeakerStyleFocus) -> bool {
        &&& self.chooser_only(n)
        &&& n.status_msg == self.status_msg
        &&& match self.speaker_style {
            Some(st) => n.speaker_style matches Some(ns) && ns.focus == focus && ns.speaker_index == st.speaker_index
                && ns.style_index == st.style_index && ns.original_line == st.original_line && ns.original_ctx
                == st.original_ctx && ns.previous_status_msg == st.previous_status_msg,
            None => n.speaker_style is None,
        }
    }

    /// What Esc makes of `self` in the chooser: it closes, putting back the
    /// status it found.
    pub open spec fn cancelled_into(&self, n: Editor<I>) -> bool {
        &&& n.speaker_style is None
        &&& n.mode == Mode::Normal
        &&& match self.speaker_style {
            Some(st) => n.status_msg == st.previous_status_msg,
            None => n.status_msg == self.status_msg,
        }
        &&& n.lines == self.lines
        &&& n.line_intonations == self.line_intonations
        &&& n.cursor == self.cursor
        &&& n.tabs == self.tabs
        &&& n.active_tab == self.active_tab
    }

    /// What Enter makes of `self` in the chooser: it closes; a voice other
    /// than the line's own rewrites the cursor line with it, drops its
    /// intonation data and `changed` holds.
    pub open spec fn confirmed_into(&self, n: Editor<I>, t: TableView, avail: Seq<Seq<char>>, changed: bool) -> bool {
        &&& n.speaker_style is None
        &&& match self.speaker_style {
            None => !changed && n.mode == self.mode && n.lines == self.lines && n.line_intonations
                == self.line_intonations,
            Some(st) => {
                let ctx = crate::chooser::spec_ctx_from_indices(t, avail, st.speaker_index as int, st.style_index as int);
                let c = self.cursor as int;
                &&& n.mode == Mode::Normal
                &&& changed == (ctx != st.original_ctx@)
                &&& !changed ==> n.status_msg == st.previous_status_msg && n.lines == self.lines
                    && n.line_intonations == self.line_intonations
                &&& changed ==> {
                    &&& n.lines_view() == self.lines_view().update(
                        c,
                        crate::tag::spec_rewrite_line_with_ctx(t, st.original_line@, ctx),
                    )
                    &&& n.line_intonations@ == self.line_intonations@.update(c, None)
                    &&& n.status_msg@ == "[speaker/style] "@ + crate::chooser::explicit_prefix(ctx)
                }
            },
        }
        &&& n.cursor == self.cursor
        &&& n.folded == self.folded
        &&& n.tabs == self.tabs
        &&& n.active_tab == self.active_tab
    }
}

/// `n` shows the preview of `original_line` in the voice at (`speaker`,
/// `style`) of the chooser, and `e` plays it unless it has nothing to say.
pub open spec fn previewed<I>(
    n: Editor<I>,
    t: TableView,
    avail: Seq<Seq<char>>,
    original_line: Seq<char>,
    speaker: int,
    style: int,
    e: Effect,
) -> bool {
    let ctx = crate::chooser::spec_ctx_from_indices(t, avail, speaker, style);
    let line = crate::tag::spec_rewrite_line_with_ctx(t, original_line, ctx);
    let synth = crate::text::trim_start(line);
    &&& n.status_msg@ == "[preview] "@ + crate::chooser::explicit_prefix(ctx) + crate::text::trim_start(
        crate::tag::spec_strip_known_tags(t, line),
    )
    &&& (crate::tag::spec_parse_line(t, synth).len() == 0 ==> e is Nothing)
    &&& (crate::tag::spec_parse_line(t, synth).len() > 0 ==> (e matches Effect::Preview(text) && text@ == synth))
}

impl<I: Clone> Editor<I> {
    /// `?`: opens the help menu with an empty key buffer.
    pub fn enter_help_mode(&mut self)
        ensures
            old(self).help_opened_into(*final(self)),
            final(self).mode == Mode::Help,
            final(self).help_key_buf@.len() == 0,
            final(self).no_pending(),
            final(self).lines == old(self).lines,
            final(self).line_intonations == old(self).line_intonations,
            final(self).cursor == old(self).cursor,
            final(self).folded == old(self).folded,
            final(self).tabs == old(self).tabs,
            final(self).active_tab == old(self).active_tab,
            final(self).yank_buf == old(self).yank_buf,
    {
        self.reset_pending_prefixes();
        self.help_key_buf = String::new();
        self.mode = Mode::Help;
    }

    /// Typing `s` in the help menu: a complete key closes the menu and
    /// answers its action (see `spec_append`).
    pub fn help_append_key(&mut self, s: &str) -> (r: Option<HelpAction>)
        ensures
            (final(self).help_key_buf@, r) == spec_append(spec_help_keys(), old(self).help_key_buf@ + s@),
            r is Some ==> final(self).mode == Mode::Normal,
            r is None ==> final(self).mode == old(self).mode,
            *final(self) == (Editor { help_key_buf: final(self).help_key_buf, mode: final(self).mode, ..*old(self) }),
            final(self).count_buf == old(self).count_buf,
            final(self).lines == old(self).lines,
            final(self).line_intonations == old(self).line_intonations,
            final(self).cursor == old(self).cursor,
            final(self).folded == old(self).folded,
            final(self).tabs == old(self).tabs,
            final(self).active_tab == old(self).active_tab,
            final(self).yank_buf == old(self).yank_buf,
    {
        let r = crate::help::help_append_key(&mut self.help_key_buf, s);
        if r.is_some() {
            self.mode = Mode::Normal;
        }
        r
    }

    /// `"+p` / `"+P`: puts the clipboard's lines below or above the cursor
    /// (without intonation data) and moves onto the first of them (onto a
    /// shown line when folded). Answers whether anything was put, in which
    /// case the cursor line is played.
    pub fn paste_lines(&mut self, clip_lines: Vec<String>, below: bool) -> (played: bool)
        requires
            old(self).wf(),
        ensures
            final(self).wf(),
            final(self).no_pending(),
            played == (clip_lines@.len() > 0),
            clip_lines@.len() == 0 ==> final(self).lines == old(self).lines && final(self).line_intonations
                == old(self).line_intonations && final(self).cursor == old(self).cursor,
            clip_lines@.len() > 0 ==> {
                let at = if below {
                    old(self).cursor + 1
                } else {
                    old(self).cursor as int
                };
                &&& final(self).lines_view() == old(self).lines_view().subrange(0, at) + strings_view(clip_lines@)
                    + old(self).lines_view().subrange(at, old(self).lines@.len() as int)
                &&& final(self).line_intonations@ == old(self).line_intonations@.subrange(0, at) + Seq::new(
                    clip_lines@.len(),
                    |j: int| None::<I>,
                ) + old(self).line_intonations@.subrange(at, old(self).lines@.len() as int)
                &&& crate::editor::fold_normalized(final(self).lines_view(), final(self).folded, at as usize, final(self).cursor)
            },
            final(self).folded == old(self).folded,
            final(self).tabs == old(self).tabs,
            final(self).active_tab == old(self).active_tab,
            final(self).mode == old(self).mode,
            final(self).yank_buf == old(self).yank_buf,
    {
        self.reset_pending_prefixes();
        if clip_lines.len() == 0 {
            return false;
        }
        assert(self.cursor < self.lines.len());
        let at = if below {
            self.cursor + 1
        } else {
            self.cursor
        };
        let ghost ol = self.lines_view();
        let ghost oi = self.line_intonations@;
        let ghost mid = *self;
        let mut tail = self.lines.split_off(at);
        let mut tail_int = self.line_intonations.split_off(at);
        let ghost cv = strings_view(clip_lines@);
        let mut k: usize = 0;
        assert(self.lines_view() =~= ol.subrange(0, at as int) + cv.subrange(0, 0));
        assert(self.line_intonations@ =~= oi.subrange(0, at as int) + Seq::new(0, |j: int| None::<I>));
        while k < clip_lines.len()
            invariant
                k <= clip_lines@.len(),
                cv == strings_view(clip_lines@),
                at <= ol.len(),
                ol.len() == oi.len(),
                self.lines_view() == ol.subrange(0, at as int) + cv.subrange(0, k as int),
                self.line_intonations@ == oi.subrange(0, at as int) + Seq::new(k as nat, |j: int| None::<I>),
                self.cursor == mid.cursor,
                self.folded == mid.folded,
                self.tabs == mid.tabs,
                self.active_tab == mid.active_tab,
                self.mode == mid.mode,
                self.yank_buf == mid.yank_buf,
                self.no_pending(),
            decreases clip_lines.len() - k,
        {
            let ghost bl = self.lines_view();
            self.lines.push(clip_lines[k].clone());
            self.line_intonations.push(None);
            assert(cv[k as int] == clip_lines@[k as int]@);
            assert(self.lines_view() =~= bl.push(cv[k as int]));
            assert(self.lines_view() =~= ol.subrange(0, at as int) + cv.subrange(0, k + 1));
            assert(self.line_intonations@ =~= oi.subrange(0, at as int) + Seq::new((k + 1) as nat, |j: int| None::<I>));
            k = k + 1;
        }
        assert(cv.subrange(0, k as int) =~= cv);
        let ghost mid_l = self.lines_view();
        let ghost mid_i = self.line_intonations@;
        self.lines.append(&mut tail);
        self.line_intonations.append(&mut tail_int);
        assert(self.lines_view() =~= mid_l + ol.subrange(at as int, ol.len() as int));
        assert(self.line_intonations@ =~= mid_i + oi.subrange(at as int, oi.len() as int));
        self.cursor = at;
        self.normalize_cursor_for_fold();
        true
    }

    /// Carries out a Normal-mode command and answers what is left for the
    /// caller to do.
    pub fn apply_normal_command(&mut self, t: &SpeakerTable, avail: &PsdAvailability, cmd: NormalCommand) -> (e: Effect)
        requires
            old(self).wf(),
            old(self).lines@.len() < i32::MAX,
            old(self).count_buf@.len() <= 6,
        ensures
            final(self).wf(),
            final(self).count_buf@.len() <= 6,
            old(self).normal_applied(*final(self), t@, avail.names(), cmd, e),
    {
        match cmd {
            NormalCommand::Quit => Effect::Quit,
            NormalCommand::MoveDown | NormalCommand::MoveUp => {
                proof {
                    lemma_small_count(self.count_buf@);
                }
                let n = self.take_count();
                let d = n as i32;
                let delta = if cmd == NormalCommand::MoveDown {
                    d
                } else {
                    -d
                };
                if self.move_cursor(delta) {
                    Effect::PlayAndPrefetch
                } else {
                    Effect::Nothing
                }
            },
            NormalCommand::EditCurrent => Effect::EditBuffer(self.enter_insert_current(t)),
            NormalCommand::InsertBelow => Effect::EditBuffer(self.enter_insert_below(t)),
            NormalCommand::InsertAbove => Effect::EditBuffer(self.enter_insert_above(t)),
            NormalCommand::PlayCurrent => {
                self.reset_pending_prefixes();
                Effect::Play
            },
            NormalCommand::PasteBelowClipboard => Effect::ClipboardPaste { below: true },
            NormalCommand::PasteAboveClipboard => Effect::ClipboardPaste { below: false },
            NormalCommand::PasteBelow => if self.paste_below() {
                Effect::PlayAndPrefetch
            } else {
                Effect::Nothing
            },
            NormalCommand::PasteAbove => if self.paste_above() {
                Effect::PlayAndPrefetch
            } else {
                Effect::Nothing
            },
            NormalCommand::DeleteLine => if self.delete_current_line() {
                Effect::PlayAndPrefetch
            } else {
                Effect::Nothing
            },
            NormalCommand::PendingQuote => {
                self.reset_pending_prefixes();
                self.pending_quote = true;
                Effect::Nothing
            },
            NormalCommand::PendingClipboard => {
                self.pending_quote = false;
                self.pending_clipboard = true;
                Effect::Nothing
            },
            NormalCommand::PendingZ => {
                self.reset_pending_prefixes();
                self.pending_z = true;
                Effect::Nothing
            },
            NormalCommand::PendingD => {
                self.reset_pending_prefixes();
                self.pending_d = true;
                Effect::Nothing
            },
            NormalCommand::PendingG => {
                self.reset_pending_prefixes();
                self.pending_g = true;
                Effect::Nothing
            },
            NormalCommand::Fold => {
                self.fold();
                Effect::Nothing
            },
            NormalCommand::Unfold => {
                self.unfold();
                Effect::Nothing
            },
            NormalCommand::TabNext => {
                let many = self.tabs.len() > 1;
                self.tab_next();
                if many {
                    Effect::Prefetch
                } else {
                    Effect::Nothing
                }
            },
            NormalCommand::TabPrev => {
                let many = self.tabs.len() > 1;
                self.tab_prev();
                if many {
                    Effect::Prefetch
                } else {
                    Effect::Nothing
                }
            },
            NormalCommand::TabNew => {
                self.tabnew();
                Effect::Prefetch
            },
            NormalCommand::SpeakerStyleMode => {
                self.enter_speaker_style_mode(t, avail);
                Effect::Nothing
            },
            NormalCommand::IntonationMode => Effect::IntonationMode,
            NormalCommand::HelpMode => {
                self.enter_help_mode();
                Effect::Nothing
            },
            NormalCommand::CommandMode => {
                self.reset_pending_prefixes();
                self.command_buf = String::new();
                self.mode = Mode::Command;
                Effect::Nothing
            },
            NormalCommand::EscHint => {
                self.reset_pending_prefixes();
                Effect::EscHint
            },
            NormalCommand::CountDigit(c) => {
                let cb = chars_of(self.count_buf.as_str());
                if cb.len() < 6 {
                    crate::text::push_char(&mut self.count_buf, c);
                }
                Effect::Nothing
            },
            NormalCommand::Reset => {
                self.reset_pending_prefixes();
                Effect::Nothing
            },
        }
    }
}

/// What a key does in Insert mode.
#[derive(Debug, Clone, Copy, PartialEq, Eq, Structural)]
pub enum InsertCommand {
    /// Esc: commit the edit buffer and go back to Normal mode.
    Commit,
    /// Enter without modifiers: commit and open a new line below.
    CommitAndOpenBelow,
    /// Enter with modifiers: nothing.
    Ignore,
    /// Anything else goes to the edit buffer.
    Edit,
}

pub open spec fn no_modifiers(k: KeyInput) -> bool {
    !k.ctrl && !k.shift && !k.other_modifier
}

pub open spec fn spec_insert_command(k: KeyInput) -> InsertCommand {
    match k.code {
        KeyCode::Esc => InsertCommand::Commit,
        KeyCode::Enter => if no_modifiers(k) {
            InsertCommand::CommitAndOpenBelow
        } else {
            InsertCommand::Ignore
        },
        _ => InsertCommand::Edit,
    }
}

/// What a key does in Insert mode (see `spec_insert_command`).
pub fn insert_command(k: KeyInput) -> (c: InsertCommand)
    ensures
        c == spec_insert_command(k),
{
    match k.code {
        KeyCode::Esc => InsertCommand::Commit,
        KeyCode::Enter => if !k.ctrl && !k.shift && !k.other_modifier {
            InsertCommand::CommitAndOpenBelow
        } else {
            InsertCommand::Ignore
        },
        _ => InsertCommand::Edit,
    }
}

/// `s` without its last character (`String::pop`).
fn without_last(s: &String) -> (r: String)
    ensures
        s@.len() == 0 ==> r@ == s@,
        s@.len() > 0 ==> r@ == s@.drop_last(),
{
    let c = chars_of(s.as_str());
    if c.len() == 0 {
        return s.clone();
    }
    let d = crate::text::sub_chars(c.as_slice(), 0, c.len() - 1);
    crate::text::string_from_chars(d.as_slice())
}

impl<I: Clone> Editor<I> {
    /// A key in Command mode: Enter runs the command line and Esc drops it
    /// (both back to Normal mode with an empty command line), Backspace
    /// deletes its last character, a character typed alone or with Shift
    /// is appended.
    pub fn handle_command_key(&mut self, key: KeyInput) -> (e: Effect)
        requires
            old(self).wf(),
        ensures
            final(self).wf(),
            match key.code {
                KeyCode::Enter => final(self).mode == Mode::Normal && final(self).command_buf@.len() == 0 && (if crate::text::trim(
                    old(self).command_buf@,
                ) == "tabnew"@ {
                    e is Prefetch && final(self).tabs@.len() == old(self).tabs@.len() + 1
                } else {
                    e is Nothing && final(self).status_msg@ == "Unknown command: "@ + crate::text::trim(
                        old(self).command_buf@,
                    ) && final(self).lines == old(self).lines
                }),
                KeyCode::Esc => e is Nothing && final(self).mode == Mode::Normal && final(self).command_buf@.len()
                    == 0 && final(self).lines == old(self).lines,
                KeyCode::Backspace => e is Nothing && final(self).mode == old(self).mode && (if old(
                    self).command_buf@.len() == 0 {
                    final(self).command_buf@ == old(self).command_buf@
                } else {
                    final(self).command_buf@ == old(self).command_buf@.drop_last()
                }) && final(self).lines == old(self).lines,
                KeyCode::Char(c) => e is Nothing && final(self).mode == old(self).mode && final(self).lines == old(
                    self).lines && (if !key.ctrl && !key.other_modifier {
                    final(self).command_buf@ == old(self).command_buf@.push(c)
                } else {
                    final(self).command_buf@ == old(self).command_buf@
                }),
                _ => e is Nothing && final(self).command_buf@ == old(self).command_buf@ && final(self).mode == old(
                    self).mode && final(self).lines == old(self).lines,
            },
    {
        match key.code {
            KeyCode::Enter => {
                let cmd = crate::text::trimmed(self.command_buf.as_str());
                let cc = chars_of(cmd.as_str());
                let tn = chars_of("tabnew");
                let is_tabnew = crate::text::chars_eq(cc.as_slice(), tn.as_slice());
                self.execute_command();
                self.command_buf = String::new();
                self.mode = Mode::Normal;
                if is_tabnew {
                    Effect::Prefetch
                } else {
                    Effect::Nothing
                }
            },
            KeyCode::Esc => {
                self.command_buf = String::new();
                self.mode = Mode::Normal;
                Effect::Nothing
            },
            KeyCode::Backspace => {
                self.command_buf = without_last(&self.command_buf);
                Effect::Nothing
            },
            KeyCode::Char(c) => {
                if !key.ctrl && !key.other_modifier {
                    crate::text::push_char(&mut self.command_buf, c);
                }
                Effect::Nothing
            },
            _ => Effect::Nothing,
        }
    }

    /// A key in the help menu: Esc and `h`/Left close it; `j`/Down/Enter and
    /// `k`/Up close it and move; `l`/Right closes it and goes to the next
    /// tab; any other character is typed against the menu's keys, and a
    /// complete key runs its command.
    #[verifier::spinoff_prover]
    #[verifier::rlimit(60)]
    pub fn handle_help_key(&mut self, t: &SpeakerTable, avail: &PsdAvailability, key: KeyInput) -> (e: Effect)
        requires
            old(self).wf(),
            old(self).lines@.len() < i32::MAX,
            old(self).count_buf@.len() <= 6,
        ensures
            final(self).wf(),
            final(self).count_buf@.len() <= 6,
            match key.code {
                KeyCode::Esc | KeyCode::Left => old(self).help_closed(*final(self), Seq::empty()) && e is Nothing,
                KeyCode::Down | KeyCode::Enter => old(self).closed_help_then(
                    *final(self),
                    t@,
                    avail.names(),
                    Seq::empty(),
                    NormalCommand::MoveDown,
                    e,
                ),
                KeyCode::Up => old(self).closed_help_then(*final(self), t@, avail.names(), Seq::empty(), NormalCommand::MoveUp, e),
                KeyCode::Right => old(self).closed_help_then(*final(self), t@, avail.names(), Seq::empty(), NormalCommand::TabNext, e),
                KeyCode::Char(c) => if c == 'h' {
                    old(self).help_closed(*final(self), Seq::empty()) && e is Nothing
                } else if c == 'j' {
                    old(self).closed_help_then(*final(self), t@, avail.names(), Seq::empty(), NormalCommand::MoveDown, e)
                } else if c == 'k' {
                    old(self).closed_help_then(*final(self), t@, avail.names(), Seq::empty(), NormalCommand::MoveUp, e)
                } else if c == 'l' {
                    old(self).closed_help_then(*final(self), t@, avail.names(), Seq::empty(), NormalCommand::TabNext, e)
                } else {
                    let (buf, r) = spec_append(spec_help_keys(), old(self).help_key_buf@ + seq![c]);
                    match r {
                        None => e is Nothing && *final(self) == (Editor {
                            help_key_buf: final(self).help_key_buf,
                            ..*old(self)
                        }) && final(self).help_key_buf@ == buf,
                        Some(a) => match spec_help_command(a) {
                            Some(cmd) => old(self).closed_help_then(*final(self), t@, avail.names(), buf, cmd, e),
                            None => old(self).help_closed(*final(self), buf) && e is Nothing,
                        },
                    }
                },
                _ => e is Nothing && *final(self) == *old(self),
            },
    {
        match key.code {
            KeyCode::Esc | KeyCode::Left => {
                self.help_key_buf = String::new();
                self.mode = Mode::Normal;
                return Effect::Nothing;
            },
            KeyCode::Down | KeyCode::Enter => {
                self.help_key_buf = String::new();
                self.mode = Mode::Normal;
                return self.apply_normal_command(t, avail, NormalCommand::MoveDown);
            },
            KeyCode::Up => {
                self.help_key_buf = String::new();
                self.mode = Mode::Normal;
                return self.apply_normal_command(t, avail, NormalCommand::MoveUp);
            },
            KeyCode::Right => {
                self.help_key_buf = String::new();
                self.mode = Mode::Normal;
                return self.apply_normal_command(t, avail, NormalCommand::TabNext);
            },
            _ => {},
        }
        let c = match key.code {
            KeyCode::Char(c) => c,
            _ => return Effect::Nothing,
        };
        if c == 'h' {
            self.help_key_buf = String::new();
            self.mode = Mode::Normal;
            return Effect::Nothing;
        }
        if c == 'j' {
            self.help_key_buf = String::new();
            self.mode = Mode::Normal;
            return self.apply_normal_command(t, avail, NormalCommand::MoveDown);
        }
        if c == 'k' {
            self.help_key_buf = String::new();
            self.mode = Mode::Normal;
            return self.apply_normal_command(t, avail, NormalCommand::MoveUp);
        }
        if c == 'l' {
            self.help_key_buf = String::new();
            self.mode = Mode::Normal;
            return self.apply_normal_command(t, avail, NormalCommand::TabNext);
        }
        let mut typed = String::new();
        crate::text::push_char(&mut typed, c);
        let action = self.help_append_key(typed.as_str());
        match action {
            Some(a) => match help_command(a) {
                Some(cmd) => self.apply_normal_command(t, avail, cmd),
                None => Effect::Nothing,
            },
            None => Effect::Nothing,
        }
    }

    /// A key in the speaker/style chooser: Esc cancels, Enter confirms,
    /// `h`/Left and `l`/Right focus the speakers or the styles, Space and `p`
    /// preview the selection, `j`/Down and `k`/Up move it and preview it
    /// when it changed.
    pub fn handle_speaker_style_key(&mut self, t: &SpeakerTable, avail: &PsdAvailability, key: KeyInput) -> (e: Effect)
        requires
            old(self).wf(),
        ensures
            final(self).wf(),
            match key.code {
                KeyCode::Esc => old(self).cancelled_into(*final(self)) && e is Nothing,
                KeyCode::Enter => (e is Prefetch || e is Nothing) && old(self).confirmed_into(
                    *final(self),
                    t@,
                    avail.names(),
                    e is Prefetch,
                ),
                KeyCode::Left => old(self).focused_into(*final(self), SpeakerStyleFocus::Speaker) && e is Nothing,
                KeyCode::Right => old(self).focused_into(*final(self), SpeakerStyleFocus::Style) && e is Nothing,
                KeyCode::Down => old(self).adjusted_into(*final(self), t@, avail.names(), 1, e),
                KeyCode::Up => old(self).adjusted_into(*final(self), t@, avail.names(), -1, e),
                KeyCode::Char(c) => if c == 'h' {
                    old(self).focused_into(*final(self), SpeakerStyleFocus::Speaker) && e is Nothing
                } else if c == 'l' {
                    old(self).focused_into(*final(self), SpeakerStyleFocus::Style) && e is Nothing
                } else if c == ' ' || c == 'p' {
                    old(self).previewed_into(*final(self), t@, avail.names(), e)
                } else if c == 'j' {
                    old(self).adjusted_into(*final(self), t@, avail.names(), 1, e)
                } else if c == 'k' {
                    old(self).adjusted_into(*final(self), t@, avail.names(), -1, e)
                } else {
                    e is Nothing && *final(self) == *old(self)
                },
                _ => e is Nothing && *final(self) == *old(self),
            },
    {
        match key.code {
            KeyCode::Esc => {
                self.cancel_speaker_style_mode();
                Effect::Nothing
            },
            KeyCode::Enter => {
                if self.confirm_speaker_style_mode(t, avail) {
                    Effect::Prefetch
                } else {
                    Effect::Nothing
                }
            },
            KeyCode::Left => {
                self.speaker_style_focus(crate::chooser::SpeakerStyleFocus::Speaker);
                Effect::Nothing
            },
            KeyCode::Right => {
                self.speaker_style_focus(crate::chooser::SpeakerStyleFocus::Style);
                Effect::Nothing
            },
            KeyCode::Down => self.adjust_and_preview(t, avail, 1),
            KeyCode::Up => self.adjust_and_preview(t, avail, -1),
            KeyCode::Char(c) => if c == 'h' {
                self.speaker_style_focus(crate::chooser::SpeakerStyleFocus::Speaker);
                Effect::Nothing
            } else if c == 'l' {
                self.speaker_style_focus(crate::chooser::SpeakerStyleFocus::Style);
                Effect::Nothing
            } else if c == ' ' || c == 'p' {
                match self.speaker_style_selected_preview_line(t, avail) {
                    Some(line) => match self.preview_speaker_style_selection(t, avail, line.as_str()) {
                        Some(synth) => Effect::Preview(synth),
                        None => Effect::Nothing,
                    },
                    None => Effect::Nothing,
                }
            } else if c == 'j' {
                self.adjust_and_preview(t, avail, 1)
            } else if c == 'k' {
                self.adjust_and_preview(t, avail, -1)
            } else {
                Effect::Nothing
            },
            _ => Effect::Nothing,
        }
    }

    fn adjust_and_preview(&mut self, t: &SpeakerTable, avail: &PsdAvailability, delta: i32) -> (e: Effect)
        requires
            old(self).wf(),
        ensures
            final(self).wf(),
            old(self).adjusted_into(*final(self), t@, avail.names(), delta as int, e),
    {
        match self.speaker_style_adjust_selection(t, avail, delta) {
            Some(line) => match self.preview_speaker_style_selection(t, avail, line.as_str()) {
                Some(synth) => Effect::Preview(synth),
                None => Effect::Nothing,
            },
            None => Effect::Nothing,
        }
    }
}

} // verus!
