//! Entries of the help menu, and matching of typed keys against them.

use vstd::prelude::*;

use crate::text::{chars_of, has_prefix};

verus! {

/// What choosing a help-menu entry does.
#[derive(Debug, Clone, Copy, PartialEq, Eq, Structural)]
pub enum HelpAction {
    NoAction,
    MoveDown,
    MoveUp,
    EditCurrent,
    InsertBelow,
    InsertAbove,
    PlayCurrent,
    DeleteLine,
    PasteBelow,
    PasteAbove,
    PasteBelowClipboard,
    PasteAboveClipboard,
    Fold,
    Unfold,
    SpeakerStyleMode,
    IntonationMode,
    TabNext,
    TabPrev,
    TabNew,
    Quit,
}

/// One help-menu entry: what is shown and what it does.
pub struct HelpEntry {
    pub key: &'static str,
    /// The keys typed in help mode to choose this entry; empty when typing
    /// cannot choose it.
    pub canonical_key: &'static str,
    pub desc: &'static str,
    pub action: HelpAction,
}

/// (canonical key, action) of every entry.
pub open spec fn keys_view(v: Seq<HelpEntry>) -> Seq<(Seq<char>, HelpAction)> {
    v.map_values(|e: HelpEntry| (e.canonical_key@, e.action))
}

/// The first entry, at index `from` or later, whose non-empty canonical key equals `buf`.
pub open spec fn exact_from(es: Seq<(Seq<char>, HelpAction)>, buf: Seq<char>, from: int) -> Option<HelpAction>
    decreases es.len() - from,
{
    if from >= es.len() || from < 0 {
        None
    } else if es[from].0.len() > 0 && es[from].0 == buf {
        Some(es[from].1)
    } else {
        exact_from(es, buf, from + 1)
    }
}

/// Some non-empty canonical key starts with `buf`.
pub open spec fn some_prefix(es: Seq<(Seq<char>, HelpAction)>, buf: Seq<char>) -> bool {
    exists|i: int| 0 <= i < es.len() && es[i].0.len() > 0 && #[trigger] has_prefix(es[i].0, buf)
}

/// After typing, the buffer becomes `buf`: a full match chooses the first
/// matching entry and empties the buffer; a partial match keeps it; no match
/// empties it.
pub open spec fn spec_append(es: Seq<(Seq<char>, HelpAction)>, buf: Seq<char>) -> (Seq<char>, Option<HelpAction>) {
    match exact_from(es, buf, 0) {
        Some(a) => (Seq::empty(), Some(a)),
        None => if some_prefix(es, buf) {
            (buf, None)
        } else {
            (Seq::empty(), None)
        },
    }
}

/// (canonical key, action) of every help-menu entry, in menu order.
pub open spec fn spec_help_keys() -> Seq<(Seq<char>, HelpAction)> {
    seq![
        (""@, HelpAction::MoveDown),
        ("i"@, HelpAction::EditCurrent),
        (""@, HelpAction::MoveUp),
        ("O"@, HelpAction::InsertAbove),
        ("zm"@, HelpAction::Fold),
        ("o"@, HelpAction::InsertBelow),
        ("zr"@, HelpAction::Unfold),
        ("dd"@, HelpAction::DeleteLine),
        ("gt"@, HelpAction::TabNext),
        ("P"@, HelpAction::PasteAbove),
        ("gT"@, HelpAction::TabPrev),
        ("p"@, HelpAction::PasteBelow),
        (" "@, HelpAction::PlayCurrent),
        (":tabnew"@, HelpAction::TabNew),
        (""@, HelpAction::NoAction),
        ("v"@, HelpAction::IntonationMode),
        ("s"@, HelpAction::SpeakerStyleMode),
        ("\"+P"@, HelpAction::PasteAboveClipboard),
        (""@, HelpAction::NoAction),
        (""@, HelpAction::NoAction),
        ("q"@, HelpAction::Quit),
        ("\"+p"@, HelpAction::PasteBelowClipboard),
    ]
}

/// The help-menu entries. Even positions make the left column (moving and
/// playing), odd positions the right column (editing).
pub fn help_entries() -> (v: Vec<HelpEntry>)
    ensures
        keys_view(v@) == spec_help_keys(),
{
    let mut v: Vec<HelpEntry> = Vec::new();
    v.push(HelpEntry { key: "j / ↓", canonical_key: "", desc: "カーソル下移動", action: HelpAction::MoveDown });
    v.push(HelpEntry { key: "i", canonical_key: "i", desc: "現在行を編集（挿入モード）", action: HelpAction::EditCurrent });
    v.push(HelpEntry { key: "k / ↑", canonical_key: "", desc: "カーソル上移動", action: HelpAction::MoveUp });
    v.push(HelpEntry { key: "O", canonical_key: "O", desc: "上に新行を挿入して編集", action: HelpAction::InsertAbove });
    v.push(HelpEntry { key: "zm", canonical_key: "zm", desc: "折りたたむ（行頭space行を非表示）", action: HelpAction::Fold });
    v.push(HelpEntry { key: "o", canonical_key: "o", desc: "下に新行を挿入して編集", action: HelpAction::InsertBelow });
    v.push(HelpEntry { key: "zr", canonical_key: "zr", desc: "折りたたみを解除", action: HelpAction::Unfold });
    v.push(HelpEntry { key: "dd", canonical_key: "dd", desc: "現在行を削除", action: HelpAction::DeleteLine });
    v.push(HelpEntry { key: "l / gt", canonical_key: "gt", desc: "次のタブへ移動", action: HelpAction::TabNext });
    v.push(HelpEntry { key: "P", canonical_key: "P", desc: "ヤンクバッファを上にペースト", action: HelpAction::PasteAbove });
    v.push(HelpEntry { key: "gT", canonical_key: "gT", desc: "前のタブへ移動", action: HelpAction::TabPrev });
    v.push(HelpEntry { key: "p", canonical_key: "p", desc: "ヤンクバッファを下にペースト", action: HelpAction::PasteBelow });
    v.push(HelpEntry { key: "Space", canonical_key: " ", desc: "現在行を再生", action: HelpAction::PlayCurrent });
    v.push(HelpEntry { key: ":tabnew", canonical_key: ":tabnew", desc: "新しいタブを作成", action: HelpAction::TabNew });
    v.push(HelpEntry { key: "Enter", canonical_key: "", desc: "下へ移動（j と同じ）", action: HelpAction::NoAction });
    v.push(HelpEntry { key: "v", canonical_key: "v", desc: "イントネーション編集モードへ", action: HelpAction::IntonationMode });
    v.push(HelpEntry { key: "s", canonical_key: "s", desc: "speaker/styleを変更", action: HelpAction::SpeakerStyleMode });
    v.push(HelpEntry { key: "\"+P", canonical_key: "\"+P", desc: "クリップボードを上にペースト", action: HelpAction::PasteAboveClipboard });
    v.push(HelpEntry { key: "n j/k", canonical_key: "", desc: "n行分移動（例: 5j）", action: HelpAction::NoAction });
    v.push(HelpEntry { key: "?", canonical_key: "", desc: "ヘルプメニューを開く", action: HelpAction::NoAction });
    v.push(HelpEntry { key: "q", canonical_key: "q", desc: "終了", action: HelpAction::Quit });
    v.push(HelpEntry { key: "\"+p", canonical_key: "\"+p", desc: "クリップボードを下にペースト", action: HelpAction::PasteBelowClipboard });
    assert(keys_view(v@) =~= spec_help_keys());
    v
}

fn starts_with_chars(a: &[char], p: &[char]) -> (b: bool)
    ensures
        b == has_prefix(a@, p@),
{
    if p.len() > a.len() {
        return false;
    }
    let mut i: usize = 0;
    while i < p.len()
        invariant
            i <= p@.len() <= a@.len(),
            forall|k: int| 0 <= k < i ==> a@[k] == p@[k],
        decreases p.len() - i,
    {
        if a[i] != p[i] {
            assert(a@.subrange(0, p@.len() as int)[i as int] != p@[i as int]);
            return false;
        }
        i = i + 1;
    }
    assert(a@.subrange(0, p@.len() as int) =~= p@);
    true
}

/// Typing `s` in help mode against `entries`: appends `s` to `buf` and
/// answers the action of the entry whose key is then complete, if any (see
/// `spec_append` for what becomes of the buffer).
pub fn help_append_key_in(entries: &Vec<HelpEntry>, buf: &mut String, s: &str) -> (r: Option<HelpAction>)
    ensures
        (final(buf)@, r) == spec_append(keys_view(entries@), old(buf)@ + s@),
{
    crate::text::push_str(buf, s);
    let ghost es = keys_view(entries@);
    let b = chars_of(buf.as_str());
    let mut exact: Option<HelpAction> = None;
    let mut has_prefix_match = false;
    let mut i: usize = 0;
    while i < entries.len()
        invariant
            i <= entries@.len(),
            es == keys_view(entries@),
            b@ == buf@,
            b@ == old(buf)@ + s@,
            exact is None,
            exact_from(es, b@, 0) == exact_from(es, b@, i as int),
            has_prefix_match == exists|k: int|
                0 <= k < i && es[k].0.len() > 0 && #[trigger] has_prefix(es[k].0, b@),
        decreases entries.len() - i,
    {
        let key = chars_of(entries[i].canonical_key);
        assert(es[i as int] == (entries@[i as int].canonical_key@, entries@[i as int].action));
        if key.len() > 0 {
            if crate::text::chars_eq(key.as_slice(), b.as_slice()) {
                let a = entries[i].action;
                *buf = String::new();
                assert(buf@ =~= Seq::<char>::empty());
                return Some(a);
            }
            if starts_with_chars(key.as_slice(), b.as_slice()) {
                has_prefix_match = true;
            }
        }
        i = i + 1;
    }
    assert(has_prefix_match == some_prefix(es, b@));
    if !has_prefix_match {
        *buf = String::new();
        assert(buf@ =~= Seq::<char>::empty());
    }
    None
}

/// Typing `s` in help mode against the help menu.
pub fn help_append_key(buf: &mut String, s: &str) -> (r: Option<HelpAction>)
    ensures
        (final(buf)@, r) == spec_append(spec_help_keys(), old(buf)@ + s@),
{
    let entries = help_entries();
    help_append_key_in(&entries, buf, s)
}

/// Indices of the entries whose non-empty canonical key starts with `buf`;
/// nothing for an empty buffer.
pub fn help_matching_indices_in(entries: &Vec<HelpEntry>, buf: &str) -> (r: Vec<usize>)
    ensures
        buf@.len() == 0 ==> r@.len() == 0,
        buf@.len() > 0 ==> forall|k: int|
            0 <= k < r@.len() ==> #[trigger] r@[k] < entries@.len() && keys_view(entries@)[r@[k] as int].0.len() > 0
                && has_prefix(keys_view(entries@)[r@[k] as int].0, buf@),
        buf@.len() > 0 ==> forall|i: int|
            0 <= i < entries@.len() && keys_view(entries@)[i].0.len() > 0 && #[trigger] has_prefix(
                keys_view(entries@)[i].0,
                buf@,
            ) ==> r@.contains(i as usize),
        forall|a: int, b: int| 0 <= a < b < r@.len() ==> #[trigger] r@[a] < #[trigger] r@[b],
{
    let mut r: Vec<usize> = Vec::new();
    let b = chars_of(buf);
    if b.len() == 0 {
        return r;
    }
    let ghost es = keys_view(entries@);
    let mut i: usize = 0;
    while i < entries.len()
        invariant
            i <= entries@.len(),
            es == keys_view(entries@),
            b@ == buf@,
            forall|k: int|
                0 <= k < r@.len() ==> #[trigger] r@[k] < i && es[r@[k] as int].0.len() > 0
                    && has_prefix(es[r@[k] as int].0, buf@),
            forall|j: int|
                0 <= j < i && es[j].0.len() > 0 && #[trigger] has_prefix(es[j].0, buf@) ==> r@.contains(j as usize),
            forall|x: int, y: int| 0 <= x < y < r@.len() ==> #[trigger] r@[x] < #[trigger] r@[y],
        decreases entries.len() - i,
    {
        let key = chars_of(entries[i].canonical_key);
        assert(es[i as int] == (entries@[i as int].canonical_key@, entries@[i as int].action));
        if key.len() > 0 && starts_with_chars(key.as_slice(), b.as_slice()) {
            let ghost old_r = r@;
            r.push(i);
            assert forall|j: int|
                0 <= j <= i && es[j].0.len() > 0 && #[trigger] has_prefix(es[j].0, buf@) implies r@.contains(j as usize) by {
                if j < i {
                    let k = choose|k: int| 0 <= k < old_r.len() && old_r[k] == j as usize;
                    assert(r@[k] == old_r[k]);
                } else {
                    assert(r@[r@.len() - 1] == j as usize);
                }
            }
        }
        i = i + 1;
    }
    r
}

/// Indices of the help-menu entries that the typed keys `buf` can still complete.
pub fn help_matching_indices(buf: &str) -> (r: Vec<usize>)
    ensures
        buf@.len() == 0 ==> r@.len() == 0,
        buf@.len() > 0 ==> forall|k: int|
            0 <= k < r@.len() ==> #[trigger] r@[k] < spec_help_keys().len() && spec_help_keys()[r@[k] as int].0.len() > 0
                && has_prefix(spec_help_keys()[r@[k] as int].0, buf@),
        buf@.len() > 0 ==> forall|i: int|
            0 <= i < spec_help_keys().len() && spec_help_keys()[i].0.len() > 0 && #[trigger] has_prefix(
                spec_help_keys()[i].0,
                buf@,
            ) ==> r@.contains(i as usize),
        forall|a: int, b: int| 0 <= a < b < r@.len() ==> #[trigger] r@[a] < #[trigger] r@[b],
{
    let entries = help_entries();
    help_matching_indices_in(&entries, buf)
}

} // verus!
