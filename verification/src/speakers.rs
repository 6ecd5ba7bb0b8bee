//! The speaker table built from the engine's `GET /speakers` answer.
//! A `[N]` tag names the style whose style id is `N`.

use vstd::prelude::*;

use crate::text::{chars_of};

verus! {

/// One style of a speaker, as the engine lists it.
pub struct SpeakerStyle {
    pub name: String,
    pub id: u32,
}

/// One speaker and its styles, in the engine's order.
pub struct Speaker {
    pub name: String,
    pub styles: Vec<SpeakerStyle>,
}

/// One (character, style, style id) triple of the table, in the engine's order.
pub struct StyleEntry {
    pub char_name: String,
    pub style_name: String,
    pub id: u32,
}

/// Lookup table over all speakers and styles.
///
/// `entries` holds every style in the engine's order; a lookup by id or by
/// (character, style) answers with the last matching entry, the way a map
/// filled in that order would, and a character's first style is its first
/// entry.
pub struct SpeakerTable {
    pub entries: Vec<StyleEntry>,
    /// Character names in order of first appearance, without duplicates.
    pub char_names: Vec<String>,
    /// All style names, sorted, without duplicates.
    pub style_names: Vec<String>,
    pub default_id: u32,
    pub default_char: String,
    pub default_style: String,
    /// Base URL of the engine the table was read from.
    pub base_url: String,
}

pub struct EntryView {
    pub char_name: Seq<char>,
    pub style_name: Seq<char>,
    pub id: u32,
}

pub struct TableView {
    pub entries: Seq<EntryView>,
    pub char_names: Seq<Seq<char>>,
    pub style_names: Seq<Seq<char>>,
    pub default_id: u32,
    pub default_char: Seq<char>,
    pub default_style: Seq<char>,
}

impl View for StyleEntry {
    type V = EntryView;

    open spec fn view(&self) -> EntryView {
        EntryView { char_name: self.char_name@, style_name: self.style_name@, id: self.id }
    }
}

pub open spec fn names_view(v: Seq<String>) -> Seq<Seq<char>> {
    v.map_values(|s: String| s@)
}

pub open spec fn entries_view(v: Seq<StyleEntry>) -> Seq<EntryView> {
    v.map_values(|e: StyleEntry| e@)
}

impl View for SpeakerTable {
    type V = TableView;

    open spec fn view(&self) -> TableView {
        TableView {
            entries: entries_view(self.entries@),
            char_names: names_view(self.char_names@),
            style_names: names_view(self.style_names@),
            default_id: self.default_id,
            default_char: self.default_char@,
            default_style: self.default_style@,
        }
    }
}

/// Index of the last entry with style id `id`.
pub open spec fn last_with_id(es: Seq<EntryView>, id: u32) -> Option<int>
    decreases es.len(),
{
    if es.len() == 0 {
        None
    } else if es.last().id == id {
        Some(es.len() - 1)
    } else {
        last_with_id(es.drop_last(), id)
    }
}

/// Index of the last entry for character `c` and style `s`.
pub open spec fn last_with_name(es: Seq<EntryView>, c: Seq<char>, s: Seq<char>) -> Option<int>
    decreases es.len(),
{
    if es.len() == 0 {
        None
    } else if es.last().char_name == c && es.last().style_name == s {
        Some(es.len() - 1)
    } else {
        last_with_name(es.drop_last(), c, s)
    }
}

/// Index of the first entry for character `c`.
pub open spec fn first_with_char(es: Seq<EntryView>, c: Seq<char>) -> Option<int>
    decreases es.len(),
{
    if es.len() == 0 {
        None
    } else {
        match first_with_char(es.drop_last(), c) {
            Some(i) => Some(i),
            None => if es.last().char_name == c {
                Some(es.len() - 1)
            } else {
                None
            },
        }
    }
}

impl TableView {
    /// `[N]`: the (character, style, id) whose style id is `id`.
    pub open spec fn resolve_by_id(self, id: u32) -> Option<(Seq<char>, Seq<char>, u32)> {
        match last_with_id(self.entries, id) {
            Some(i) => Some((self.entries[i].char_name, self.entries[i].style_name, id)),
            None => None,
        }
    }

    /// The style id of (character, style).
    pub open spec fn resolve_by_name(self, c: Seq<char>, s: Seq<char>) -> Option<u32> {
        match last_with_name(self.entries, c, s) {
            Some(i) => Some(self.entries[i].id),
            None => None,
        }
    }

    /// A character's first style in the engine's order: (style name, style id).
    pub open spec fn first_style_of(self, c: Seq<char>) -> Option<(Seq<char>, u32)> {
        match first_with_char(self.entries, c) {
            Some(i) => Some((self.entries[i].style_name, self.entries[i].id)),
            None => None,
        }
    }

    pub open spec fn is_char_name(self, n: Seq<char>) -> bool {
        self.char_names.contains(n)
    }

    pub open spec fn is_style_name(self, n: Seq<char>) -> bool {
        self.style_names.contains(n)
    }

    pub open spec fn has_style_id(self, id: u32) -> bool {
        last_with_id(self.entries, id) is Some
    }
}

// ── how the table is built ─────────────────────────────────────────────────

pub open spec fn style_entries_of(name: Seq<char>, styles: Seq<SpeakerStyle>) -> Seq<EntryView> {
    styles.map_values(|st: SpeakerStyle| EntryView { char_name: name, style_name: st.name@, id: st.id })
}

/// All styles of all speakers, flattened in order.
pub open spec fn flatten_speakers(sp: Seq<Speaker>) -> Seq<EntryView>
    decreases sp.len(),
{
    if sp.len() == 0 {
        Seq::empty()
    } else {
        flatten_speakers(sp.drop_last()) + style_entries_of(sp.last().name@, sp.last().styles@)
    }
}

/// The sequence without repeats, first occurrences kept in order.
pub open spec fn dedup(s: Seq<Seq<char>>) -> Seq<Seq<char>>
    decreases s.len(),
{
    if s.len() == 0 {
        Seq::empty()
    } else {
        let d = dedup(s.drop_last());
        if d.contains(s.last()) {
            d
        } else {
            d.push(s.last())
        }
    }
}

pub open spec fn speaker_names(sp: Seq<Speaker>) -> Seq<Seq<char>> {
    sp.map_values(|s: Speaker| s.name@)
}

/// Code-point lexicographic order, which is the order of `String`.
pub open spec fn lex_lt(a: Seq<char>, b: Seq<char>) -> bool
    decreases a.len(),
{
    if a.len() == 0 {
        b.len() > 0
    } else if b.len() == 0 {
        false
    } else if (a[0] as int) < (b[0] as int) {
        true
    } else if a[0] == b[0] {
        lex_lt(a.drop_first(), b.drop_first())
    } else {
        false
    }
}

pub open spec fn strictly_sorted(s: Seq<Seq<char>>) -> bool {
    forall|i: int, j: int| 0 <= i < j < s.len() ==> lex_lt(#[trigger] s[i], #[trigger] s[j])
}

/// The default voice: style id 3 when the engine has it, else the first style,
/// else nothing.
pub open spec fn default_voice(es: Seq<EntryView>) -> (u32, Seq<char>, Seq<char>) {
    match last_with_id(es, 3) {
        Some(i) => (3, es[i].char_name, es[i].style_name),
        None => if es.len() > 0 {
            (es[0].id, es[0].char_name, es[0].style_name)
        } else {
            (0, Seq::empty(), Seq::empty())
        },
    }
}

// ── lemmas ─────────────────────────────────────────────────────────────────

proof fn lemma_first_with_char_prefix(es: Seq<EntryView>, c: Seq<char>, k: int)
    requires
        0 <= k <= es.len(),
        first_with_char(es.take(k), c) is Some,
    ensures
        first_with_char(es, c) == first_with_char(es.take(k), c),
    decreases es.len(),
{
    if es.len() > k {
        assert(es.drop_last().take(k) =~= es.take(k));
        lemma_first_with_char_prefix(es.drop_last(), c, k);
    } else {
        assert(es.take(k) =~= es);
    }
}

/// What `last_with_id` finds is an entry with that id, and it finds one
/// whenever there is one.
pub proof fn lemma_last_with_id(es: Seq<EntryView>, id: u32)
    ensures
        match last_with_id(es, id) {
            Some(i) => 0 <= i < es.len() && es[i].id == id,
            None => forall|j: int| 0 <= j < es.len() ==> #[trigger] es[j].id != id,
        },
    decreases es.len(),
{
    if es.len() > 0 && es.last().id != id {
        let d = es.drop_last();
        lemma_last_with_id(d, id);
        if last_with_id(d, id) is None {
            assert forall|j: int| 0 <= j < es.len() implies #[trigger] es[j].id != id by {
                if j < d.len() {
                    assert(es[j] == d[j]);
                }
            }
        }
    }
}

/// What `last_with_name` finds is an entry with that character and style,
/// and it finds one whenever there is one.
pub proof fn lemma_last_with_name(es: Seq<EntryView>, c: Seq<char>, s: Seq<char>)
    ensures
        match last_with_name(es, c, s) {
            Some(i) => 0 <= i < es.len() && es[i].char_name == c && es[i].style_name == s,
            None => forall|j: int| 0 <= j < es.len() ==> !(#[trigger] es[j].char_name == c && es[j].style_name == s),
        },
    decreases es.len(),
{
    if es.len() > 0 && !(es.last().char_name == c && es.last().style_name == s) {
        let d = es.drop_last();
        lemma_last_with_name(d, c, s);
        if last_with_name(d, c, s) is None {
            assert forall|j: int| 0 <= j < es.len() implies !(#[trigger] es[j].char_name == c && es[j].style_name
                == s) by {
                if j < d.len() {
                    assert(es[j] == d[j]);
                }
            }
        }
    }
}

/// What `first_with_char` finds is an entry of that character, and it finds
/// one whenever there is one.
pub proof fn lemma_first_with_char(es: Seq<EntryView>, c: Seq<char>)
    ensures
        match first_with_char(es, c) {
            Some(i) => 0 <= i < es.len() && es[i].char_name == c,
            None => forall|j: int| 0 <= j < es.len() ==> #[trigger] es[j].char_name != c,
        },
    decreases es.len(),
{
    if es.len() > 0 {
        let d = es.drop_last();
        lemma_first_with_char(d, c);
        if first_with_char(d, c) is None {
            assert forall|j: int| 0 <= j < es.len() - 1 implies #[trigger] es[j].char_name != c by {
                assert(es[j] == d[j]);
            }
        } else {
            assert(es[first_with_char(d, c)->0] == d[first_with_char(d, c)->0]);
        }
    }
}

impl TableView {
    /// The two lookups agree on every entry: its (character, style)
    /// resolves to its id, and its id resolves to its (character, style).
    /// Entries listed twice are allowed; two entries that share a name but
    /// not an id (or the other way round) are not.
    pub open spec fn lookups_agree(self) -> bool {
        forall|i: int|
            0 <= i < self.entries.len() ==> {
                let e = #[trigger] self.entries[i];
                &&& self.resolve_by_name(e.char_name, e.style_name) == Some(e.id)
                &&& self.resolve_by_id(e.id) == Some((e.char_name, e.style_name, e.id))
            }
    }
}

/// Lookup by id and lookup by name are inverse: `[id]` resolves to
/// (`c`, `s`, `id`) exactly when (`c`, `s`) resolves to `id`, when the two
/// lookups agree on every entry; and what a lookup by id answers carries
/// the id it was asked for.
pub proof fn lemma_lookups_inverse(t: TableView, c: Seq<char>, s: Seq<char>, id: u32)
    requires
        t.lookups_agree(),
    ensures
        t.resolve_by_id(id) == Some((c, s, id)) <==> t.resolve_by_name(c, s) == Some(id),
        t.resolve_by_id(id) matches Some(r) ==> r.2 == id,
{
    lemma_last_with_id(t.entries, id);
    lemma_last_with_name(t.entries, c, s);
    match last_with_id(t.entries, id) {
        Some(i) => {
            let e = t.entries[i];
            assert(t.resolve_by_name(e.char_name, e.style_name) == Some(e.id));
        },
        None => {},
    }
    match last_with_name(t.entries, c, s) {
        Some(k) => {
            let e = t.entries[k];
            assert(t.resolve_by_id(e.id) == Some((e.char_name, e.style_name, e.id)));
        },
        None => {},
    }
}

pub proof fn lemma_lex_trichotomy(a: Seq<char>, b: Seq<char>)
    ensures
        a == b || lex_lt(a, b) || lex_lt(b, a),
    decreases a.len(),
{
    if a.len() > 0 && b.len() > 0 && a[0] == b[0] {
        lemma_lex_trichotomy(a.drop_first(), b.drop_first());
        if a.drop_first() == b.drop_first() {
            assert forall|i: int| 0 <= i < a.len() implies a[i] == b[i] by {
                if i > 0 {
                    assert(a[i] == a.drop_first()[i - 1]);
                    assert(b[i] == b.drop_first()[i - 1]);
                }
            }
            assert(a =~= b);
        }
    } else if a.len() == 0 && b.len() == 0 {
        assert(a =~= b);
    } else if a.len() > 0 && b.len() > 0 {
        assert((a[0] as int) < (b[0] as int) || (b[0] as int) < (a[0] as int));
    }
}

pub proof fn lemma_lex_irreflexive(a: Seq<char>)
    ensures
        !lex_lt(a, a),
    decreases a.len(),
{
    if a.len() > 0 {
        lemma_lex_irreflexive(a.drop_first());
    }
}

pub proof fn lemma_lex_transitive(a: Seq<char>, b: Seq<char>, c: Seq<char>)
    requires
        lex_lt(a, b),
        lex_lt(b, c),
    ensures
        lex_lt(a, c),
    decreases a.len(),
{
    if a.len() > 0 && b.len() > 0 && c.len() > 0 && a[0] == b[0] && b[0] == c[0] {
        lemma_lex_transitive(a.drop_first(), b.drop_first(), c.drop_first());
    }
}

// ── executable lookups ─────────────────────────────────────────────────────

/// Whether `v` holds a string equal to `x`.
pub fn contains_name(v: &Vec<String>, x: &String) -> (b: bool)
    ensures
        b == names_view(v@).contains(x@),
{
    let mut i: usize = 0;
    while i < v.len()
        invariant
            i <= v@.len(),
            forall|k: int| 0 <= k < i ==> v@[k]@ != x@,
        decreases v.len() - i,
    {
        if v[i] == *x {
            assert(names_view(v@)[i as int] == x@);
            return true;
        }
        i = i + 1;
    }
    assert forall|k: int| 0 <= k < names_view(v@).len() implies names_view(v@)[k] != x@ by {
        assert(names_view(v@)[k] == v@[k]@);
    }
    false
}

pub(crate) fn lex_less(a: &[char], b: &[char]) -> (r: bool)
    ensures
        r == lex_lt(a@, b@),
{
    let mut i: usize = 0;
    assert(a@.skip(0) =~= a@);
    assert(b@.skip(0) =~= b@);
    while i < a.len() && i < b.len() && a[i] == b[i]
        invariant
            i <= a@.len(),
            i <= b@.len(),
            lex_lt(a@, b@) == lex_lt(a@.skip(i as int), b@.skip(i as int)),
        decreases a.len() - i,
    {
        assert(a@.skip(i as int).drop_first() =~= a@.skip(i + 1));
        assert(b@.skip(i as int).drop_first() =~= b@.skip(i + 1));
        i = i + 1;
    }
    if i == a.len() {
        i < b.len()
    } else if i == b.len() {
        false
    } else {
        a[i] < b[i]
    }
}

fn name_less(a: &String, xc: &[char]) -> (r: bool)
    ensures
        r == lex_lt(a@, xc@),
{
    let ac = chars_of(a.as_str());
    lex_less(ac.as_slice(), xc)
}

impl SpeakerTable {
    /// (character, style) → style id.
    pub fn resolve_by_name(&self, char_name: &str, style_name: &str) -> (r: Option<u32>)
        ensures
            r == self@.resolve_by_name(char_name@, style_name@),
    {
        let c = char_name.to_owned();
        let s = style_name.to_owned();
        let ghost es = self@.entries;
        let mut j = self.entries.len();
        assert(es.take(j as int) =~= es);
        while j > 0
            invariant
                j <= self.entries@.len(),
                es == self@.entries,
                c@ == char_name@,
                s@ == style_name@,
                last_with_name(es, c@, s@) == last_with_name(es.take(j as int), c@, s@),
            decreases j,
        {
            assert(es.take(j as int).drop_last() =~= es.take(j - 1));
            assert(es[j - 1] == self.entries@[j - 1]@);
            if self.entries[j - 1].char_name == c && self.entries[j - 1].style_name == s {
                return Some(self.entries[j - 1].id);
            }
            j = j - 1;
        }
        None
    }

    /// `[N]`: style id → (character, style, style id).
    pub fn resolve_by_id(&self, id: u32) -> (r: Option<(String, String, u32)>)
        ensures
            match r {
                Some(t) => self@.resolve_by_id(id) == Some((t.0@, t.1@, t.2)),
                None => self@.resolve_by_id(id) is None,
            },
    {
        match self.find_id(id) {
            Some(i) => Some(
                (self.entries[i].char_name.clone(), self.entries[i].style_name.clone(), id),
            ),
            None => None,
        }
    }

    /// Index of the entry that `[id]` resolves to.
    pub fn find_id(&self, id: u32) -> (r: Option<usize>)
        ensures
            match r {
                Some(i) => last_with_id(self@.entries, id) == Some(i as int) && i
                    < self.entries@.len(),
                None => last_with_id(self@.entries, id) is None,
            },
    {
        let ghost es = self@.entries;
        let mut j = self.entries.len();
        assert(es.take(j as int) =~= es);
        while j > 0
            invariant
                j <= self.entries@.len(),
                es == self@.entries,
                last_with_id(es, id) == last_with_id(es.take(j as int), id),
            decreases j,
        {
            assert(es.take(j as int).drop_last() =~= es.take(j - 1));
            assert(es[j - 1] == self.entries@[j - 1]@);
            if self.entries[j - 1].id == id {
                return Some(j - 1);
            }
            j = j - 1;
        }
        None
    }

    /// Index of a character's first style entry.
    pub fn find_first_style(&self, char_name: &String) -> (r: Option<usize>)
        ensures
            match r {
                Some(i) => first_with_char(self@.entries, char_name@) == Some(i as int) && i
                    < self.entries@.len(),
                None => first_with_char(self@.entries, char_name@) is None,
            },
    {
        let ghost es = self@.entries;
        let mut i: usize = 0;
        assert(es.take(0) =~= Seq::<EntryView>::empty());
        while i < self.entries.len()
            invariant
                i <= self.entries@.len(),
                es == self@.entries,
                first_with_char(es.take(i as int), char_name@) is None,
            decreases self.entries.len() - i,
        {
            assert(es.take(i + 1).drop_last() =~= es.take(i as int));
            assert(es[i as int] == self.entries@[i as int]@);
            if self.entries[i].char_name == *char_name {
                proof {
                    lemma_first_with_char_prefix(es, char_name@, i + 1);
                }
                return Some(i);
            }
            i = i + 1;
        }
        assert(es.take(i as int) =~= es);
        None
    }

    /// Whether `n` is a character name of the table.
    pub fn is_char_name(&self, n: &String) -> (b: bool)
        ensures
            b == self@.is_char_name(n@),
    {
        contains_name(&self.char_names, n)
    }

    /// Whether `n` is a style name of the table.
    pub fn is_style_name(&self, n: &String) -> (b: bool)
        ensures
            b == self@.is_style_name(n@),
    {
        contains_name(&self.style_names, n)
    }

    /// Builds the table from the engine's speaker list.
    pub fn from_speakers(speakers: Vec<Speaker>, base_url: String) -> (t: SpeakerTable)
        ensures
            t@.entries == flatten_speakers(speakers@),
            t@.char_names == dedup(speaker_names(speakers@)),
            strictly_sorted(t@.style_names),
            forall|x: Seq<char>|
                #![trigger t@.style_names.contains(x)]
                t@.style_names.contains(x) <==> exists|k: int|
                    0 <= k < t@.entries.len() && #[trigger] t@.entries[k].style_name == x,
            (t@.default_id, t@.default_char, t@.default_style) == default_voice(t@.entries),
            t.base_url@ == base_url@,
    {
        let mut entries: Vec<StyleEntry> = Vec::new();
        let mut char_names: Vec<String> = Vec::new();
        let mut style_names: Vec<String> = Vec::new();
        let mut i: usize = 0;
        assert(speakers@.take(0) =~= Seq::<Speaker>::empty());
        assert(speaker_names(speakers@.take(0)) =~= Seq::<Seq<char>>::empty());
        while i < speakers.len()
            invariant
                i <= speakers@.len(),
                entries_view(entries@) == flatten_speakers(speakers@.take(i as int)),
                names_view(char_names@) == dedup(speaker_names(speakers@.take(i as int))),
                strictly_sorted(names_view(style_names@)),
                forall|x: Seq<char>|
                    #![trigger names_view(style_names@).contains(x)]
                    names_view(style_names@).contains(x) <==> exists|k: int|
                        0 <= k < entries@.len() && #[trigger] entries@[k].style_name@ == x,
            decreases speakers.len() - i,
        {
            let sp = &speakers[i];
            let ghost before = entries_view(entries@);
            assert(speakers@.take(i + 1).drop_last() =~= speakers@.take(i as int));
            assert(speaker_names(speakers@.take(i + 1)).drop_last() =~= speaker_names(
                speakers@.take(i as int),
            ));
            if !contains_name(&char_names, &sp.name) {
                char_names.push(sp.name.clone());
                assert(names_view(char_names@) =~= dedup(speaker_names(speakers@.take(i as int))).push(sp.name@));
            }
            let mut k: usize = 0;
            while k < sp.styles.len()
                invariant
                    k <= sp.styles@.len(),
                    sp == &speakers@[i as int],
                    entries_view(entries@) == before + style_entries_of(
                        sp.name@,
                        sp.styles@.take(k as int),
                    ),
                    strictly_sorted(names_view(style_names@)),
                    forall|x: Seq<char>|
                        #![trigger names_view(style_names@).contains(x)]
                        names_view(style_names@).contains(x) <==> exists|m: int|
                            0 <= m < entries@.len() && #[trigger] entries@[m].style_name@ == x,
                decreases sp.styles.len() - k,
            {
                let st = &sp.styles[k];
                let ghost old_entries = entries@;
                let ghost old_names = names_view(style_names@);
                entries.push(
                    StyleEntry {
                        char_name: sp.name.clone(),
                        style_name: st.name.clone(),
                        id: st.id,
                    },
                );
                assert(style_entries_of(sp.name@, sp.styles@.take(k + 1)) =~= style_entries_of(
                    sp.name@,
                    sp.styles@.take(k as int),
                ).push(
                    EntryView { char_name: sp.name@, style_name: sp.styles@[k as int].name@, id: sp.styles@[k as int].id },
                ));
                assert(entries_view(entries@) =~= entries_view(old_entries).push(entries@.last()@));
                insert_sorted_name(&mut style_names, &st.name);
                assert forall|x: Seq<char>|
                    #![trigger names_view(style_names@).contains(x)]
                    names_view(style_names@).contains(x) <==> exists|m: int|
                        0 <= m < entries@.len() && #[trigger] entries@[m].style_name@ == x by {
                    if names_view(style_names@).contains(x) && x != st.name@ {
                        assert(old_names.contains(x));
                        let m = choose|m: int|
                            0 <= m < old_entries.len() && #[trigger] old_entries[m].style_name@ == x;
                        assert(entries@[m] == old_entries[m]);
                    }
                    if x == st.name@ {
                        assert(entries@[entries@.len() - 1].style_name@ == x);
                    }
                    if exists|m: int| 0 <= m < entries@.len() && #[trigger] entries@[m].style_name@ == x {
                        let m = choose|m: int| 0 <= m < entries@.len() && #[trigger] entries@[m].style_name@ == x;
                        if m < old_entries.len() {
                            assert(old_entries[m] == entries@[m]);
                            assert(old_names.contains(x));
                        }
                    }
                }
                k = k + 1;
            }
            assert(sp.styles@.take(sp.styles@.len() as int) =~= sp.styles@);
            i = i + 1;
        }
        assert(speakers@.take(speakers@.len() as int) =~= speakers@);
        assert forall|x: Seq<char>|
            #![trigger names_view(style_names@).contains(x)]
            names_view(style_names@).contains(x) <==> exists|k: int|
                0 <= k < entries_view(entries@).len() && #[trigger] entries_view(entries@)[k].style_name == x by {
            if names_view(style_names@).contains(x) {
                let k = choose|k: int| 0 <= k < entries@.len() && #[trigger] entries@[k].style_name@ == x;
                assert(entries_view(entries@)[k].style_name == x);
            }
            if exists|k: int| 0 <= k < entries_view(entries@).len() && #[trigger] entries_view(entries@)[k].style_name == x {
                let k = choose|k: int| 0 <= k < entries_view(entries@).len() && #[trigger] entries_view(entries@)[k].style_name == x;
                assert(entries@[k].style_name@ == x);
            }
        }
        let mut t = SpeakerTable {
            entries,
            char_names,
            style_names,
            default_id: 0,
            default_char: String::new(),
            default_style: String::new(),
            base_url,
        };
        match t.find_id(3) {
            Some(j) => {
                t.default_id = 3;
                t.default_char = t.entries[j].char_name.clone();
                t.default_style = t.entries[j].style_name.clone();
            },
            None => {
                if t.entries.len() > 0 {
                    t.default_id = t.entries[0].id;
                    t.default_char = t.entries[0].char_name.clone();
                    t.default_style = t.entries[0].style_name.clone();
                }
            },
        }
        t
    }
}

/// Inserts `x` into a strictly sorted list of names unless it is already there.
fn insert_sorted_name(v: &mut Vec<String>, x: &String)
    requires
        strictly_sorted(names_view(old(v)@)),
    ensures
        strictly_sorted(names_view(final(v)@)),
        forall|y: Seq<char>|
            #![trigger names_view(final(v)@).contains(y)]
            names_view(final(v)@).contains(y) <==> (names_view(old(v)@).contains(y) || y == x@),
{
    let xc = chars_of(x.as_str());
    let mut i: usize = 0;
    while i < v.len() && name_less(&v[i], xc.as_slice())
        invariant
            i <= v@.len(),
            v@ == old(v)@,
            xc@ == x@,
            strictly_sorted(names_view(v@)),
            forall|k: int| 0 <= k < i ==> lex_lt(#[trigger] names_view(v@)[k], x@),
        decreases v.len() - i,
    {
        assert(names_view(v@)[i as int] == v@[i as int]@);
        i = i + 1;
    }
    let ghost old_names = names_view(v@);
    if i < v.len() && v[i] == *x {
        assert(old_names[i as int] == x@);
        return;
    }
    proof {
        if i < old_names.len() {
            lemma_lex_trichotomy(old_names[i as int], x@);
        }
    }
    v.insert(i, x.clone());
    let ghost new_names = names_view(v@);
    assert(new_names =~= old_names.insert(i as int, x@));
    assert forall|a: int, b: int| 0 <= a < b < new_names.len() implies lex_lt(
        #[trigger] new_names[a],
        #[trigger] new_names[b],
    ) by {
        if a < i && b == i {
        } else if a < i && b > i {
            assert(old_names[a] == new_names[a]);
            assert(old_names[b - 1] == new_names[b]);
            assert(lex_lt(old_names[a], old_names[b - 1]));
        } else if a == i {
            assert(old_names[b - 1] == new_names[b]);
            if b - 1 > i {
                assert(lex_lt(old_names[i as int], old_names[b - 1]));
                lemma_lex_transitive(x@, old_names[i as int], old_names[b - 1]);
            }
        } else if b < i {
            assert(old_names[a] == new_names[a]);
            assert(old_names[b] == new_names[b]);
        } else {
            assert(old_names[a - 1] == new_names[a]);
            assert(old_names[b - 1] == new_names[b]);
        }
    }
    assert forall|y: Seq<char>|
        #![trigger new_names.contains(y)]
        new_names.contains(y) <==> (old_names.contains(y) || y == x@) by {
        if new_names.contains(y) {
            let k = choose|k: int| 0 <= k < new_names.len() && new_names[k] == y;
            if k < i {
                assert(old_names[k] == y);
            } else if k > i {
                assert(old_names[k - 1] == y);
            }
        }
        if old_names.contains(y) {
            let k = choose|k: int| 0 <= k < old_names.len() && old_names[k] == y;
            if k < i {
                assert(new_names[k] == y);
            } else {
                assert(new_names[k + 1] == y);
            }
        }
        if y == x@ {
            assert(new_names[i as int] == y);
        }
    }
}

} // verus!
