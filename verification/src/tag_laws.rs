//! What holds of voice tags across calls: the voices that parsing gives are
//! real voices of the table, the voice at the end of a line is the voice
//! of what is typed after it, a voice's prefix reads back as that voice,
//! and expanding `[N]` tags twice changes nothing more.

use vstd::prelude::*;

use crate::speakers::{
    dedup, flatten_speakers, lemma_first_with_char, lemma_last_with_id, lemma_last_with_name, last_with_name,
    speaker_names, style_entries_of, Speaker, TableView,
};
use crate::tag::{
    after_tag, apply_class, bracketed, classify, close_index, default_ctx, flush, lemma_close_index_bound,
    expand_from, parse_from, spec_ctx_to_prefix, spec_expand_id_tags, spec_parse_line, spec_split_by_ctx_change,
    spec_tail_ctx, tag_inner,
    tail_from, CtxView, SegView, TagClass,
};
use crate::text::{is_ws, parse_u32, trim};

verus! {

impl TableView {
    /// The lookups agree on every entry (`lookups_agree`), the default
    /// voice is one of the table's voices, and the name lists hold every
    /// entry's names (`names_listed`, which every table built from the
    /// engine's speakers has: see `lemma_built_table_lists_names`).
    pub open spec fn voices_consistent(self) -> bool {
        &&& self.lookups_agree()
        &&& self.names_listed()
        &&& self.resolve_by_name(self.default_char, self.default_style) == Some(self.default_id)
    }

    /// `c` names a voice of the table: its character and style resolve to
    /// its style id.
    pub open spec fn resolves(self, c: CtxView) -> bool {
        self.resolve_by_name(c.char_name, c.style_name) == Some(c.speaker_id)
    }
}

/// Every entry's (character, style) resolves to that entry's id when the
/// lookups agree.
proof fn lemma_entry_resolves(t: TableView, i: int)
    requires
        t.lookups_agree(),
        0 <= i < t.entries.len(),
    ensures
        t.resolve_by_name(t.entries[i].char_name, t.entries[i].style_name) == Some(t.entries[i].id),
{
    let e = t.entries[i];
}

/// A tag turns a real voice into a real voice.
proof fn lemma_apply_class_resolves(t: TableView, ctx: CtxView, tag: Seq<char>)
    requires
        t.lookups_agree(),
        t.resolves(ctx),
    ensures
        t.resolves(apply_class(t, ctx, tag, classify(t, tag))),
{
    match classify(t, tag) {
        TagClass::CharName => {
            lemma_first_with_char(t.entries, tag);
            match crate::speakers::first_with_char(t.entries, tag) {
                Some(i) => lemma_entry_resolves(t, i),
                None => {},
            }
        },
        TagClass::StyleId(id) => {
            lemma_last_with_id(t.entries, id);
            match crate::speakers::last_with_id(t.entries, id) {
                Some(i) => lemma_entry_resolves(t, i),
                None => {},
            }
        },
        _ => {},
    }
}

proof fn lemma_parse_from_resolves(t: TableView, s: Seq<char>, ctx: CtxView, buf: Seq<char>, acc: Seq<SegView>)
    requires
        t.lookups_agree(),
        t.resolves(ctx),
        forall|k: int| 0 <= k < acc.len() ==> t.resolves(#[trigger] acc[k].1),
    ensures
        forall|k: int| 0 <= k < parse_from(t, s, ctx, buf, acc).len() ==> t.resolves(
            #[trigger] parse_from(t, s, ctx, buf, acc)[k].1,
        ),
    decreases s.len(),
{
    let f = flush(acc, buf, ctx);
    assert forall|k: int| 0 <= k < f.len() implies t.resolves(#[trigger] f[k].1) by {
        if k < acc.len() {
            assert(f[k] == acc[k]);
        }
    }
    if s.len() == 0 {
        assert(parse_from(t, s, ctx, buf, acc) == f);
    } else if s[0] != '[' {
        lemma_parse_from_resolves(t, s.drop_first(), ctx, buf.push(s[0]), acc);
        assert(parse_from(t, s, ctx, buf, acc) == parse_from(t, s.drop_first(), ctx, buf.push(s[0]), acc));
    } else {
        let rest = s.drop_first();
        let tag = trim(tag_inner(rest));
        let k = classify(t, tag);
        lemma_close_index_bound(rest);
        if k == TagClass::Unknown {
            lemma_parse_from_resolves(t, after_tag(rest), ctx, buf + bracketed(tag), acc);
            assert(parse_from(t, s, ctx, buf, acc) == parse_from(t, after_tag(rest), ctx, buf + bracketed(tag), acc));
        } else {
            lemma_apply_class_resolves(t, ctx, tag);
            lemma_parse_from_resolves(t, after_tag(rest), apply_class(t, ctx, tag, k), Seq::empty(), f);
            assert(parse_from(t, s, ctx, buf, acc) == parse_from(
                t,
                after_tag(rest),
                apply_class(t, ctx, tag, k),
                Seq::empty(),
                f,
            ));
        }
    }
}

/// Each segment that `parse_line` gives is read with a real voice of the
/// table: its character and style resolve by name to its style id, when
/// the lookups agree on every entry and the default voice is a voice of the
/// table.
pub proof fn lemma_parsed_voices_resolve(t: TableView, line: Seq<char>)
    requires
        t.lookups_agree(),
        t.resolves(default_ctx(t)),
    ensures
        forall|k: int| 0 <= k < spec_parse_line(t, line).len() ==> t.resolves(
            #[trigger] spec_parse_line(t, line)[k].1,
        ),
{
    lemma_parse_from_resolves(t, line, default_ctx(t), Seq::empty(), Seq::empty());
}


/// A name that reads back as itself inside a tag: no brackets in it, no
/// whitespace around it.
pub open spec fn plain_name(n: Seq<char>) -> bool {
    &&& trim(n) == n
    &&& !n.contains('[')
    &&& !n.contains(']')
}

impl TableView {
    /// Every entry's character and style are among the table's names.
    pub open spec fn names_listed(self) -> bool {
        forall|i: int|
            0 <= i < self.entries.len() ==> self.char_names.contains(#[trigger] self.entries[i].char_name)
                && self.style_names.contains(self.entries[i].style_name)
    }

    /// The names are plain (see `plain_name`) and no character name is also
    /// a style name.
    pub open spec fn names_plain(self) -> bool {
        &&& forall|n: Seq<char>| #[trigger] self.char_names.contains(n) ==> plain_name(n)
        &&& forall|n: Seq<char>| #[trigger] self.style_names.contains(n) ==> plain_name(n)
        &&& forall|n: Seq<char>| #[trigger] self.char_names.contains(n) ==> !self.style_names.contains(n)
    }
}

/// The first `]` after a tag's plain name is the one that closes it.
proof fn lemma_close_after_name(n: Seq<char>, r: Seq<char>)
    requires
        !n.contains(']'),
    ensures
        close_index(n + seq![']'] + r) == n.len(),
        tag_inner(n + seq![']'] + r) == n,
        after_tag(n + seq![']'] + r) == r,
    decreases n.len(),
{
    let x = n + seq![']'] + r;
    if n.len() > 0 {
        assert(!n.drop_first().contains(']')) by {
            if n.drop_first().contains(']') {
                let k = choose|k: int| 0 <= k < n.drop_first().len() && n.drop_first()[k] == ']';
                assert(n[k + 1] == ']');
            }
        }
        assert(n[0] != ']');
        lemma_close_after_name(n.drop_first(), r);
        assert(x.drop_first() =~= n.drop_first() + seq![']'] + r);
    }
    assert(x.take(n.len() as int) =~= n);
    assert(x.skip(n.len() as int + 1) =~= r);
}

/// Reading a tag with the plain name `n` in front of `r`.
proof fn lemma_tail_through_tag(t: TableView, n: Seq<char>, r: Seq<char>, ctx: CtxView)
    requires
        plain_name(n),
    ensures
        tail_from(t, bracketed(n) + r, ctx) == tail_from(t, r, apply_class(t, ctx, n, classify(t, n))),
{
    let s = bracketed(n) + r;
    lemma_close_after_name(n, r);
    assert(s.drop_first() =~= n + seq![']'] + r);
    assert(s[0] == '[');
}

/// Reading the prefix that `ctx_to_prefix` writes for a real voice `c`,
/// then `r`, is reading `r` from `c` (under the hypotheses of
/// `lemma_tail_ctx_undoes_prefix`).
proof fn lemma_prefix_then(t: TableView, c: CtxView, r: Seq<char>)
    requires
        t.voices_consistent(),
        t.names_plain(),
        t.resolves(c),
        c.style_name == t.default_style ==> (t.first_style_of(c.char_name) matches Some(f) && f.0 == c.style_name),
    ensures
        tail_from(t, spec_ctx_to_prefix(t, c) + r, default_ctx(t)) == tail_from(t, r, c),
{
    let es = t.entries;
    lemma_last_with_name(es, c.char_name, c.style_name);
    let k = last_with_name(es, c.char_name, c.style_name)->0;
    assert(t.char_names.contains(es[k].char_name));
    assert(t.style_names.contains(es[k].style_name));
    assert(plain_name(c.char_name));
    assert(plain_name(c.style_name));
    assert(!t.char_names.contains(c.style_name));
    let d = default_ctx(t);
    let empty = Seq::<char>::empty();
    // the character tag, when there is one
    let after_char = if c.char_name != t.default_char {
        lemma_first_with_char(es, c.char_name);
        let i = crate::speakers::first_with_char(es, c.char_name)->0;
        lemma_entry_resolves(t, i);
        CtxView { char_name: c.char_name, style_name: es[i].style_name, speaker_id: es[i].id }
    } else {
        d
    };
    assert(after_char.char_name == c.char_name);
    assert(t.resolves(after_char)) by {
        if c.char_name == t.default_char {
        }
    }
    // the style tag, when there is one
    if c.style_name != t.default_style {
        assert(classify(t, c.style_name) == TagClass::StyleName);
        assert(apply_class(t, after_char, c.style_name, TagClass::StyleName) == c);
        lemma_tail_through_tag(t, c.style_name, r, after_char);
        if c.char_name != t.default_char {
            assert(classify(t, c.char_name) == TagClass::CharName);
            lemma_tail_through_tag(t, c.char_name, bracketed(c.style_name) + r, d);
            assert(spec_ctx_to_prefix(t, c) + r =~= bracketed(c.char_name) + (bracketed(c.style_name) + r));
        } else {
            assert(spec_ctx_to_prefix(t, c) + r =~= bracketed(c.style_name) + r);
        }
    } else {
        assert(after_char == c);
        if c.char_name != t.default_char {
            assert(classify(t, c.char_name) == TagClass::CharName);
            lemma_tail_through_tag(t, c.char_name, r, d);
            assert(spec_ctx_to_prefix(t, c) + r =~= bracketed(c.char_name) + r);
        } else {
            assert(spec_ctx_to_prefix(t, c) + r =~= r);
        }
    }
}

/// The tags that `ctx_to_prefix` writes for a voice read back as that
/// voice: `tail_ctx` of the prefix is the voice, when the voice is one of
/// the table's, the table's names are plain, and a voice with
/// the default style name has it as its character's first style. The
/// default voice has no prefix at all.
pub proof fn lemma_tail_ctx_undoes_prefix(t: TableView, c: CtxView)
    requires
        t.voices_consistent(),
        t.names_plain(),
        t.resolves(c),
        c.style_name == t.default_style ==> (t.first_style_of(c.char_name) matches Some(f) && f.0 == c.style_name),
    ensures
        spec_tail_ctx(t, spec_ctx_to_prefix(t, c)) == c,
        spec_ctx_to_prefix(t, default_ctx(t)) == Seq::<char>::empty(),
{
    let empty = Seq::<char>::empty();
    lemma_prefix_then(t, c, empty);
    assert(spec_ctx_to_prefix(t, c) + empty =~= spec_ctx_to_prefix(t, c));
    assert(tail_from(t, empty, c) == c);
    assert(spec_ctx_to_prefix(t, default_ctx(t)) =~= empty);
}

/// Every `[` in `s` has a `]` somewhere after it.
pub open spec fn tags_closed(s: Seq<char>) -> bool {
    forall|i: int| 0 <= i < s.len() && s[i] == '[' ==> exists|j: int| i < j < s.len() && #[trigger] s[j] == ']'
}

proof fn lemma_tags_closed_suffix(s: Seq<char>, k: int)
    requires
        tags_closed(s),
        0 <= k <= s.len(),
    ensures
        tags_closed(s.skip(k)),
{
    let u = s.skip(k);
    assert forall|i: int| 0 <= i < u.len() && u[i] == '[' implies exists|j: int| i < j < u.len() && #[trigger] u[j]
        == ']' by {
        assert(s[i + k] == '[');
        let j = choose|j: int| i + k < j < s.len() && #[trigger] s[j] == ']';
        assert(u[j - k] == ']');
    }
}

/// The first `]` of `a`, when it has one, is the first of `a + b`.
proof fn lemma_close_index_prefix(a: Seq<char>, b: Seq<char>)
    requires
        close_index(a) < a.len(),
    ensures
        close_index(a + b) == close_index(a),
    decreases a.len(),
{
    if a[0] != ']' {
        lemma_close_index_prefix(a.drop_first(), b);
        assert((a + b).drop_first() =~= a.drop_first() + b);
    }
}

/// A line that ends with a non-blank character keeps it when trimmed.
proof fn lemma_trim_keeps_last(s: Seq<char>)
    requires
        s.len() > 0,
        !is_ws(s.last()),
    ensures
        trim(s).len() > 0,
    decreases s.len(),
{
    lemma_trim_start_keeps_last(s);
}

proof fn lemma_trim_start_keeps_last(s: Seq<char>)
    requires
        s.len() > 0,
        !is_ws(s.last()),
    ensures
        crate::text::trim_start(s).len() > 0,
        crate::text::trim_start(s).last() == s.last(),
        crate::text::trim_end(crate::text::trim_start(s)) == crate::text::trim_start(s),
    decreases s.len(),
{
    if is_ws(s[0]) {
        assert(s.len() > 1);
        assert(s.drop_first().last() == s.last());
        lemma_trim_start_keeps_last(s.drop_first());
    }
}

proof fn lemma_parse_extended(t: TableView, s: Seq<char>, x: char, ctx: CtxView, buf: Seq<char>, acc: Seq<SegView>)
    requires
        tags_closed(s),
        x != '[',
        !is_ws(x),
    ensures
        parse_from(t, s.push(x), ctx, buf, acc).len() > 0,
        parse_from(t, s.push(x), ctx, buf, acc).last().1 == tail_from(t, s, ctx),
    decreases s.len(),
{
    let sx = s.push(x);
    if s.len() == 0 {
        assert(sx.drop_first() =~= Seq::<char>::empty());
        assert(buf.push(x).last() == x);
        lemma_trim_keeps_last(buf.push(x));
        assert(parse_from(t, sx.drop_first(), ctx, buf.push(x), acc) == flush(acc, buf.push(x), ctx));
    } else if s[0] != '[' {
        assert(sx.drop_first() =~= s.drop_first().push(x));
        lemma_tags_closed_suffix(s, 1);
        assert(s.skip(1) =~= s.drop_first());
        lemma_parse_extended(t, s.drop_first(), x, ctx, buf.push(s[0]), acc);
    } else {
        let rest0 = s.drop_first();
        let rest = sx.drop_first();
        assert(rest =~= rest0.push(x));
        let j = choose|j: int| 0 < j < s.len() && #[trigger] s[j] == ']';
        assert(rest0[j - 1] == ']');
        lemma_close_index_bound(rest0);
        let ci = close_index(rest0) as int;
        assert(ci < rest0.len());
        lemma_close_index_prefix(rest0, seq![x]);
        assert(rest0 + seq![x] =~= rest);
        assert(tag_inner(rest) =~= tag_inner(rest0));
        assert(after_tag(rest) =~= after_tag(rest0).push(x));
        lemma_tags_closed_suffix(s, ci + 2);
        assert(s.skip(ci + 2) =~= after_tag(rest0));
        let tag = trim(tag_inner(rest0));
        let k = classify(t, tag);
        if k == TagClass::Unknown {
            lemma_parse_extended(t, after_tag(rest0), x, ctx, buf + bracketed(tag), acc);
        } else {
            lemma_parse_extended(t, after_tag(rest0), x, apply_class(t, ctx, tag, k), Seq::empty(), flush(acc, buf, ctx));
        }
    }
}

/// The voice at the end of a line (`tail_ctx`) is the voice that what is
/// typed after it is read with: the last segment of the line extended by a
/// non-blank character other than `[` has that voice, when every `[` in the
/// line is closed.
pub proof fn lemma_tail_ctx_is_next_voice(t: TableView, line: Seq<char>, x: char)
    requires
        tags_closed(line),
        x != '[',
        !is_ws(x),
    ensures
        spec_parse_line(t, line.push(x)).len() > 0,
        spec_parse_line(t, line.push(x)).last().1 == spec_tail_ctx(t, line),
{
    lemma_parse_extended(t, line, x, default_ctx(t), Seq::empty(), Seq::empty());
}


/// A tag whose (trimmed) content is a style id of the table.
pub open spec fn is_id_tag(t: TableView, tag: Seq<char>) -> bool {
    parse_u32(tag) is Some && t.has_style_id(parse_u32(tag)->0)
}

/// Text that `expand_id_tags` leaves as it is: every tag in it is closed
/// and none names a style id.
pub open spec fn inert(t: TableView, s: Seq<char>) -> bool
    decreases s.len(),
{
    if s.len() == 0 {
        true
    } else if s[0] != '[' {
        inert(t, s.drop_first())
    } else {
        let rest = s.drop_first();
        &&& close_index(rest) < rest.len()
        &&& !is_id_tag(t, trim(tag_inner(rest)))
        &&& inert(t, after_tag(rest))
    }
}

impl TableView {
    /// The names of the table's styles cannot be mistaken for tags: none
    /// holds a bracket, and none, trimmed, is a style id of the table.
    pub open spec fn names_not_id_tags(self) -> bool {
        forall|i: int|
            0 <= i < self.entries.len() ==> {
                let e = #[trigger] self.entries[i];
                &&& !e.char_name.contains('[') && !e.char_name.contains(']')
                &&& !e.style_name.contains('[') && !e.style_name.contains(']')
                &&& !is_id_tag(self, trim(e.char_name))
                &&& !is_id_tag(self, trim(e.style_name))
            }
    }
}

proof fn lemma_expand_inert(t: TableView, s: Seq<char>, cur: Seq<char>, out: Seq<char>)
    requires
        inert(t, s),
    ensures
        expand_from(t, s, cur, out) == out + s,
    decreases s.len(),
{
    if s.len() == 0 {
        assert(out + s =~= out);
    } else if s[0] != '[' {
        lemma_expand_inert(t, s.drop_first(), cur, out.push(s[0]));
        assert(out.push(s[0]) + s.drop_first() =~= out + s);
    } else {
        let rest = s.drop_first();
        let inner = tag_inner(rest);
        let tag = trim(inner);
        let next = after_tag(rest);
        lemma_close_index_bound(rest);
        let cur1 = if t.is_char_name(tag) {
            tag
        } else {
            cur
        };
        lemma_expand_inert(t, next, cur1, out + bracketed(inner));
        assert(out + bracketed(inner) + next =~= out + s);
    }
}

proof fn lemma_inert_concat(t: TableView, a: Seq<char>, b: Seq<char>)
    requires
        inert(t, a),
        inert(t, b),
    ensures
        inert(t, a + b),
    decreases a.len(),
{
    if a.len() == 0 {
        assert(a + b =~= b);
    } else if a[0] != '[' {
        lemma_inert_concat(t, a.drop_first(), b);
        assert((a + b).drop_first() =~= a.drop_first() + b);
    } else {
        let ra = a.drop_first();
        let r = (a + b).drop_first();
        assert(r =~= ra + b);
        lemma_close_index_bound(ra);
        lemma_close_index_prefix(ra, b);
        let ci = close_index(ra) as int;
        assert(tag_inner(r) =~= tag_inner(ra));
        assert(after_tag(r) =~= after_tag(ra) + b);
        lemma_inert_concat(t, after_tag(ra), b);
    }
}

proof fn lemma_inert_bracketed(t: TableView, n: Seq<char>)
    requires
        !n.contains(']'),
        !is_id_tag(t, trim(n)),
    ensures
        inert(t, bracketed(n)),
{
    let e = Seq::<char>::empty();
    lemma_close_after_name(n, e);
    let s = bracketed(n);
    assert(s.drop_first() =~= n + seq![']'] + e);
    assert(inert(t, e));
}

proof fn lemma_inert_char(t: TableView, c: char)
    requires
        c != '[',
    ensures
        inert(t, seq![c]),
{
    let s = seq![c];
    assert(s[0] == c);
    assert(s.drop_first() =~= Seq::<char>::empty());
    assert(inert(t, s.drop_first()));
}

proof fn lemma_expand_makes_inert(t: TableView, s: Seq<char>, cur: Seq<char>, out: Seq<char>)
    requires
        t.names_not_id_tags(),
        inert(t, out),
    ensures
        inert(t, expand_from(t, s, cur, out)),
    decreases s.len(),
{
    if s.len() == 0 {
    } else if s[0] != '[' {
        lemma_inert_char(t, s[0]);
        lemma_inert_concat(t, out, seq![s[0]]);
        assert(out + seq![s[0]] =~= out.push(s[0]));
        lemma_expand_makes_inert(t, s.drop_first(), cur, out.push(s[0]));
    } else {
        let rest = s.drop_first();
        let inner = tag_inner(rest);
        let tag = trim(inner);
        let next = after_tag(rest);
        lemma_close_index_bound(rest);
        if parse_u32(tag) is Some && t.has_style_id(parse_u32(tag)->0) {
            let id = parse_u32(tag)->0;
            lemma_last_with_id(t.entries, id);
            let i = crate::speakers::last_with_id(t.entries, id)->0;
            let (c, st, _) = t.resolve_by_id(id)->0;
            assert(c == t.entries[i].char_name && st == t.entries[i].style_name);
            lemma_inert_bracketed(t, c);
            lemma_inert_bracketed(t, st);
            let out1 = if c != cur {
                lemma_inert_concat(t, out, bracketed(c));
                out + bracketed(c)
            } else {
                out
            };
            let out2 = if st != crate::tag::char_default_style(t, c) {
                lemma_inert_concat(t, out1, bracketed(st));
                out1 + bracketed(st)
            } else {
                out1
            };
            lemma_expand_makes_inert(t, next, c, out2);
        } else {
            assert(!inner.contains(']')) by {
                if inner.contains(']') {
                    let k = choose|k: int| 0 <= k < inner.len() && inner[k] == ']';
                    assert(rest[k] == ']');
                }
            }
            lemma_inert_bracketed(t, inner);
            lemma_inert_concat(t, out, bracketed(inner));
            let cur1 = if t.is_char_name(tag) {
                tag
            } else {
                cur
            };
            lemma_expand_makes_inert(t, next, cur1, out + bracketed(inner));
        }
    }
}

/// Expanding `[N]` tags twice gives what expanding once gives, when no
/// name of the table holds a bracket or, trimmed, is a style id.
pub proof fn lemma_expand_id_tags_idempotent(t: TableView, line: Seq<char>)
    requires
        t.names_not_id_tags(),
    ensures
        spec_expand_id_tags(t, spec_expand_id_tags(t, line)) == spec_expand_id_tags(t, line),
{
    let e = Seq::<char>::empty();
    lemma_expand_makes_inert(t, line, t.default_char, e);
    let once = spec_expand_id_tags(t, line);
    lemma_expand_inert(t, once, t.default_char, e);
    assert(e + once =~= once);
}


proof fn lemma_dedup_contains(s: Seq<Seq<char>>, x: Seq<char>)
    requires
        s.contains(x),
    ensures
        dedup(s).contains(x),
    decreases s.len(),
{
    let d = dedup(s.drop_last());
    if s.last() == x {
        if !d.contains(x) {
            assert(d.push(x)[d.len() as int] == x);
        }
    } else {
        let k = choose|k: int| 0 <= k < s.len() && s[k] == x;
        assert(s.drop_last()[k] == x);
        lemma_dedup_contains(s.drop_last(), x);
        if !d.contains(s.last()) {
            let j = choose|j: int| 0 <= j < d.len() && d[j] == x;
            assert(d.push(s.last())[j] == x);
        }
    }
}

proof fn lemma_flatten_names(sp: Seq<Speaker>, k: int)
    requires
        0 <= k < flatten_speakers(sp).len(),
    ensures
        speaker_names(sp).contains(flatten_speakers(sp)[k].char_name),
    decreases sp.len(),
{
    let init = flatten_speakers(sp.drop_last());
    let last = style_entries_of(sp.last().name@, sp.last().styles@);
    assert(flatten_speakers(sp) == init + last);
    assert(speaker_names(sp.drop_last()) =~= speaker_names(sp).drop_last());
    if k < init.len() {
        lemma_flatten_names(sp.drop_last(), k);
        let j = choose|j: int| 0 <= j < speaker_names(sp.drop_last()).len() && speaker_names(sp.drop_last())[j]
            == init[k].char_name;
        assert(speaker_names(sp)[j] == init[k].char_name);
    } else {
        assert(flatten_speakers(sp)[k] == last[k - init.len()]);
        assert(speaker_names(sp)[sp.len() - 1] == sp.last().name@);
    }
}

/// A table built from the engine's speakers (as `SpeakerTable::from_speakers`
/// builds it) lists every entry's character and style names.
pub proof fn lemma_built_table_lists_names(t: TableView, sp: Seq<Speaker>)
    requires
        t.entries == flatten_speakers(sp),
        t.char_names == dedup(speaker_names(sp)),
        forall|x: Seq<char>|
            #![trigger t.style_names.contains(x)]
            t.style_names.contains(x) <==> exists|k: int| 0 <= k < t.entries.len() && #[trigger] t.entries[k].style_name
                == x,
    ensures
        t.names_listed(),
{
    assert forall|i: int| 0 <= i < t.entries.len() implies t.char_names.contains(#[trigger] t.entries[i].char_name)
        && t.style_names.contains(t.entries[i].style_name) by {
        lemma_flatten_names(sp, i);
        lemma_dedup_contains(speaker_names(sp), t.entries[i].char_name);
        assert(t.style_names.contains(t.entries[i].style_name));
    }
}


// ── splitting a line where its voice changes ──────────────────────────────

proof fn lemma_trim_start_idem(s: Seq<char>)
    ensures
        crate::text::trim_start(crate::text::trim_start(s)) == crate::text::trim_start(s),
        crate::text::trim_start(s).len() > 0 ==> !is_ws(crate::text::trim_start(s)[0]),
    decreases s.len(),
{
    if s.len() > 0 && is_ws(s[0]) {
        lemma_trim_start_idem(s.drop_first());
    }
}

proof fn lemma_trim_end_prefix(u: Seq<char>)
    ensures
        crate::text::trim_end(u) == u.take(crate::text::trim_end(u).len() as int),
        crate::text::trim_end(u).len() <= u.len(),
        crate::text::trim_end(u).len() > 0 ==> !is_ws(crate::text::trim_end(u).last()),
        crate::text::trim_end(crate::text::trim_end(u)) == crate::text::trim_end(u),
    decreases u.len(),
{
    if u.len() > 0 && is_ws(u.last()) {
        lemma_trim_end_prefix(u.drop_last());
        let r = crate::text::trim_end(u.drop_last());
        assert(u.drop_last().take(r.len() as int) =~= u.take(r.len() as int));
    } else {
        assert(u.take(u.len() as int) =~= u);
    }
}

/// Trimming twice is trimming once.
proof fn lemma_trim_idem(s: Seq<char>)
    ensures
        trim(trim(s)) == trim(s),
{
    let a = crate::text::trim_start(s);
    lemma_trim_start_idem(s);
    lemma_trim_end_prefix(a);
    let b = crate::text::trim_end(a);
    if b.len() > 0 {
        assert(b[0] == a[0]);
        assert(crate::text::trim_start(b) == b);
    } else {
        assert(crate::text::trim_start(b) == b);
    }
}

/// Text that changes no voice: every tag in it is closed and names
/// nothing the table knows.
pub open spec fn voiceless(t: TableView, s: Seq<char>) -> bool
    decreases s.len(),
{
    if s.len() == 0 {
        true
    } else if s[0] != '[' {
        voiceless(t, s.drop_first())
    } else {
        let rest = s.drop_first();
        &&& close_index(rest) < rest.len()
        &&& classify(t, trim(tag_inner(rest))) == TagClass::Unknown
        &&& voiceless(t, after_tag(rest))
    }
}

proof fn lemma_voiceless_keeps_voice(t: TableView, s: Seq<char>, ctx: CtxView)
    requires
        voiceless(t, s),
    ensures
        tail_from(t, s, ctx) == ctx,
    decreases s.len(),
{
    if s.len() > 0 {
        if s[0] != '[' {
            lemma_voiceless_keeps_voice(t, s.drop_first(), ctx);
        } else {
            let rest = s.drop_first();
            lemma_close_index_bound(rest);
            lemma_voiceless_keeps_voice(t, after_tag(rest), ctx);
        }
    }
}

proof fn lemma_voiceless_concat(t: TableView, a: Seq<char>, b: Seq<char>)
    requires
        voiceless(t, a),
        voiceless(t, b),
    ensures
        voiceless(t, a + b),
    decreases a.len(),
{
    if a.len() == 0 {
        assert(a + b =~= b);
    } else if a[0] != '[' {
        lemma_voiceless_concat(t, a.drop_first(), b);
        assert((a + b).drop_first() =~= a.drop_first() + b);
    } else {
        let ra = a.drop_first();
        let r = (a + b).drop_first();
        assert(r =~= ra + b);
        lemma_close_index_bound(ra);
        lemma_close_index_prefix(ra, b);
        assert(tag_inner(r) =~= tag_inner(ra));
        assert(after_tag(r) =~= after_tag(ra) + b);
        lemma_close_index_bound(ra);
        lemma_voiceless_concat(t, after_tag(ra), b);
    }
}

proof fn lemma_voiceless_char(t: TableView, c: char)
    requires
        c != '[',
    ensures
        voiceless(t, seq![c]),
{
    let s = seq![c];
    assert(s[0] == c);
    assert(s.drop_first() =~= Seq::<char>::empty());
    assert(voiceless(t, s.drop_first()));
}

proof fn lemma_voiceless_unknown_tag(t: TableView, tag: Seq<char>)
    requires
        !tag.contains(']'),
        classify(t, trim(tag)) == TagClass::Unknown,
    ensures
        voiceless(t, bracketed(tag)),
{
    let e = Seq::<char>::empty();
    lemma_close_after_name(tag, e);
    let s = bracketed(tag);
    assert(s.drop_first() =~= tag + seq![']'] + e);
    assert(voiceless(t, e));
}

/// The first `]` is at `k` when `s[k]` is one and none comes before it.
proof fn lemma_close_index_at(s: Seq<char>, k: int)
    requires
        0 <= k < s.len(),
        s[k] == ']',
        forall|j: int| 0 <= j < k ==> s[j] != ']',
    ensures
        close_index(s) == k,
    decreases k,
{
    if k > 0 {
        assert(s[0] != ']');
        assert forall|j: int| 0 <= j < k - 1 implies s.drop_first()[j] != ']' by {
            assert(s.drop_first()[j] == s[j + 1]);
        }
        lemma_close_index_at(s.drop_first(), k - 1);
    }
}

proof fn lemma_voiceless_drop_last(t: TableView, s: Seq<char>)
    requires
        voiceless(t, s),
        s.len() > 0,
        s.last() != ']',
    ensures
        voiceless(t, s.drop_last()),
    decreases s.len(),
{
    if s[0] != '[' {
        if s.len() > 1 {
            lemma_voiceless_drop_last(t, s.drop_first());
            assert(s.drop_last().drop_first() =~= s.drop_first().drop_last());
        } else {
            assert(s.drop_last() =~= Seq::<char>::empty());
        }
    } else {
        let rest = s.drop_first();
        lemma_close_index_bound(rest);
        let ci = close_index(rest) as int;
        let at = after_tag(rest);
        assert(at =~= rest.skip(ci + 1));
        if at.len() == 0 {
            assert(s.last() == rest[ci]);
        } else {
            assert(at.last() == s.last());
            lemma_voiceless_drop_last(t, at);
            let r2 = s.drop_last().drop_first();
            assert(r2 =~= rest.drop_last());
            assert(rest.drop_last() =~= rest.take(ci + 1) + at.drop_last());
            assert(rest.take(ci + 1) =~= rest.take(ci + 1));
            lemma_close_index_at(rest.take(ci + 1), ci);
            lemma_close_index_prefix(rest.take(ci + 1), at.drop_last());
            assert(tag_inner(r2) =~= tag_inner(rest));
            assert(after_tag(r2) =~= at.drop_last());
        }
    }
}

proof fn lemma_voiceless_trim(t: TableView, s: Seq<char>)
    requires
        voiceless(t, s),
    ensures
        voiceless(t, trim(s)),
{
    lemma_voiceless_trim_start(t, s);
    lemma_voiceless_trim_end(t, crate::text::trim_start(s));
}

proof fn lemma_voiceless_trim_start(t: TableView, s: Seq<char>)
    requires
        voiceless(t, s),
    ensures
        voiceless(t, crate::text::trim_start(s)),
    decreases s.len(),
{
    if s.len() > 0 && is_ws(s[0]) {
        assert(s[0] != '[');
        lemma_voiceless_trim_start(t, s.drop_first());
    }
}

proof fn lemma_voiceless_trim_end(t: TableView, s: Seq<char>)
    requires
        voiceless(t, s),
    ensures
        voiceless(t, crate::text::trim_end(s)),
    decreases s.len(),
{
    if s.len() > 0 && is_ws(s.last()) {
        lemma_voiceless_drop_last(t, s);
        lemma_voiceless_trim_end(t, s.drop_last());
    }
}

proof fn lemma_segment_texts_voiceless(t: TableView, s: Seq<char>, ctx: CtxView, buf: Seq<char>, acc: Seq<SegView>)
    requires
        voiceless(t, buf),
        forall|k: int| 0 <= k < acc.len() ==> voiceless(t, #[trigger] acc[k].0),
    ensures
        forall|k: int| 0 <= k < parse_from(t, s, ctx, buf, acc).len() ==> voiceless(
            t,
            #[trigger] parse_from(t, s, ctx, buf, acc)[k].0,
        ),
    decreases s.len(),
{
    let f = flush(acc, buf, ctx);
    lemma_voiceless_trim(t, buf);
    assert forall|k: int| 0 <= k < f.len() implies voiceless(t, #[trigger] f[k].0) by {
        if k < acc.len() {
            assert(f[k] == acc[k]);
        }
    }
    if s.len() == 0 {
        assert(parse_from(t, s, ctx, buf, acc) == f);
    } else if s[0] != '[' {
        lemma_voiceless_char(t, s[0]);
        lemma_voiceless_concat(t, buf, seq![s[0]]);
        assert(buf + seq![s[0]] =~= buf.push(s[0]));
        lemma_segment_texts_voiceless(t, s.drop_first(), ctx, buf.push(s[0]), acc);
        assert(parse_from(t, s, ctx, buf, acc) == parse_from(t, s.drop_first(), ctx, buf.push(s[0]), acc));
    } else {
        let rest = s.drop_first();
        let inner = tag_inner(rest);
        let tag = trim(inner);
        let k = classify(t, tag);
        lemma_close_index_bound(rest);
        if k == TagClass::Unknown {
            assert(!tag.contains(']')) by {
                lemma_trim_start_suffix_of(inner);
                lemma_trim_end_prefix(crate::text::trim_start(inner));
                if tag.contains(']') {
                    let j = choose|j: int| 0 <= j < tag.len() && tag[j] == ']';
                    let a = crate::text::trim_start(inner);
                    assert(tag[j] == a[j]);
                    let off = inner.len() - a.len();
                    assert(a[j] == inner[off + j]);
                    assert(inner[off + j] == rest[off + j]);
                }
            }
            lemma_trim_idem(inner);
            lemma_voiceless_unknown_tag(t, tag);
            lemma_voiceless_concat(t, buf, bracketed(tag));
            lemma_segment_texts_voiceless(t, after_tag(rest), ctx, buf + bracketed(tag), acc);
            assert(parse_from(t, s, ctx, buf, acc) == parse_from(t, after_tag(rest), ctx, buf + bracketed(tag), acc));
        } else {
            lemma_segment_texts_voiceless(t, after_tag(rest), apply_class(t, ctx, tag, k), Seq::empty(), f);
            assert(parse_from(t, s, ctx, buf, acc) == parse_from(
                t,
                after_tag(rest),
                apply_class(t, ctx, tag, k),
                Seq::empty(),
                f,
            ));
        }
    }
}

proof fn lemma_trim_start_suffix_of(s: Seq<char>)
    ensures
        crate::text::trim_start(s).len() <= s.len(),
        crate::text::trim_start(s) == s.skip(s.len() - crate::text::trim_start(s).len()),
    decreases s.len(),
{
    if s.len() > 0 && is_ws(s[0]) {
        lemma_trim_start_suffix_of(s.drop_first());
        assert(s.drop_first().skip(s.drop_first().len() - crate::text::trim_start(s.drop_first()).len())
            =~= s.skip(s.len() - crate::text::trim_start(s).len()));
    } else {
        assert(s.skip(0) =~= s);
    }
}

impl TableView {
    /// A character that has a style named like the default style has it as
    /// its first style, so a voice tag may leave that style name out.
    pub open spec fn default_style_first(self) -> bool {
        forall|i: int|
            0 <= i < self.entries.len() && #[trigger] self.entries[i].style_name == self.default_style
                ==> (self.first_style_of(self.entries[i].char_name) matches Some(f) && f.0 == self.default_style)
    }
}

/// Splitting a line where its voice changes keeps every piece's voice:
/// when the line has two or more segments, each piece that
/// `split_by_ctx_change` gives (the first one included) ends in the voice
/// of its segment, so read on its own it is spoken as it was in the line.
/// This holds when the table is consistent, its names are plain and a
/// style named like the default style is its character's first.
pub proof fn lemma_split_pieces_keep_their_voice(t: TableView, line: Seq<char>)
    requires
        t.voices_consistent(),
        t.names_plain(),
        t.default_style_first(),
        spec_parse_line(t, line).len() >= 2,
    ensures
        spec_split_by_ctx_change(t, line).len() == spec_parse_line(t, line).len(),
        forall|k: int|
            0 <= k < spec_parse_line(t, line).len() ==> spec_tail_ctx(t, #[trigger] spec_split_by_ctx_change(t, line)[k])
                == spec_parse_line(t, line)[k].1,
{
    let segs = spec_parse_line(t, line);
    let pieces = spec_split_by_ctx_change(t, line);
    let e = Seq::<char>::empty();
    lemma_parse_from_resolves(t, line, default_ctx(t), e, Seq::empty());
    lemma_segment_texts_voiceless(t, line, default_ctx(t), e, Seq::empty());
    assert forall|k: int| 0 <= k < segs.len() implies spec_tail_ctx(t, #[trigger] pieces[k]) == segs[k].1 by {
        let c = segs[k].1;
        assert(t.resolves(c));
        lemma_last_with_name(t.entries, c.char_name, c.style_name);
        let j = last_with_name(t.entries, c.char_name, c.style_name)->0;
        assert(t.entries[j].style_name == c.style_name);
        lemma_prefix_then(t, c, segs[k].0);
        lemma_voiceless_keeps_voice(t, segs[k].0, c);
        assert(pieces[k] == spec_ctx_to_prefix(t, c) + segs[k].0);
    }
}

} // verus!
