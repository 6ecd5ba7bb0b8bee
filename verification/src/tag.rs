//! Voice-tag parsing within one line.
//!
//! Tag notation:
//!   `[character]` → that character's first style
//!   `[style]`     → the named style of the current character
//!   `[N]`         → style id `N` directly

use vstd::prelude::*;

use crate::speakers::{first_with_char, SpeakerTable, TableView};
use crate::text::{
    chars_of, parse_u32, parse_u32_chars, string_from_chars, sub_chars, trim, trim_bounds,
    trim_chars, trim_start,
};

verus! {

/// The voice a piece of text is read with.
pub struct VoiceCtx {
    pub char_name: String,
    pub style_name: String,
    /// The engine's `speaker` parameter, i.e. the style id.
    pub speaker_id: u32,
}

pub struct CtxView {
    pub char_name: Seq<char>,
    pub style_name: Seq<char>,
    pub speaker_id: u32,
}

impl View for VoiceCtx {
    type V = CtxView;

    open spec fn view(&self) -> CtxView {
        CtxView {
            char_name: self.char_name@,
            style_name: self.style_name@,
            speaker_id: self.speaker_id,
        }
    }
}

/// What the content of a `[...]` tag names.
#[derive(PartialEq, Eq, Structural)]
pub enum TagClass {
    CharName,
    StyleName,
    StyleId(u32),
    Unknown,
}

pub type SegView = (Seq<char>, CtxView);

pub open spec fn segs_view(v: Seq<(String, VoiceCtx)>) -> Seq<SegView> {
    v.map_values(|p: (String, VoiceCtx)| (p.0@, p.1@))
}

pub open spec fn strings_view(v: Seq<String>) -> Seq<Seq<char>> {
    v.map_values(|s: String| s@)
}

// ── voice context ──────────────────────────────────────────────────────────

pub open spec fn default_ctx(t: TableView) -> CtxView {
    CtxView { char_name: t.default_char, style_name: t.default_style, speaker_id: t.default_id }
}

/// Switch to a character's first style; unknown characters change nothing.
pub open spec fn spec_apply_char(t: TableView, ctx: CtxView, name: Seq<char>) -> CtxView {
    match t.first_style_of(name) {
        Some((s, id)) => CtxView { char_name: name, style_name: s, speaker_id: id },
        None => ctx,
    }
}

/// Switch the style of the current character; unknown styles change nothing.
pub open spec fn spec_apply_style(t: TableView, ctx: CtxView, style: Seq<char>) -> CtxView {
    match t.resolve_by_name(ctx.char_name, style) {
        Some(id) => CtxView { char_name: ctx.char_name, style_name: style, speaker_id: id },
        None => ctx,
    }
}

/// `[N]`: switch to style id `N`; unknown ids change nothing.
pub open spec fn spec_apply_id(t: TableView, ctx: CtxView, id: u32) -> CtxView {
    match t.resolve_by_id(id) {
        Some((c, s, _)) => CtxView { char_name: c, style_name: s, speaker_id: id },
        None => ctx,
    }
}

/// Character names first, then style names, then style ids.
pub open spec fn classify(t: TableView, tag: Seq<char>) -> TagClass {
    if t.is_char_name(tag) {
        TagClass::CharName
    } else if t.is_style_name(tag) {
        TagClass::StyleName
    } else {
        match parse_u32(tag) {
            Some(id) => if t.has_style_id(id) {
                TagClass::StyleId(id)
            } else {
                TagClass::Unknown
            },
            None => TagClass::Unknown,
        }
    }
}

pub open spec fn apply_class(t: TableView, ctx: CtxView, tag: Seq<char>, k: TagClass) -> CtxView {
    match k {
        TagClass::CharName => spec_apply_char(t, ctx, tag),
        TagClass::StyleName => spec_apply_style(t, ctx, tag),
        TagClass::StyleId(id) => spec_apply_id(t, ctx, id),
        TagClass::Unknown => ctx,
    }
}

// ── tag scanning ───────────────────────────────────────────────────────────

/// Position of the first `]` in `s`, or `s.len()` when there is none.
pub open spec fn close_index(s: Seq<char>) -> nat
    decreases s.len(),
{
    if s.len() == 0 {
        0
    } else if s[0] == ']' {
        0
    } else {
        1 + close_index(s.drop_first())
    }
}

/// The content of a tag whose `[` came right before `rest`.
pub open spec fn tag_inner(rest: Seq<char>) -> Seq<char> {
    rest.take(close_index(rest) as int)
}

/// What follows the tag: after its `]`, or nothing when it is not closed.
pub open spec fn after_tag(rest: Seq<char>) -> Seq<char> {
    if close_index(rest) < rest.len() {
        rest.skip(close_index(rest) as int + 1)
    } else {
        Seq::empty()
    }
}

pub open spec fn bracketed(x: Seq<char>) -> Seq<char> {
    seq!['['] + x + seq![']']
}

pub open spec fn flush(acc: Seq<SegView>, buf: Seq<char>, ctx: CtxView) -> Seq<SegView> {
    if trim(buf).len() > 0 {
        acc.push((trim(buf), ctx))
    } else {
        acc
    }
}

/// Splits the rest `s` of a line into (trimmed text, voice) segments.
pub open spec fn parse_from(
    t: TableView,
    s: Seq<char>,
    ctx: CtxView,
    buf: Seq<char>,
    acc: Seq<SegView>,
) -> Seq<SegView>
    decreases s.len(),
{
    if s.len() == 0 {
        flush(acc, buf, ctx)
    } else if s[0] != '[' {
        parse_from(t, s.drop_first(), ctx, buf.push(s[0]), acc)
    } else {
        let rest = s.drop_first();
        let tag = trim(tag_inner(rest));
        let k = classify(t, tag);
        if k == TagClass::Unknown {
            parse_from(t, after_tag(rest), ctx, buf + bracketed(tag), acc)
        } else {
            parse_from(t, after_tag(rest), apply_class(t, ctx, tag, k), Seq::empty(), flush(acc, buf, ctx))
        }
    }
}

pub open spec fn spec_parse_line(t: TableView, line: Seq<char>) -> Seq<SegView> {
    parse_from(t, line, default_ctx(t), Seq::empty(), Seq::empty())
}

/// The voice in force after the rest `s` of a line.
pub open spec fn tail_from(t: TableView, s: Seq<char>, ctx: CtxView) -> CtxView
    decreases s.len(),
{
    if s.len() == 0 {
        ctx
    } else if s[0] != '[' {
        tail_from(t, s.drop_first(), ctx)
    } else {
        let rest = s.drop_first();
        let tag = trim(tag_inner(rest));
        tail_from(t, after_tag(rest), apply_class(t, ctx, tag, classify(t, tag)))
    }
}

pub open spec fn spec_tail_ctx(t: TableView, line: Seq<char>) -> CtxView {
    tail_from(t, line, default_ctx(t))
}

/// Leading tags for a voice, leaving out what equals the default voice.
pub open spec fn spec_ctx_to_prefix(t: TableView, ctx: CtxView) -> Seq<char> {
    (if ctx.char_name != t.default_char {
        bracketed(ctx.char_name)
    } else {
        Seq::empty()
    }) + (if ctx.style_name != t.default_style {
        bracketed(ctx.style_name)
    } else {
        Seq::empty()
    })
}

pub open spec fn spec_split_by_ctx_change(t: TableView, line: Seq<char>) -> Seq<Seq<char>> {
    let segs = spec_parse_line(t, line);
    if segs.len() <= 1 {
        seq![line]
    } else {
        segs.map_values(|p: SegView| spec_ctx_to_prefix(t, p.1) + p.0)
    }
}

/// A character's first style name, or nothing.
pub open spec fn char_default_style(t: TableView, c: Seq<char>) -> Seq<char> {
    match t.first_style_of(c) {
        Some((s, _)) => s,
        None => Seq::empty(),
    }
}

/// Rewrites the rest `s` of a line with `[N]` tags expanded.
pub open spec fn expand_from(t: TableView, s: Seq<char>, cur: Seq<char>, out: Seq<char>) -> Seq<char>
    decreases s.len(),
{
    if s.len() == 0 {
        out
    } else if s[0] != '[' {
        expand_from(t, s.drop_first(), cur, out.push(s[0]))
    } else {
        let rest = s.drop_first();
        let inner = tag_inner(rest);
        let tag = trim(inner);
        let next = after_tag(rest);
        if parse_u32(tag) is Some && t.has_style_id(parse_u32(tag)->0) {
            let (c, st, _) = t.resolve_by_id(parse_u32(tag)->0)->0;
            let out1 = if c != cur {
                out + bracketed(c)
            } else {
                out
            };
            let out2 = if st != char_default_style(t, c) {
                out1 + bracketed(st)
            } else {
                out1
            };
            expand_from(t, next, c, out2)
        } else {
            let cur1 = if t.is_char_name(tag) {
                tag
            } else {
                cur
            };
            expand_from(t, next, cur1, out + bracketed(inner))
        }
    }
}

pub open spec fn spec_expand_id_tags(t: TableView, line: Seq<char>) -> Seq<char> {
    expand_from(t, line, t.default_char, Seq::empty())
}

/// The rest `s` of a line without the tags that name a voice; all else verbatim.
pub open spec fn strip_from(t: TableView, s: Seq<char>, out: Seq<char>) -> Seq<char>
    decreases s.len(),
{
    if s.len() == 0 {
        out
    } else if s[0] != '[' {
        strip_from(t, s.drop_first(), out.push(s[0]))
    } else {
        let rest = s.drop_first();
        let inner = tag_inner(rest);
        let next = after_tag(rest);
        if classify(t, trim(inner)) == TagClass::Unknown {
            let raw = if close_index(rest) < rest.len() {
                bracketed(inner)
            } else {
                seq!['['] + inner
            };
            strip_from(t, next, out + raw)
        } else {
            strip_from(t, next, out)
        }
    }
}

pub open spec fn spec_strip_known_tags(t: TableView, line: Seq<char>) -> Seq<char> {
    strip_from(t, line, Seq::empty())
}

/// The voice of a line's first spoken segment; a line with nothing to speak
/// has the voice its tags leave in force.
pub open spec fn spec_line_head_ctx(t: TableView, line: Seq<char>) -> CtxView {
    let segs = spec_parse_line(t, line);
    if segs.len() > 0 {
        segs[0].1
    } else {
        spec_tail_ctx(t, line)
    }
}

/// Leading whitespace of a line.
pub open spec fn leading_ws(line: Seq<char>) -> Seq<char> {
    line.take(line.len() - trim_start(line).len())
}

pub open spec fn spec_rewrite_line_with_ctx(t: TableView, line: Seq<char>, ctx: CtxView) -> Seq<char> {
    leading_ws(line) + spec_ctx_to_prefix(t, ctx) + spec_strip_known_tags(t, trim_start(line))
}

// ── lemmas ─────────────────────────────────────────────────────────────────

pub proof fn lemma_close_index_bound(s: Seq<char>)
    ensures
        close_index(s) <= s.len(),
        close_index(s) < s.len() ==> s[close_index(s) as int] == ']',
        forall|k: int| 0 <= k < close_index(s) ==> s[k] != ']',
    decreases s.len(),
{
    if s.len() > 0 && s[0] != ']' {
        lemma_close_index_bound(s.drop_first());
        assert forall|k: int| 0 <= k < close_index(s) implies s[k] != ']' by {
            if k > 0 {
                assert(s[k] == s.drop_first()[k - 1]);
            }
        }
    }
}

proof fn lemma_trim_start_suffix(s: Seq<char>)
    ensures
        trim_start(s).len() <= s.len(),
        trim_start(s) == s.skip(s.len() - trim_start(s).len()),
    decreases s.len(),
{
    if s.len() > 0 && crate::text::is_ws(s[0]) {
        lemma_trim_start_suffix(s.drop_first());
        assert(s.drop_first().skip(s.drop_first().len() - trim_start(s.drop_first()).len())
            =~= s.skip(s.len() - trim_start(s).len()));
    } else {
        assert(s.skip(0) =~= s);
    }
}

/// Finds the `]` that closes a tag opened at `i`.
fn scan_close(s: &[char], i: usize) -> (j: usize)
    requires
        i < s@.len(),
    ensures
        i + 1 <= j <= s@.len(),
        j - (i + 1) == close_index(s@.skip(i + 1)),
        tag_inner(s@.skip(i + 1)) == s@.subrange(i + 1, j as int),
        after_tag(s@.skip(i + 1)) == s@.skip(if j < s@.len() { j + 1 } else { s@.len() as int }),
        (close_index(s@.skip(i + 1)) < s@.skip(i + 1).len()) == (j < s@.len()),
{
    let n = s.len();
    let mut j = i + 1;
    while j < n && s[j] != ']'
        invariant
            i + 1 <= j <= n,
            n == s@.len(),
            close_index(s@.skip(i + 1)) == (j - (i + 1)) + close_index(s@.skip(j as int)),
        decreases n - j,
    {
        assert(s@.skip(j as int).drop_first() =~= s@.skip(j + 1));
        j = j + 1;
    }
    proof {
        let rest = s@.skip(i + 1);
        assert(close_index(s@.skip(j as int)) == 0);
        assert(rest.take(close_index(rest) as int) =~= s@.subrange(i + 1, j as int));
        if j < n {
            assert(rest.skip(close_index(rest) as int + 1) =~= s@.skip(j + 1));
        } else {
            assert(s@.skip(n as int) =~= Seq::<char>::empty());
        }
    }
    j
}

fn append_chars(v: &mut Vec<char>, w: &[char])
    ensures
        final(v)@ == old(v)@ + w@,
{
    let mut k: usize = 0;
    while k < w.len()
        invariant
            k <= w@.len(),
            v@ == old(v)@ + w@.take(k as int),
        decreases w.len() - k,
    {
        v.push(w[k]);
        k = k + 1;
        assert(v@ =~= old(v)@ + w@.take(k as int));
    }
    assert(w@.take(w@.len() as int) =~= w@);
}

fn append_bracketed(v: &mut Vec<char>, w: &[char])
    ensures
        final(v)@ == old(v)@ + bracketed(w@),
{
    v.push('[');
    append_chars(v, w);
    v.push(']');
    assert(v@ =~= old(v)@ + bracketed(w@));
}

// ── voice context operations ───────────────────────────────────────────────

impl VoiceCtx {
    /// The default voice of the table.
    pub fn new_default(t: &SpeakerTable) -> (c: VoiceCtx)
        ensures
            c@ == default_ctx(t@),
    {
        VoiceCtx {
            char_name: t.default_char.clone(),
            style_name: t.default_style.clone(),
            speaker_id: t.default_id,
        }
    }

    /// A copy with the same fields.
    pub fn copy(&self) -> (c: VoiceCtx)
        ensures
            c@ == self@,
    {
        VoiceCtx {
            char_name: self.char_name.clone(),
            style_name: self.style_name.clone(),
            speaker_id: self.speaker_id,
        }
    }

    /// Character change: switch to that character's first style.
    pub fn apply_char(&mut self, t: &SpeakerTable, char_name: &str)
        ensures
            final(self)@ == spec_apply_char(t@, old(self)@, char_name@),
    {
        let name = char_name.to_owned();
        match t.find_first_style(&name) {
            Some(i) => {
                self.char_name = name;
                self.style_name = t.entries[i].style_name.clone();
                self.speaker_id = t.entries[i].id;
            },
            None => {},
        }
    }

    /// Style change: keep the character, switch to the named style.
    pub fn apply_style(&mut self, t: &SpeakerTable, style_name: &str)
        ensures
            final(self)@ == spec_apply_style(t@, old(self)@, style_name@),
    {
        let c = self.char_name.clone();
        match t.resolve_by_name(c.as_str(), style_name) {
            Some(id) => {
                self.style_name = style_name.to_owned();
                self.speaker_id = id;
            },
            None => {},
        }
    }

    /// `[N]`: switch to style id `N`.
    pub fn apply_id(&mut self, t: &SpeakerTable, id: u32)
        ensures
            final(self)@ == spec_apply_id(t@, old(self)@, id),
    {
        match t.resolve_by_id(id) {
            Some((c, s, _)) => {
                self.char_name = c;
                self.style_name = s;
                self.speaker_id = id;
            },
            None => {},
        }
    }

    fn apply_class(&mut self, t: &SpeakerTable, tag: &String, k: &TagClass)
        ensures
            final(self)@ == apply_class(t@, old(self)@, tag@, *k),
    {
        match k {
            TagClass::CharName => self.apply_char(t, tag.as_str()),
            TagClass::StyleName => self.apply_style(t, tag.as_str()),
            TagClass::StyleId(id) => self.apply_id(t, *id),
            TagClass::Unknown => {},
        }
    }
}

/// Classifies the (trimmed) content of a tag.
pub fn classify_tag(t: &SpeakerTable, tag: &[char]) -> (k: TagClass)
    ensures
        k == classify(t@, tag@),
{
    let s = string_from_chars(tag);
    if t.is_char_name(&s) {
        return TagClass::CharName;
    }
    if t.is_style_name(&s) {
        return TagClass::StyleName;
    }
    match parse_u32_chars(tag) {
        Some(id) => match t.find_id(id) {
            Some(_) => TagClass::StyleId(id),
            None => TagClass::Unknown,
        },
        None => TagClass::Unknown,
    }
}

fn flush_segment(result: &mut Vec<(String, VoiceCtx)>, buf: &Vec<char>, ctx: &VoiceCtx)
    ensures
        segs_view(final(result)@) == flush(segs_view(old(result)@), buf@, ctx@),
{
    let text = trim_chars(buf.as_slice());
    if text.len() > 0 {
        let s = string_from_chars(text.as_slice());
        result.push((s, ctx.copy()));
        assert(segs_view(result@) =~= segs_view(old(result)@).push((trim(buf@), ctx@)));
    }
}

/// Splits one line into (text, voice) segments.
pub fn parse_line(t: &SpeakerTable, line: &str) -> (r: Vec<(String, VoiceCtx)>)
    ensures
        segs_view(r@) == spec_parse_line(t@, line@),
{
    let s = chars_of(line);
    let n = s.len();
    let mut result: Vec<(String, VoiceCtx)> = Vec::new();
    let mut ctx = VoiceCtx::new_default(t);
    let mut buf: Vec<char> = Vec::new();
    let mut i: usize = 0;
    assert(s@.skip(0) =~= s@);
    assert(segs_view(result@) =~= Seq::<SegView>::empty());
    while i < n
        invariant
            i <= n,
            n == s@.len(),
            s@ == line@,
            parse_from(t@, s@.skip(i as int), ctx@, buf@, segs_view(result@)) == spec_parse_line(
                t@,
                line@,
            ),
        decreases n - i,
    {
        let c = s[i];
        if c != '[' {
            assert(s@.skip(i as int).drop_first() =~= s@.skip(i + 1));
            buf.push(c);
            i = i + 1;
        } else {
            let j = scan_close(s.as_slice(), i);
            assert(s@.skip(i as int).drop_first() =~= s@.skip(i + 1));
            let inner = sub_chars(s.as_slice(), i + 1, j);
            let tag = trim_chars(inner.as_slice());
            let k = classify_tag(t, tag.as_slice());
            if k == TagClass::Unknown {
                append_bracketed(&mut buf, tag.as_slice());
            } else {
                flush_segment(&mut result, &buf, &ctx);
                buf = Vec::new();
                let tag_s = string_from_chars(tag.as_slice());
                ctx.apply_class(t, &tag_s, &k);
            }
            i = if j < n {
                j + 1
            } else {
                n
            };
        }
    }
    assert(s@.skip(n as int) =~= Seq::<char>::empty());
    flush_segment(&mut result, &buf, &ctx);
    result
}

/// The voice in force at the end of a line (the starting voice of the next line for o/O).
pub fn tail_ctx(t: &SpeakerTable, line: &str) -> (r: VoiceCtx)
    ensures
        r@ == spec_tail_ctx(t@, line@),
{
    let s = chars_of(line);
    let n = s.len();
    let mut ctx = VoiceCtx::new_default(t);
    let mut i: usize = 0;
    assert(s@.skip(0) =~= s@);
    while i < n
        invariant
            i <= n,
            n == s@.len(),
            s@ == line@,
            tail_from(t@, s@.skip(i as int), ctx@) == spec_tail_ctx(t@, line@),
        decreases n - i,
    {
        assert(s@.skip(i as int).drop_first() =~= s@.skip(i + 1));
        if s[i] != '[' {
            i = i + 1;
        } else {
            let j = scan_close(s.as_slice(), i);
            let inner = sub_chars(s.as_slice(), i + 1, j);
            let tag = trim_chars(inner.as_slice());
            let k = classify_tag(t, tag.as_slice());
            let tag_s = string_from_chars(tag.as_slice());
            ctx.apply_class(t, &tag_s, &k);
            i = if j < n {
                j + 1
            } else {
                n
            };
        }
    }
    assert(s@.skip(n as int) =~= Seq::<char>::empty());
    ctx
}

/// Leading tags for a voice; what equals the default voice is left out.
pub fn ctx_to_prefix(t: &SpeakerTable, ctx: &VoiceCtx) -> (r: String)
    ensures
        r@ == spec_ctx_to_prefix(t@, ctx@),
{
    let mut out: Vec<char> = Vec::new();
    if ctx.char_name != t.default_char {
        let c = chars_of(ctx.char_name.as_str());
        append_bracketed(&mut out, c.as_slice());
    }
    let ghost mid = out@;
    if ctx.style_name != t.default_style {
        let c = chars_of(ctx.style_name.as_str());
        append_bracketed(&mut out, c.as_slice());
    }
    assert(out@ =~= spec_ctx_to_prefix(t@, ctx@));
    string_from_chars(out.as_slice())
}

/// Splits a line where its voice changes; a line whose voice does not change
/// comes back as it was, as the only element.
///
/// `ずんだもん喋る[四国めたん]めたん喋る` → `["ずんだもん喋る", "[四国めたん]めたん喋る"]`
pub fn split_by_ctx_change(t: &SpeakerTable, line: &str) -> (r: Vec<String>)
    ensures
        strings_view(r@) == spec_split_by_ctx_change(t@, line@),
{
    let segs = parse_line(t, line);
    if segs.len() <= 1 {
        let mut r: Vec<String> = Vec::new();
        r.push(line.to_owned());
        assert(strings_view(r@) =~= seq![line@]);
        return r;
    }
    let mut r: Vec<String> = Vec::new();
    let mut k: usize = 0;
    let ghost sv = segs_view(segs@);
    while k < segs.len()
        invariant
            k <= segs@.len(),
            sv == segs_view(segs@),
            sv == spec_parse_line(t@, line@),
            strings_view(r@) == sv.take(k as int).map_values(
                |p: SegView| spec_ctx_to_prefix(t@, p.1) + p.0,
            ),
        decreases segs.len() - k,
    {
        let prefix = ctx_to_prefix(t, &segs[k].1);
        let mut piece = prefix.clone();
        crate::text::push_str(&mut piece, segs[k].0.as_str());
        let ghost old_r = r@;
        r.push(piece);
        assert(sv[k as int] == (segs@[k as int].0@, segs@[k as int].1@));
        assert(sv.take(k + 1) =~= sv.take(k as int).push(sv[k as int]));
        assert(strings_view(r@) =~= strings_view(old_r).push(piece@));
        k = k + 1;
        assert(strings_view(r@) =~= sv.take(k as int).map_values(
            |p: SegView| spec_ctx_to_prefix(t@, p.1) + p.0,
        ));
    }
    assert(sv.take(k as int) =~= sv);
    r
}

/// Expands `[N]` tags into readable `[character][style]` tags (done on commit).
///
/// - `[N]` becomes the character and style of style id `N`;
/// - the character tag is left out when it names the character already in force;
/// - the style tag is left out when it is that character's first style.
pub fn expand_id_tags(t: &SpeakerTable, line: &str) -> (r: String)
    ensures
        r@ == spec_expand_id_tags(t@, line@),
{
    let s = chars_of(line);
    let n = s.len();
    let mut out: Vec<char> = Vec::new();
    let mut cur: String = t.default_char.clone();
    let mut i: usize = 0;
    assert(s@.skip(0) =~= s@);
    while i < n
        invariant
            i <= n,
            n == s@.len(),
            s@ == line@,
            expand_from(t@, s@.skip(i as int), cur@, out@) == spec_expand_id_tags(t@, line@),
        decreases n - i,
    {
        assert(s@.skip(i as int).drop_first() =~= s@.skip(i + 1));
        if s[i] != '[' {
            out.push(s[i]);
            i = i + 1;
        } else {
            let j = scan_close(s.as_slice(), i);
            let inner = sub_chars(s.as_slice(), i + 1, j);
            let tag = trim_chars(inner.as_slice());
            let mut handled = false;
            match parse_u32_chars(tag.as_slice()) {
                Some(id) => match t.find_id(id) {
                    Some(e) => {
                        let c = t.entries[e].char_name.clone();
                        let st = t.entries[e].style_name.clone();
                        if c != cur {
                            let cc = chars_of(c.as_str());
                            append_bracketed(&mut out, cc.as_slice());
                        }
                        let dstyle = match t.find_first_style(&c) {
                            Some(f) => t.entries[f].style_name.clone(),
                            None => String::new(),
                        };
                        if st != dstyle {
                            let sc = chars_of(st.as_str());
                            append_bracketed(&mut out, sc.as_slice());
                        }
                        cur = c;
                        handled = true;
                    },
                    None => {},
                },
                None => {},
            }
            if !handled {
                let tag_s = string_from_chars(tag.as_slice());
                if t.is_char_name(&tag_s) {
                    cur = tag_s;
                }
                append_bracketed(&mut out, inner.as_slice());
            }
            i = if j < n {
                j + 1
            } else {
                n
            };
        }
    }
    assert(s@.skip(n as int) =~= Seq::<char>::empty());
    string_from_chars(out.as_slice())
}

/// Removes the tags that name a voice; text and other tags stay as written.
pub fn strip_known_tags(t: &SpeakerTable, line: &str) -> (r: String)
    ensures
        r@ == spec_strip_known_tags(t@, line@),
{
    let s = chars_of(line);
    let n = s.len();
    let mut out: Vec<char> = Vec::new();
    let mut i: usize = 0;
    assert(s@.skip(0) =~= s@);
    while i < n
        invariant
            i <= n,
            n == s@.len(),
            s@ == line@,
            strip_from(t@, s@.skip(i as int), out@) == spec_strip_known_tags(t@, line@),
        decreases n - i,
    {
        assert(s@.skip(i as int).drop_first() =~= s@.skip(i + 1));
        if s[i] != '[' {
            out.push(s[i]);
            i = i + 1;
        } else {
            let j = scan_close(s.as_slice(), i);
            let inner = sub_chars(s.as_slice(), i + 1, j);
            let tag = trim_chars(inner.as_slice());
            let k = classify_tag(t, tag.as_slice());
            let ghost old_out = out@;
            if k == TagClass::Unknown {
                if j < n {
                    append_bracketed(&mut out, inner.as_slice());
                } else {
                    out.push('[');
                    append_chars(&mut out, inner.as_slice());
                    assert(out@ =~= old_out + (seq!['['] + inner@));
                }
            }
            i = if j < n {
                j + 1
            } else {
                n
            };
        }
    }
    assert(s@.skip(n as int) =~= Seq::<char>::empty());
    string_from_chars(out.as_slice())
}

/// The voice of a line's first spoken segment (the voice of its tags when
/// nothing in it is spoken).
pub fn line_head_ctx(t: &SpeakerTable, line: &str) -> (r: VoiceCtx)
    ensures
        r@ == spec_line_head_ctx(t@, line@),
{
    let segs = parse_line(t, line);
    if segs.len() > 0 {
        segs[0].1.copy()
    } else {
        tail_ctx(t, line)
    }
}

/// Rewrites a line to speak with `ctx`: its leading whitespace stays, the
/// voice tags are replaced by the prefix of `ctx`, all else stays as written.
pub fn rewrite_line_with_ctx(t: &SpeakerTable, line: &str, ctx: &VoiceCtx) -> (r: String)
    ensures
        r@ == spec_rewrite_line_with_ctx(t@, line@, ctx@),
{
    let s = chars_of(line);
    let (a, _b) = trim_bounds(s.as_slice());
    proof {
        lemma_trim_start_suffix(s@);
    }
    let lead = sub_chars(s.as_slice(), 0, a);
    let body_chars = sub_chars(s.as_slice(), a, s.len());
    assert(body_chars@ =~= trim_start(line@));
    assert(lead@ =~= leading_ws(line@));
    let body = string_from_chars(body_chars.as_slice());
    let stripped = strip_known_tags(t, body.as_str());
    let prefix = ctx_to_prefix(t, ctx);
    let mut r = string_from_chars(lead.as_slice());
    crate::text::push_str(&mut r, prefix.as_str());
    crate::text::push_str(&mut r, stripped.as_str());
    r
}

} // verus!
