//! What the mascot renderer is told during playback: the duration of a WAV,
//! which character a line is read by, which characters have a PSD, and the
//! decisions of the ensemble session around a character change.

use vstd::prelude::*;

use crate::overlay::{is_blocking, OverlayState, SyncIds};
use crate::speakers::{lex_lt, SpeakerTable, TableView};
use crate::tag::{parse_line, spec_parse_line, strings_view, SegView};
use crate::text::{
    char_lowercase, char_to_lowercase, chars_of, contains_chars, has_infix, string_from_chars,
    trim, trim_chars,
};

verus! {

/// A mouth-flap timeline is never shorter than this.
pub const MIN_DURATION_MS: u64 = 100;

/// Timeline length when the WAV header cannot be read.
pub const FALLBACK_DURATION_MS: u64 = 5000;

/// Little-endian `u32` at byte `i`.
pub open spec fn le_u32_at(b: Seq<u8>, i: int) -> int {
    b[i] + b[i + 1] * 256 + b[i + 2] * 65536 + b[i + 3] * 16777216
}

/// `a / b` rounded up, for `b > 0`.
pub open spec fn div_ceil(a: int, b: int) -> int {
    if a % b == 0 {
        a / b
    } else {
        a / b + 1
    }
}

/// Playback length in milliseconds from a canonical 44-byte PCM WAV header:
/// `RIFF` at 0, `WAVE` at 8, the byte rate at 28 and the data length at 40,
/// rounded up and at least `MIN_DURATION_MS`; none for anything else or a
/// zero byte rate.
pub open spec fn spec_wav_duration_ms(wav: Seq<u8>) -> Option<u64> {
    if wav.len() < 44 || wav.subrange(0, 4) != seq![82u8, 73u8, 70u8, 70u8] || wav.subrange(8, 12)
        != seq![87u8, 65u8, 86u8, 69u8] {
        None
    } else {
        let byte_rate = le_u32_at(wav, 28);
        let data_len = le_u32_at(wav, 40);
        if byte_rate == 0 {
            None
        } else {
            let d = div_ceil(data_len * 1000, byte_rate);
            Some(
                if d < MIN_DURATION_MS {
                    MIN_DURATION_MS
                } else {
                    d as u64
                },
            )
        }
    }
}

fn read_le_u32(wav: &[u8], i: usize) -> (v: u64)
    requires
        i + 4 <= wav@.len(),
    ensures
        v == le_u32_at(wav@, i as int),
        v < 0x1_0000_0000,
{
    wav[i] as u64 + wav[i + 1] as u64 * 256 + wav[i + 2] as u64 * 65536 + wav[i + 3] as u64
        * 16777216
}

/// Playback length of a WAV in milliseconds (see `spec_wav_duration_ms`).
pub fn wav_duration_ms(wav: &[u8]) -> (r: Option<u64>)
    ensures
        r == spec_wav_duration_ms(wav@),
{
    if wav.len() < 44 {
        return None;
    }
    if !(wav[0] == 82 && wav[1] == 73 && wav[2] == 70 && wav[3] == 70) {
        assert(wav@.subrange(0, 4) != seq![82u8, 73u8, 70u8, 70u8]) by {
            if wav@.subrange(0, 4) == seq![82u8, 73u8, 70u8, 70u8] {
                assert(wav@.subrange(0, 4)[0] == wav@[0]);
                assert(wav@.subrange(0, 4)[1] == wav@[1]);
                assert(wav@.subrange(0, 4)[2] == wav@[2]);
                assert(wav@.subrange(0, 4)[3] == wav@[3]);
            }
        }
        return None;
    }
    assert(wav@.subrange(0, 4) =~= seq![82u8, 73u8, 70u8, 70u8]);
    if !(wav[8] == 87 && wav[9] == 65 && wav[10] == 86 && wav[11] == 69) {
        assert(wav@.subrange(8, 12) != seq![87u8, 65u8, 86u8, 69u8]) by {
            if wav@.subrange(8, 12) == seq![87u8, 65u8, 86u8, 69u8] {
                assert(wav@.subrange(8, 12)[0] == wav@[8]);
                assert(wav@.subrange(8, 12)[1] == wav@[9]);
                assert(wav@.subrange(8, 12)[2] == wav@[10]);
                assert(wav@.subrange(8, 12)[3] == wav@[11]);
            }
        }
        return None;
    }
    assert(wav@.subrange(8, 12) =~= seq![87u8, 65u8, 86u8, 69u8]);
    let byte_rate = read_le_u32(wav, 28);
    let data_len = read_le_u32(wav, 40);
    if byte_rate == 0 {
        return None;
    }
    let total: u64 = data_len * 1000;
    let q = total / byte_rate;
    let d = if total % byte_rate == 0 {
        q
    } else {
        q + 1
    };
    if d < MIN_DURATION_MS {
        Some(MIN_DURATION_MS)
    } else {
        Some(d)
    }
}

/// The character of a line when every segment of it is read by the same
/// character; none for a line with no text or with several characters.
pub open spec fn spec_mascot_char_name(segs: Seq<SegView>) -> Option<Seq<char>> {
    if segs.len() == 0 {
        None
    } else if forall|i: int| 0 <= i < segs.len() ==> #[trigger] segs[i].1.char_name == segs[0].1.char_name {
        Some(segs[0].1.char_name)
    } else {
        None
    }
}

/// The one character that reads `line`, if there is one.
pub fn mascot_char_name_for_line(t: &SpeakerTable, line: &str) -> (r: Option<String>)
    ensures
        match r {
            Some(n) => spec_mascot_char_name(spec_parse_line(t@, line@)) == Some(n@),
            None => spec_mascot_char_name(spec_parse_line(t@, line@)) is None,
        },
{
    let segs = parse_line(t, line);
    let ghost sv = spec_parse_line(t@, line@);
    if segs.len() == 0 {
        return None;
    }
    let first = segs[0].1.char_name.clone();
    assert(sv[0].1.char_name == first@);
    let mut i: usize = 1;
    while i < segs.len()
        invariant
            1 <= i <= segs@.len(),
            sv == crate::tag::segs_view(segs@),
            sv == spec_parse_line(t@, line@),
            sv[0].1.char_name == first@,
            forall|k: int| 0 <= k < i ==> #[trigger] sv[k].1.char_name == first@,
        decreases segs.len() - i,
    {
        assert(sv[i as int].1.char_name == segs@[i as int].1.char_name@);
        if segs[i].1.char_name != first {
            assert(segs@[i as int].1.char_name@ != first@);
            assert(sv[i as int].1.char_name != sv[0].1.char_name);
            return None;
        }
        i = i + 1;
    }
    Some(first)
}

/// Characters left out when file names and speaker names are compared.
pub open spec fn is_lookup_separator(c: char) -> bool {
    c == '/' || c == '\\' || c == '_' || c == '-' || c == ' ' || c == '\u{3000}' || c == '.' || c
        == '(' || c == ')' || c == '[' || c == ']'
}

/// Position of the last `.`, if any.
pub open spec fn last_dot(s: Seq<char>) -> Option<int>
    decreases s.len(),
{
    if s.len() == 0 {
        None
    } else if s.last() == '.' {
        Some(s.len() - 1)
    } else {
        last_dot(s.drop_last())
    }
}

/// `e` equals `psd` ignoring ASCII case.
pub open spec fn is_psd_ext(e: Seq<char>) -> bool {
    &&& e.len() == 3
    &&& (e[0] == 'p' || e[0] == 'P')
    &&& (e[1] == 's' || e[1] == 'S')
    &&& (e[2] == 'd' || e[2] == 'D')
}

/// `s` without a final `.psd` extension (in any ASCII case).
pub open spec fn spec_trim_psd_extension(s: Seq<char>) -> Seq<char> {
    match last_dot(s) {
        Some(i) => if is_psd_ext(s.subrange(i + 1, s.len() as int)) {
            s.subrange(0, i)
        } else {
            s
        },
        None => s,
    }
}

/// The characters of `s` that are not separators, each replaced by its
/// lowercase mapping.
pub open spec fn lower_kept(s: Seq<char>) -> Seq<char>
    decreases s.len(),
{
    if s.len() == 0 {
        Seq::empty()
    } else {
        let p = lower_kept(s.drop_last());
        if is_lookup_separator(s.last()) {
            p
        } else {
            p + char_lowercase(s.last())
        }
    }
}

/// The text a speaker name or PSD file name is compared by: trimmed, without
/// a `.psd` extension, without separators, lowercase.
pub open spec fn spec_normalize_lookup(s: Seq<char>) -> Seq<char> {
    lower_kept(spec_trim_psd_extension(trim(s)))
}

fn is_separator(c: char) -> (b: bool)
    ensures
        b == is_lookup_separator(c),
{
    c == '/' || c == '\\' || c == '_' || c == '-' || c == ' ' || c == '\u{3000}' || c == '.' || c
        == '(' || c == ')' || c == '[' || c == ']'
}

/// `s` without a final `.psd` extension.
pub fn trim_psd_extension(s: &[char]) -> (r: Vec<char>)
    ensures
        r@ == spec_trim_psd_extension(s@),
{
    let mut j: usize = s.len();
    assert(s@.subrange(0, s@.len() as int) =~= s@);
    while j > 0 && s[j - 1] != '.'
        invariant
            j <= s@.len(),
            last_dot(s@) == last_dot(s@.subrange(0, j as int)),
        decreases j,
    {
        assert(s@.subrange(0, j as int).drop_last() =~= s@.subrange(0, j - 1));
        j = j - 1;
    }
    if j == 0 {
        assert(s@.subrange(0, 0) =~= Seq::<char>::empty());
        return crate::text::sub_chars(s, 0, s.len());
    }
    assert(s@.subrange(0, j as int).last() == s@[j - 1]);
    let i = j - 1;
    let n = s.len();
    let is_psd = n - j == 3 && (s[j] == 'p' || s[j] == 'P') && (s[j + 1] == 's' || s[j + 1] == 'S')
        && (s[j + 2] == 'd' || s[j + 2] == 'D');
    proof {
        let e = s@.subrange(j as int, n as int);
        if n - j == 3 {
            assert(e[0] == s@[j as int]);
            assert(e[1] == s@[j + 1]);
            assert(e[2] == s@[j + 2]);
        }
        assert(is_psd == is_psd_ext(e));
    }
    if is_psd {
        crate::text::sub_chars(s, 0, i)
    } else {
        crate::text::sub_chars(s, 0, n)
    }
}

/// Normalized lookup text of `text` (see `spec_normalize_lookup`).
pub fn normalize_mascot_lookup_text(text: &str) -> (r: String)
    ensures
        r@ == spec_normalize_lookup(text@),
{
    let c = chars_of(text);
    let t = trim_chars(c.as_slice());
    let s = trim_psd_extension(t.as_slice());
    let mut out: Vec<char> = Vec::new();
    let mut i: usize = 0;
    assert(s@.subrange(0, 0) =~= Seq::<char>::empty());
    while i < s.len()
        invariant
            i <= s@.len(),
            out@ == lower_kept(s@.subrange(0, i as int)),
        decreases s.len() - i,
    {
        assert(s@.subrange(0, i + 1).drop_last() =~= s@.subrange(0, i as int));
        assert(s@.subrange(0, i + 1).last() == s@[i as int]);
        if !is_separator(s[i]) {
            let low = char_to_lowercase(s[i]);
            let mut k: usize = 0;
            let ghost before = out@;
            while k < low.len()
                invariant
                    k <= low@.len(),
                    out@ == before + low@.subrange(0, k as int),
                decreases low.len() - k,
            {
                out.push(low[k]);
                k = k + 1;
                assert(out@ =~= before + low@.subrange(0, k as int));
            }
            assert(low@.subrange(0, k as int) =~= low@);
        }
        i = i + 1;
    }
    assert(s@.subrange(0, s@.len() as int) =~= s@);
    string_from_chars(out.as_slice())
}

/// The normalized names of the PSD files the renderer has, empty ones left out.
pub open spec fn normalized_names(files: Seq<Seq<char>>) -> Seq<Seq<char>>
    decreases files.len(),
{
    if files.len() == 0 {
        Seq::empty()
    } else {
        let p = normalized_names(files.drop_last());
        let n = spec_normalize_lookup(files.last());
        if n.len() == 0 {
            p
        } else {
            p.push(n)
        }
    }
}

/// A speaker has a PSD when its normalized name is not empty and occurs in
/// one of the normalized PSD file names.
pub open spec fn spec_speaker_has_psd(names: Seq<Seq<char>>, speaker: Seq<char>) -> bool {
    let n = spec_normalize_lookup(speaker);
    n.len() > 0 && exists|k: int| 0 <= k < names.len() && has_infix(#[trigger] names[k], n)
}

/// The PSD files the renderer reported, by normalized name.
pub struct PsdAvailability {
    pub normalized_file_names: Vec<String>,
}

impl PsdAvailability {
    pub open spec fn names(&self) -> Seq<Seq<char>> {
        strings_view(self.normalized_file_names@)
    }

    /// No PSD known.
    pub fn new() -> (a: PsdAvailability)
        ensures
            a.names() == Seq::<Seq<char>>::empty(),
    {
        let a = PsdAvailability { normalized_file_names: Vec::new() };
        assert(a.names() =~= Seq::<Seq<char>>::empty());
        a
    }

    /// The PSD files the renderer reported, normalized.
    pub fn set_loaded_psd_file_names(file_names: Vec<String>) -> (a: PsdAvailability)
        ensures
            a.names() == normalized_names(strings_view(file_names@)),
    {
        let mut out: Vec<String> = Vec::new();
        let mut i: usize = 0;
        let ghost fv = strings_view(file_names@);
        assert(fv.subrange(0, 0) =~= Seq::<Seq<char>>::empty());
        assert(strings_view(out@) =~= Seq::<Seq<char>>::empty());
        while i < file_names.len()
            invariant
                i <= file_names@.len(),
                fv == strings_view(file_names@),
                strings_view(out@) == normalized_names(fv.subrange(0, i as int)),
            decreases file_names.len() - i,
        {
            assert(fv.subrange(0, i + 1).drop_last() =~= fv.subrange(0, i as int));
            assert(fv.subrange(0, i + 1).last() == file_names@[i as int]@);
            let n = normalize_mascot_lookup_text(file_names[i].as_str());
            let nc = chars_of(n.as_str());
            if nc.len() > 0 {
                let ghost before = out@;
                out.push(n);
                assert(strings_view(out@) =~= strings_view(before).push(nc@));
            }
            i = i + 1;
        }
        assert(fv.subrange(0, fv.len() as int) =~= fv);
        PsdAvailability { normalized_file_names: out }
    }

    /// Whether the renderer has a PSD for `speaker`.
    pub fn speaker_has_psd(&self, speaker: &str) -> (b: bool)
        ensures
            b == spec_speaker_has_psd(self.names(), speaker@),
    {
        let n = normalize_mascot_lookup_text(speaker);
        let nc = chars_of(n.as_str());
        if nc.len() == 0 {
            return false;
        }
        let mut k: usize = 0;
        while k < self.normalized_file_names.len()
            invariant
                k <= self.names().len(),
                nc@ == spec_normalize_lookup(speaker@),
                nc@.len() > 0,
                self.names().len() == self.normalized_file_names@.len(),
                forall|j: int| 0 <= j < k ==> !has_infix(#[trigger] self.names()[j], nc@),
            decreases self.normalized_file_names.len() - k,
        {
            let f = chars_of(self.normalized_file_names[k].as_str());
            if contains_chars(f.as_slice(), nc.as_slice()) {
                assert(f@ == self.names()[k as int]);
                assert(has_infix(self.names()[k as int], nc@));
                assert(nc@.len() > 0);
                return true;
            }
            k = k + 1;
        }
        false
    }
}

/// The character of each segment, in order.
pub open spec fn segment_chars(segs: Seq<SegView>) -> Seq<Seq<char>> {
    segs.map_values(|sv: SegView| sv.1.char_name)
}

/// The character of each segment of each line, in order.
pub open spec fn lines_chars(t: TableView, lines: Seq<Seq<char>>) -> Seq<Seq<char>>
    decreases lines.len(),
{
    if lines.len() == 0 {
        Seq::empty()
    } else {
        lines_chars(t, lines.drop_last()) + segment_chars(spec_parse_line(t, lines.last()))
    }
}

/// The names that have a PSD, each once, in the order of their first occurrence.
pub open spec fn first_psd_names(names: Seq<Seq<char>>, avail: Seq<Seq<char>>) -> Seq<Seq<char>>
    decreases names.len(),
{
    if names.len() == 0 {
        Seq::empty()
    } else {
        let p = first_psd_names(names.drop_last(), avail);
        let n = names.last();
        if spec_speaker_has_psd(avail, n) && !p.contains(n) {
            p.push(n)
        } else {
            p
        }
    }
}

/// The characters of the ensemble for `lines`: those that read some text of
/// the lines and have a PSD, each once, in the order they first speak; none
/// while the speaker table is not loaded.
pub fn vpt_ensemble_character_names(
    t: Option<&SpeakerTable>,
    avail: &PsdAvailability,
    lines: &[String],
) -> (r: Vec<String>)
    ensures
        match t {
            Some(t) => strings_view(r@) == first_psd_names(
                lines_chars(t@, strings_view(lines@)),
                avail.names(),
            ),
            None => r@.len() == 0,
        },
{
    let mut names: Vec<String> = Vec::new();
    let t = match t {
        Some(t) => t,
        None => return names,
    };
    let ghost lv = strings_view(lines@);
    let mut i: usize = 0;
    assert(lv.subrange(0, 0) =~= Seq::<Seq<char>>::empty());
    assert(strings_view(names@) =~= Seq::<Seq<char>>::empty());
    while i < lines.len()
        invariant
            i <= lines@.len(),
            lv == strings_view(lines@),
            strings_view(names@) == first_psd_names(lines_chars(t@, lv.subrange(0, i as int)), avail.names()),
        decreases lines.len() - i,
    {
        let segs = parse_line(t, lines[i].as_str());
        let ghost prev = lines_chars(t@, lv.subrange(0, i as int));
        let ghost sc = segment_chars(spec_parse_line(t@, lv[i as int]));
        assert(lv.subrange(0, i + 1).drop_last() =~= lv.subrange(0, i as int));
        assert(lv.subrange(0, i + 1).last() == lines@[i as int]@);
        assert(lines_chars(t@, lv.subrange(0, i + 1)) == prev + sc);
        let mut j: usize = 0;
        assert(prev + sc.subrange(0, 0) =~= prev);
        while j < segs.len()
            invariant
                j <= segs@.len(),
                sc == segment_chars(crate::tag::segs_view(segs@)),
                strings_view(names@) == first_psd_names(prev + sc.subrange(0, j as int), avail.names()),
            decreases segs.len() - j,
        {
            let name = &segs[j].1.char_name;
            assert(sc[j as int] == name@);
            assert((prev + sc.subrange(0, j + 1)).drop_last() =~= prev + sc.subrange(0, j as int));
            assert((prev + sc.subrange(0, j + 1)).last() == name@);
            if avail.speaker_has_psd(name.as_str()) && !crate::speakers::contains_name(&names, name) {
                let ghost before = names@;
                names.push(name.clone());
                assert(strings_view(names@) =~= strings_view(before).push(name@));
            }
            j = j + 1;
        }
        assert(sc.subrange(0, sc.len() as int) =~= sc);
        i = i + 1;
    }
    assert(lv.subrange(0, lv.len() as int) =~= lv);
    names
}

// ── ensemble session ───────────────────────────────────────────────────────

/// Ensemble mode of the renderer.
#[derive(Debug, Clone, Copy, PartialEq, Eq, Structural)]
pub enum EnsembleMode {
    SingleCharacter,
    Favorite,
    Vpt,
}

/// What this editor knows of the renderer's ensemble session.
#[derive(Debug, Clone, Copy, PartialEq, Eq, Structural)]
pub struct MascotSession {
    /// The renderer's mode when the editor started.
    pub startup_mode: Option<EnsembleMode>,
    /// The renderer shows the ensemble of this editor's characters.
    pub active: bool,
    /// At exit, the renderer goes back to single-character mode.
    pub restore_single_character_on_exit: bool,
    /// The ensemble is being set up; playback does not move the mascot meanwhile.
    pub vpt_ensemble_startup_in_progress: bool,
}

/// A restore at exit is only pending while the session is active.
pub open spec fn session_wf(s: MascotSession) -> bool {
    s.restore_single_character_on_exit ==> s.active
}

/// The session after the renderer reported `mode`.
pub open spec fn after_server_mode(s: MascotSession, mode: EnsembleMode) -> MascotSession {
    MascotSession {
        active: mode == EnsembleMode::Vpt,
        restore_single_character_on_exit: if mode == EnsembleMode::Vpt {
            s.restore_single_character_on_exit
        } else {
            false
        },
        ..s
    }
}

/// The session when the start-up ensemble begins from `mode`.
pub open spec fn after_begin_startup(s: MascotSession, mode: EnsembleMode) -> MascotSession {
    MascotSession {
        startup_mode: Some(mode),
        active: mode == EnsembleMode::Vpt,
        restore_single_character_on_exit: false,
        ..s
    }
}

/// The session after the start-up ensemble was posted from `mode`.
pub open spec fn after_startup_posted(s: MascotSession, mode: EnsembleMode) -> MascotSession {
    MascotSession {
        active: true,
        restore_single_character_on_exit: mode == EnsembleMode::Favorite,
        ..s
    }
}

/// The session at exit, once the restore flag was taken.
pub open spec fn after_exit(s: MascotSession) -> MascotSession {
    MascotSession { active: false, restore_single_character_on_exit: false, ..s }
}

/// The modes from which the editor posts its ensemble at start-up.
pub open spec fn posts_startup_ensemble(mode: EnsembleMode) -> bool {
    mode == EnsembleMode::Favorite || mode == EnsembleMode::Vpt
}

/// What the start-up ensemble step does.
#[derive(Debug, Clone, Copy, PartialEq, Eq, Structural)]
pub enum StartupEnsemble {
    /// The renderer is in another mode: nothing to post.
    Skip,
    /// No character of the lines has a PSD: an error.
    NoCharacters,
    /// Post the ensemble of the characters.
    Post,
}

/// The start-up ensemble step for `mode` with `count` characters.
pub open spec fn spec_startup_ensemble(mode: EnsembleMode, count: nat) -> StartupEnsemble {
    if !posts_startup_ensemble(mode) {
        StartupEnsemble::Skip
    } else if count == 0 {
        StartupEnsemble::NoCharacters
    } else {
        StartupEnsemble::Post
    }
}

/// What playback does about the mascot's character before the timeline.
#[derive(Debug, Clone, PartialEq, Eq)]
pub enum CharacterChange {
    /// The ensemble shows every character already.
    SkipEnsembleActive,
    /// The line is read by several characters (or none).
    SkipNoCharacter,
    /// The renderer has no PSD for the character.
    SkipNoPsd,
    /// Ask the renderer to show this character.
    Post(String),
}

/// Text of the renderer's refusal to change character while its ensemble is on.
pub open spec fn spec_indicates_vpt_ensemble_active(message: Seq<char>) -> bool {
    has_infix(message, "ensemble_mode=Vpt"@) && has_infix(
        message,
        "cannot change character while ensemble mode is active"@,
    )
}

/// Whether a failed change-character request was refused because the
/// renderer's ensemble is on (the error as it is displayed with `{:#}`).
pub fn change_character_error_indicates_vpt_ensemble_active(result: &Result<(), String>) -> (b: bool)
    ensures
        b == match result {
            Ok(_) => false,
            Err(m) => spec_indicates_vpt_ensemble_active(m@),
        },
{
    match result {
        Ok(_) => false,
        Err(m) => crate::text::str_contains(m.as_str(), "ensemble_mode=Vpt")
            && crate::text::str_contains(
            m.as_str(),
            "cannot change character while ensemble mode is active",
        ),
    }
}

impl MascotSession {
    /// No session, nothing in progress.
    pub fn new() -> (s: MascotSession)
        ensures
            s.startup_mode is None,
            !s.active,
            !s.restore_single_character_on_exit,
            !s.vpt_ensemble_startup_in_progress,
            session_wf(s),
    {
        MascotSession {
            startup_mode: None,
            active: false,
            restore_single_character_on_exit: false,
            vpt_ensemble_startup_in_progress: false,
        }
    }

    pub fn vpt_ensemble_session_active(&self) -> (b: bool)
        ensures
            b == self.active,
    {
        self.active
    }

    pub fn set_vpt_ensemble_startup_in_progress(&mut self, in_progress: bool)
        ensures
            *final(self) == (MascotSession { vpt_ensemble_startup_in_progress: in_progress, ..*old(self) }),
    {
        self.vpt_ensemble_startup_in_progress = in_progress;
    }

    pub fn is_vpt_ensemble_startup_in_progress(&self) -> (b: bool)
        ensures
            b == self.vpt_ensemble_startup_in_progress,
    {
        self.vpt_ensemble_startup_in_progress
    }

    /// The renderer reported `mode`: the session is active exactly in `Vpt`,
    /// and outside it no restore is pending.
    pub fn sync_vpt_ensemble_session_from_server_mode(&mut self, mode: EnsembleMode)
        ensures
            *final(self) == after_server_mode(*old(self), mode),
            session_wf(*old(self)) ==> session_wf(*final(self)),
    {
        let active = mode == EnsembleMode::Vpt;
        self.active = active;
        if !active {
            self.restore_single_character_on_exit = false;
        }
    }

    /// Start-up from `mode` with the ensemble characters `character_names`:
    /// records the mode and answers what to do next.
    pub fn begin_vpt_ensemble_startup(&mut self, mode: EnsembleMode, character_names: &Vec<String>) -> (step: StartupEnsemble)
        ensures
            *final(self) == after_begin_startup(*old(self), mode),
            step == spec_startup_ensemble(mode, character_names@.len()),
            session_wf(*final(self)),
    {
        self.startup_mode = Some(mode);
        self.active = mode == EnsembleMode::Vpt;
        self.restore_single_character_on_exit = false;
        if !(mode == EnsembleMode::Favorite || mode == EnsembleMode::Vpt) {
            StartupEnsemble::Skip
        } else if character_names.len() == 0 {
            StartupEnsemble::NoCharacters
        } else {
            StartupEnsemble::Post
        }
    }

    /// The start-up ensemble was posted: the session is active, and a
    /// renderer that was in `Favorite` goes back to single-character mode at exit.
    pub fn finish_vpt_ensemble_startup(&mut self, mode: EnsembleMode)
        ensures
            *final(self) == after_startup_posted(*old(self), mode),
            session_wf(*final(self)),
    {
        self.active = true;
        self.restore_single_character_on_exit = mode == EnsembleMode::Favorite;
    }

    /// At exit: whether single-character mode is to be restored; the session
    /// ends either way.
    pub fn take_restore_single_character_on_exit(&mut self) -> (restore: bool)
        ensures
            restore == old(self).restore_single_character_on_exit,
            *final(self) == after_exit(*old(self)),
            session_wf(*final(self)),
    {
        let restore = self.restore_single_character_on_exit;
        self.restore_single_character_on_exit = false;
        self.active = false;
        restore
    }

    /// First step of a character change during playback: the overlay's timed
    /// message is cleared, and the change is posted unless the ensemble is
    /// on, the line has no single character, or that character has no PSD.
    pub fn begin_character_change(
        &self,
        overlay: &mut OverlayState,
        avail: &PsdAvailability,
        speaker: Option<&str>,
    ) -> (c: CharacterChange)
        ensures
            overlay_cleared(*old(overlay), *final(overlay)),
            self.active ==> c == CharacterChange::SkipEnsembleActive,
            !self.active ==> match speaker {
                None => c == CharacterChange::SkipNoCharacter,
                Some(sp) => if spec_speaker_has_psd(avail.names(), sp@) {
                    c matches CharacterChange::Post(n) && n@ == sp@
                } else {
                    c == CharacterChange::SkipNoPsd
                },
            },
    {
        overlay.clear_overlay_message();
        if self.active {
            return CharacterChange::SkipEnsembleActive;
        }
        match speaker {
            None => CharacterChange::SkipNoCharacter,
            Some(sp) => if avail.speaker_has_psd(sp) {
                CharacterChange::Post(sp.to_owned())
            } else {
                CharacterChange::SkipNoPsd
            },
        }
    }

    /// Second step, with the renderer's answer: success goes on to the
    /// timeline; a refusal because the renderer's ensemble is on marks the
    /// session active, dismisses the error overlay and also goes on; any other
    /// error stops the playback sync.
    pub fn finish_character_change(&mut self, overlay: &mut OverlayState, result: &Result<(), String>) -> (go_on: bool)
        ensures
            match result {
                Ok(_) => go_on && *final(self) == *old(self) && *final(overlay) == *old(overlay),
                Err(m) => if spec_indicates_vpt_ensemble_active(m@) {
                    &&& go_on
                    &&& *final(self) == after_server_mode(*old(self), EnsembleMode::Vpt)
                    &&& final(overlay).message is None
                    &&& final(overlay).startup_message == old(overlay).startup_message
                    &&& final(overlay).startup_in_progress == old(overlay).startup_in_progress
                } else {
                    !go_on && *final(self) == *old(self) && *final(overlay) == *old(overlay)
                },
            },
            session_wf(*old(self)) ==> session_wf(*final(self)),
    {
        if change_character_error_indicates_vpt_ensemble_active(result) {
            self.sync_vpt_ensemble_session_from_server_mode(EnsembleMode::Vpt);
            overlay.dismiss_blocking_overlay_message();
            overlay.clear_overlay_message();
            return true;
        }
        result.is_ok()
    }
}

/// `b` is `a` after `clear_overlay_message`.
pub open spec fn overlay_cleared(a: OverlayState, b: OverlayState) -> bool {
    &&& (is_blocking(a.message) ==> b.message == a.message)
    &&& (!is_blocking(a.message) ==> b.message is None)
    &&& b.startup_message == a.startup_message
    &&& b.startup_in_progress == a.startup_in_progress
}

/// A session that started from `Favorite` and posted its ensemble restores
/// single-character mode at exit, exactly once.
pub proof fn lemma_favorite_startup_restores_once(s: MascotSession)
    ensures
        ({
            let s1 = after_startup_posted(after_begin_startup(s, EnsembleMode::Favorite), EnsembleMode::Favorite);
            &&& s1.restore_single_character_on_exit
            &&& !after_exit(s1).restore_single_character_on_exit
        }),
{
}

/// A session that started from `Vpt`, or whose renderer left the ensemble,
/// restores nothing at exit.
pub proof fn lemma_no_restore_without_favorite(s: MascotSession, mode: EnsembleMode)
    requires
        mode != EnsembleMode::Vpt,
    ensures
        !after_startup_posted(after_begin_startup(s, EnsembleMode::Vpt), EnsembleMode::Vpt).restore_single_character_on_exit,
        !after_server_mode(s, mode).restore_single_character_on_exit,
        !after_server_mode(s, mode).active,
{
}

/// Every session operation keeps a pending restore only while the session is active.
pub proof fn lemma_session_ops_keep_wf(s: MascotSession, mode: EnsembleMode)
    requires
        session_wf(s),
    ensures
        session_wf(after_server_mode(s, mode)),
        session_wf(after_begin_startup(s, mode)),
        session_wf(after_startup_posted(s, mode)),
        session_wf(after_exit(s)),
{
}

// ── playback ───────────────────────────────────────────────────────────────

/// One playback for the mascot: its id, the character and the timeline length.
pub struct PlaybackSync {
    pub sync_id: u64,
    pub char_name: Option<String>,
    pub duration_ms: u64,
}

/// Plans the mascot side of playing `wav` for `line`: nothing for a blank
/// line, an empty WAV or while start-up is in progress; else a new sync id,
/// the line's single character and the WAV's duration (or the fallback).
pub fn sync_playback(
    t: &SpeakerTable,
    line: &str,
    wav: &[u8],
    overlay: &OverlayState,
    session: &MascotSession,
    ids: &mut SyncIds,
) -> (r: Option<PlaybackSync>)
    ensures
        (crate::text::is_blank(line@) || wav@.len() == 0 || overlay.startup_in_progress
            || session.vpt_ensemble_startup_in_progress) ==> r is None && *final(ids) == *old(ids),
        !(crate::text::is_blank(line@) || wav@.len() == 0 || overlay.startup_in_progress
            || session.vpt_ensemble_startup_in_progress) ==> match r {
            Some(p) => {
                &&& p.sync_id == old(ids).next
                &&& final(ids).next == (if old(ids).next < u64::MAX {
                    (old(ids).next + 1) as u64
                } else {
                    0u64
                })
                &&& p.duration_ms == match spec_wav_duration_ms(wav@) {
                    Some(d) => d,
                    None => FALLBACK_DURATION_MS,
                }
                &&& match p.char_name {
                    Some(n) => spec_mascot_char_name(spec_parse_line(t@, line@)) == Some(n@),
                    None => spec_mascot_char_name(spec_parse_line(t@, line@)) is None,
                }
            },
            None => false,
        },
{
    if crate::text::is_blank_str(line) || wav.len() == 0 {
        return None;
    }
    if overlay.is_startup_in_progress() || session.is_vpt_ensemble_startup_in_progress() {
        return None;
    }
    let duration_ms = match wav_duration_ms(wav) {
        Some(d) => d,
        None => FALLBACK_DURATION_MS,
    };
    let char_name = mascot_char_name_for_line(t, line);
    let sync_id = ids.next_mascot_sync_id();
    Some(PlaybackSync { sync_id, char_name, duration_ms })
}

// ── skins ──────────────────────────────────────────────────────────────────

/// A PSD the renderer cached, with its rendered PNG when that exists.
#[derive(Debug, Clone, PartialEq, Eq)]
pub struct MascotPsdEntry {
    pub psd_label: String,
    pub png_path: Option<String>,
}

/// The cached PSDs, with the reason when none could be listed.
#[derive(Debug, Clone, PartialEq, Eq)]
pub struct MascotPsdList {
    pub entries: Vec<MascotPsdEntry>,
    pub load_reason: Option<String>,
}

/// The PNGs of the entries whose lowercase label holds `needle`, in order.
pub open spec fn skin_matches(needle: Seq<char>, es: Seq<MascotPsdEntry>) -> Seq<Seq<char>>
    decreases es.len(),
{
    if es.len() == 0 {
        Seq::empty()
    } else {
        let p = skin_matches(needle, es.drop_last());
        let e = es.last();
        if has_infix(crate::text::str_lowercase(e.psd_label@), needle) && e.png_path is Some {
            p.push(e.png_path->0@)
        } else {
            p
        }
    }
}

/// The PNG of a PSD whose label holds `speaker` (trimmed, compared in
/// lowercase): the match at `pick` modulo the number of matches, so that a
/// caller's random `pick` chooses among them; none for a blank speaker or
/// when nothing matches.
pub fn matching_skin_path(speaker: &str, psd_entries: &[MascotPsdEntry], pick: usize) -> (r: Option<String>)
    ensures
        ({
            let sp = trim(speaker@);
            let m = skin_matches(crate::text::str_lowercase(sp), psd_entries@);
            if sp.len() == 0 || m.len() == 0 {
                r is None
            } else {
                r is Some && r->0@ == m[pick as int % m.len() as int]
            }
        }),
{
    let sp = crate::text::trimmed(speaker);
    let spc = chars_of(sp.as_str());
    if spc.len() == 0 {
        return None;
    }
    let low = crate::text::str_to_lowercase(sp.as_str());
    let lowc = chars_of(low.as_str());
    let ghost needle = crate::text::str_lowercase(trim(speaker@));
    let mut matches: Vec<String> = Vec::new();
    let mut i: usize = 0;
    assert(psd_entries@.subrange(0, 0) =~= Seq::<MascotPsdEntry>::empty());
    assert(strings_view(matches@) =~= Seq::<Seq<char>>::empty());
    while i < psd_entries.len()
        invariant
            i <= psd_entries@.len(),
            lowc@ == needle,
            strings_view(matches@) == skin_matches(needle, psd_entries@.subrange(0, i as int)),
        decreases psd_entries.len() - i,
    {
        let e = &psd_entries[i];
        assert(psd_entries@.subrange(0, i + 1).drop_last() =~= psd_entries@.subrange(0, i as int));
        assert(psd_entries@.subrange(0, i + 1).last() == *e);
        let label_low = crate::text::str_to_lowercase(e.psd_label.as_str());
        let lc = chars_of(label_low.as_str());
        if contains_chars(lc.as_slice(), lowc.as_slice()) {
            match &e.png_path {
                Some(png) => {
                    let ghost before = matches@;
                    matches.push(png.clone());
                    assert(strings_view(matches@) =~= strings_view(before).push(png@));
                },
                None => {},
            }
        }
        i = i + 1;
    }
    assert(psd_entries@.subrange(0, psd_entries@.len() as int) =~= psd_entries@);
    if matches.len() == 0 {
        return None;
    }
    let k = pick % matches.len();
    assert(strings_view(matches@)[k as int] == matches@[k as int]@);
    Some(matches[k].clone())
}

/// Labels joined with `, `.
pub open spec fn join_labels(ls: Seq<Seq<char>>) -> Seq<char>
    decreases ls.len(),
{
    if ls.len() == 0 {
        Seq::empty()
    } else if ls.len() == 1 {
        ls[0]
    } else {
        join_labels(ls.drop_last()) + ", "@ + ls.last()
    }
}

pub open spec fn labels_of(es: Seq<MascotPsdEntry>) -> Seq<Seq<char>> {
    es.map_values(|e: MascotPsdEntry| e.psd_label@)
}

/// Message for a speaker no PSD matched, listing every PSD label.
pub fn no_matching_skin_message(speaker: &str, psd_entries: &[MascotPsdEntry]) -> (r: String)
    ensures
        r@ == "hitしませんでした。speaker:"@ + speaker@ + " psdのlist:"@ + join_labels(labels_of(psd_entries@)),
{
    let mut list = String::new();
    let ghost ls = labels_of(psd_entries@);
    let mut i: usize = 0;
    assert(ls.subrange(0, 0) =~= Seq::<Seq<char>>::empty());
    while i < psd_entries.len()
        invariant
            i <= psd_entries@.len(),
            ls == labels_of(psd_entries@),
            list@ == join_labels(ls.subrange(0, i as int)),
        decreases psd_entries.len() - i,
    {
        assert(ls.subrange(0, i + 1).drop_last() =~= ls.subrange(0, i as int));
        assert(ls.subrange(0, i + 1).last() == psd_entries@[i as int].psd_label@);
        if i > 0 {
            crate::text::push_str(&mut list, ", ");
        } else {
            assert(ls.subrange(0, 1)[0] == psd_entries@[0].psd_label@);
        }
        crate::text::push_str(&mut list, psd_entries[i].psd_label.as_str());
        i = i + 1;
    }
    assert(ls.subrange(0, ls.len() as int) =~= ls);
    let mut r = "hitしませんでした。speaker:".to_owned();
    crate::text::push_str(&mut r, speaker);
    crate::text::push_str(&mut r, " psdのlist:");
    crate::text::push_str(&mut r, list.as_str());
    r
}

/// Message for a speaker no PSD matched; with no PSD listed, the reason
/// (or that the list is empty) in brackets.
pub fn no_matching_skin_message_for_list(speaker: &str, psd_list: &MascotPsdList) -> (r: String)
    ensures
        psd_list.entries@.len() == 0 ==> r@ == "hitしませんでした。speaker:"@ + speaker@ + " psdのlist:("@
            + match psd_list.load_reason {
            Some(reason) => reason@,
            None => "psd list is empty"@,
        } + ")"@,
        psd_list.entries@.len() > 0 ==> r@ == "hitしませんでした。speaker:"@ + speaker@ + " psdのlist:"@
            + join_labels(labels_of(psd_list.entries@)),
{
    if psd_list.entries.len() == 0 {
        let mut r = "hitしませんでした。speaker:".to_owned();
        crate::text::push_str(&mut r, speaker);
        crate::text::push_str(&mut r, " psdのlist:(");
        match &psd_list.load_reason {
            Some(reason) => crate::text::push_str(&mut r, reason.as_str()),
            None => crate::text::push_str(&mut r, "psd list is empty"),
        }
        crate::text::push_str(&mut r, ")");
        return r;
    }
    no_matching_skin_message(speaker, psd_list.entries.as_slice())
}

/// A PSD as the renderer's `psd-meta.json` describes it, with whether its
/// rendered PNG file exists.
pub struct MascotPsdMeta {
    pub file_name: String,
    pub path: Option<String>,
    pub rendered_png_path: Option<String>,
    pub rendered_png_exists: bool,
}

/// What `Path::extension` returns for a path, as text.
pub uninterp spec fn path_extension(p: Seq<char>) -> Option<Seq<char>>;

/// The extension of a path (wraps `Path::extension` and `OsStr::to_str`).
#[verifier::external_body]
fn extension_of(p: &str) -> (r: Option<String>)
    ensures
        match r {
            Some(e) => path_extension(p@) == Some(e@),
            None => path_extension(p@) is None,
        },
{
    std::path::Path::new(p).extension().and_then(|e| e.to_str()).map(|e| e.to_owned())
}

/// The entry of a PSD: labelled by its path when it has one, else by its
/// file name; its PNG kept when it has the `png` extension and exists.
pub open spec fn spec_psd_entry(m: MascotPsdMeta) -> (Seq<char>, Option<Seq<char>>) {
    (
        match m.path {
            Some(p) => p@,
            None => m.file_name@,
        },
        match m.rendered_png_path {
            Some(p) => if path_extension(p@) == Some("png"@) && m.rendered_png_exists {
                Some(p@)
            } else {
                None
            },
            None => None,
        },
    )
}

pub open spec fn entry_view(e: MascotPsdEntry) -> (Seq<char>, Option<Seq<char>>) {
    (
        e.psd_label@,
        match e.png_path {
            Some(p) => Some(p@),
            None => None,
        },
    )
}

/// Labels in ascending order.
pub open spec fn labels_sorted(es: Seq<(Seq<char>, Option<Seq<char>>)>) -> bool {
    forall|i: int, j: int| 0 <= i < j < es.len() ==> !lex_lt(#[trigger] es[j].0, #[trigger] es[i].0)
}

fn psd_entry(m: &MascotPsdMeta) -> (e: MascotPsdEntry)
    ensures
        entry_view(e) == spec_psd_entry(*m),
{
    let psd_label = match &m.path {
        Some(p) => p.clone(),
        None => m.file_name.clone(),
    };
    let png_path = match &m.rendered_png_path {
        Some(p) => {
            let ext = extension_of(p.as_str());
            let is_png = match &ext {
                Some(e) => {
                    let ec = chars_of(e.as_str());
                    let pc = chars_of("png");
                    crate::text::chars_eq(ec.as_slice(), pc.as_slice())
                },
                None => false,
            };
            if is_png && m.rendered_png_exists {
                Some(p.clone())
            } else {
                None
            }
        },
        None => None,
    };
    MascotPsdEntry { psd_label, png_path }
}

/// Where an entry labelled `label` goes in `es`: before the first entry whose
/// label is above it, so after every entry with an equal label.
pub open spec fn insert_pos(es: Seq<(Seq<char>, Option<Seq<char>>)>, label: Seq<char>) -> int
    decreases es.len(),
{
    if es.len() == 0 {
        0
    } else if lex_lt(label, es[0].0) {
        0
    } else {
        1 + insert_pos(es.drop_first(), label)
    }
}

/// The entries ordered by label, entries with equal labels in their first
/// order (what a stable sort by label gives).
pub open spec fn sorted_by_label(es: Seq<(Seq<char>, Option<Seq<char>>)>) -> Seq<(Seq<char>, Option<Seq<char>>)>
    decreases es.len(),
{
    if es.len() == 0 {
        es
    } else {
        let r = sorted_by_label(es.drop_last());
        r.insert(insert_pos(r, es.last().0), es.last())
    }
}

proof fn lemma_insert_pos_is_first_above(es: Seq<(Seq<char>, Option<Seq<char>>)>, label: Seq<char>, k: int)
    requires
        0 <= k <= es.len(),
        forall|m: int| 0 <= m < k ==> !lex_lt(label, #[trigger] es[m].0),
        k < es.len() ==> lex_lt(label, es[k].0),
    ensures
        insert_pos(es, label) == k,
    decreases es.len(),
{
    if es.len() > 0 && k > 0 {
        assert(!lex_lt(label, es[0].0));
        let rest = es.drop_first();
        assert forall|m: int| 0 <= m < k - 1 implies !lex_lt(label, #[trigger] rest[m].0) by {
            assert(rest[m] == es[m + 1]);
        }
        if k < es.len() {
            assert(rest[k - 1] == es[k]);
        }
        lemma_insert_pos_is_first_above(rest, label, k - 1);
    }
}

/// Inserts `x` after every entry whose label is not above its own.
fn insert_by_label(v: &mut Vec<MascotPsdEntry>, x: MascotPsdEntry)
    requires
        labels_sorted(old(v)@.map_values(|e: MascotPsdEntry| entry_view(e))),
    ensures
        labels_sorted(final(v)@.map_values(|e: MascotPsdEntry| entry_view(e))),
        final(v)@.map_values(|e: MascotPsdEntry| entry_view(e)).to_multiset() == old(v)@.map_values(
            |e: MascotPsdEntry| entry_view(e),
        ).to_multiset().insert(entry_view(x)),
        final(v)@.map_values(|e: MascotPsdEntry| entry_view(e)) == old(v)@.map_values(
            |e: MascotPsdEntry| entry_view(e),
        ).insert(insert_pos(old(v)@.map_values(|e: MascotPsdEntry| entry_view(e)), x.psd_label@), entry_view(x)),
{
    let ghost vs = v@.map_values(|e: MascotPsdEntry| entry_view(e));
    let xc = chars_of(x.psd_label.as_str());
    let mut k: usize = 0;
    while k < v.len()
        invariant
            k <= v@.len(),
            vs == v@.map_values(|e: MascotPsdEntry| entry_view(e)),
            xc@ == x.psd_label@,
            forall|m: int| 0 <= m < k ==> !lex_lt(xc@, #[trigger] vs[m].0),
        ensures
            k <= v@.len(),
            forall|m: int| 0 <= m < k ==> !lex_lt(xc@, #[trigger] vs[m].0),
            k < v@.len() ==> lex_lt(xc@, vs[k as int].0),
        decreases v.len() - k,
    {
        let lc = chars_of(v[k].psd_label.as_str());
        assert(vs[k as int].0 == lc@);
        if crate::speakers::lex_less(xc.as_slice(), lc.as_slice()) {
            break;
        }
        k = k + 1;
    }
    let ghost xv = entry_view(x);
    proof {
        lemma_insert_pos_is_first_above(vs, xc@, k as int);
        assert forall|m: int| k <= m < vs.len() implies lex_lt(xv.0, #[trigger] vs[m].0) by {
            if m > k {
                crate::speakers::lemma_lex_trichotomy(vs[k as int].0, vs[m].0);
                if vs[k as int].0 != vs[m].0 {
                    assert(!lex_lt(vs[m].0, vs[k as int].0));
                    crate::speakers::lemma_lex_transitive(xv.0, vs[k as int].0, vs[m].0);
                }
            }
        }
    }
    v.insert(k, x);
    proof {
        let nv = v@.map_values(|e: MascotPsdEntry| entry_view(e));
        assert(nv =~= vs.insert(k as int, xv));
        vstd::seq_lib::to_multiset_insert(vs, k as int, xv);
        assert forall|i: int, j: int| 0 <= i < j < nv.len() implies !lex_lt(#[trigger] nv[j].0, #[trigger] nv[i].0) by {
            if i < k && j == k {
            } else if i == k && j > k {
                assert(lex_lt(xv.0, vs[j - 1].0));
                if lex_lt(vs[j - 1].0, xv.0) {
                    crate::speakers::lemma_lex_transitive(xv.0, vs[j - 1].0, xv.0);
                    crate::speakers::lemma_lex_irreflexive(xv.0);
                }
            } else if i < k && j > k {
                assert(!lex_lt(vs[j - 1].0, vs[i].0));
            } else if i > k {
                assert(!lex_lt(vs[j - 1].0, vs[i - 1].0));
            } else {
                assert(!lex_lt(vs[j].0, vs[i].0));
            }
        }
    }
}

/// The cached PSDs from the entries of every `psd-meta.json` under
/// `cache_dir`, ordered by label; with none, the reason names the directory.
pub fn mascot_psd_list_from_meta(cache_dir: &str, metas: &[MascotPsdMeta]) -> (r: MascotPsdList)
    ensures
        labels_sorted(r.entries@.map_values(|e: MascotPsdEntry| entry_view(e))),
        r.entries@.map_values(|e: MascotPsdEntry| entry_view(e)).to_multiset() == metas@.map_values(
            |m: MascotPsdMeta| spec_psd_entry(m),
        ).to_multiset(),
        r.entries@.len() == metas@.len(),
        r.entries@.map_values(|e: MascotPsdEntry| entry_view(e)) == sorted_by_label(
            metas@.map_values(|m: MascotPsdMeta| spec_psd_entry(m)),
        ),
        metas@.len() == 0 ==> r.load_reason is Some && r.load_reason->0@
            == "no valid psd-meta.json entries were found under "@ + cache_dir@,
        metas@.len() > 0 ==> r.load_reason is None,
{
    let mut entries: Vec<MascotPsdEntry> = Vec::new();
    let ghost ms = metas@.map_values(|m: MascotPsdMeta| spec_psd_entry(m));
    let mut i: usize = 0;
    assert(ms.subrange(0, 0) =~= Seq::<(Seq<char>, Option<Seq<char>>)>::empty());
    assert(entries@.map_values(|e: MascotPsdEntry| entry_view(e)) =~= Seq::<(Seq<char>, Option<Seq<char>>)>::empty());
    while i < metas.len()
        invariant
            i <= metas@.len(),
            ms == metas@.map_values(|m: MascotPsdMeta| spec_psd_entry(m)),
            entries@.len() == i,
            labels_sorted(entries@.map_values(|e: MascotPsdEntry| entry_view(e))),
            entries@.map_values(|e: MascotPsdEntry| entry_view(e)).to_multiset() == ms.subrange(0, i as int).to_multiset(),
            entries@.map_values(|e: MascotPsdEntry| entry_view(e)) == sorted_by_label(ms.subrange(0, i as int)),
        decreases metas.len() - i,
    {
        let e = psd_entry(&metas[i]);
        assert(entry_view(e) == ms[i as int]);
        insert_by_label(&mut entries, e);
        proof {
            assert(ms.subrange(0, i + 1) =~= ms.subrange(0, i as int).push(ms[i as int]));
            assert(ms.subrange(0, i + 1).drop_last() =~= ms.subrange(0, i as int));
            assert(ms.subrange(0, i + 1).last() == ms[i as int]);
            vstd::seq_lib::to_multiset_build(ms.subrange(0, i as int), ms[i as int]);
            vstd::seq_lib::to_multiset_len(entries@.map_values(|e: MascotPsdEntry| entry_view(e)));
            vstd::seq_lib::to_multiset_len(ms.subrange(0, i + 1));
        }
        i = i + 1;
    }
    assert(ms.subrange(0, ms.len() as int) =~= ms);
    let load_reason = if entries.len() == 0 {
        let mut m = "no valid psd-meta.json entries were found under ".to_owned();
        crate::text::push_str(&mut m, cache_dir);
        Some(m)
    } else {
        None
    };
    MascotPsdList { entries, load_reason }
}


/// The list when the cache directory itself could not be found.
pub fn unresolved_psd_list() -> (r: MascotPsdList)
    ensures
        r.entries@.len() == 0,
        r.load_reason is Some && r.load_reason->0@ == "cache path could not be resolved"@,
{
    MascotPsdList { entries: Vec::new(), load_reason: Some("cache path could not be resolved".to_owned()) }
}

/// The cached PSDs under `cache_dir`, given what reading the directory
/// gave: the entries of its `psd-meta.json` files, or the read error. A
/// failed read leaves the list empty with a reason naming the directory and
/// the error; otherwise see `mascot_psd_list_from_meta`.
pub fn mascot_psd_list_from_listing(cache_dir: &str, listing: Result<Vec<MascotPsdMeta>, String>) -> (r: MascotPsdList)
    ensures
        match listing {
            Err(error) => {
                &&& r.entries@.len() == 0
                &&& r.load_reason is Some
                &&& r.load_reason->0@ == "cache path could not be read: "@ + cache_dir@ + " ("@ + error@ + ")"@
            },
            Ok(metas) => {
                &&& r.entries@.map_values(|e: MascotPsdEntry| entry_view(e)) == sorted_by_label(
                    metas@.map_values(|m: MascotPsdMeta| spec_psd_entry(m)),
                )
                &&& labels_sorted(r.entries@.map_values(|e: MascotPsdEntry| entry_view(e)))
                &&& metas@.len() == 0 ==> r.load_reason is Some && r.load_reason->0@
                    == "no valid psd-meta.json entries were found under "@ + cache_dir@
                &&& metas@.len() > 0 ==> r.load_reason is None
            },
        },
{
    match listing {
        Err(error) => {
            let mut m = "cache path could not be read: ".to_owned();
            crate::text::push_str(&mut m, cache_dir);
            crate::text::push_str(&mut m, " (");
            crate::text::push_str(&mut m, error.as_str());
            crate::text::push_str(&mut m, ")");
            MascotPsdList { entries: Vec::new(), load_reason: Some(m) }
        },
        Ok(metas) => mascot_psd_list_from_meta(cache_dir, metas.as_slice()),
    }
}

} // verus!
