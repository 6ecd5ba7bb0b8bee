use voicevox_playground_tui::speakers::{Speaker, SpeakerStyle, SpeakerTable};
use voicevox_playground_tui::tag::{
    ctx_to_prefix, expand_id_tags, line_head_ctx, parse_line, rewrite_line_with_ctx,
    split_by_ctx_change, strip_known_tags, tail_ctx, VoiceCtx,
};

fn style(name: &str, id: u32) -> SpeakerStyle {
    SpeakerStyle { name: name.to_string(), id }
}

/// ずんだもん: ノーマル(3), あまあま(1); 四国めたん: ノーマル(2).
fn setup() -> SpeakerTable {
    SpeakerTable::from_speakers(
        vec![
            Speaker {
                name: "ずんだもん".to_string(),
                styles: vec![style("ノーマル", 3), style("あまあま", 1)],
            },
            Speaker { name: "四国めたん".to_string(), styles: vec![style("ノーマル", 2)] },
        ],
        String::new(),
    )
}

#[test]
fn tag_split_no_change_plain_text() {
    let t = setup();
    let result = split_by_ctx_change(&t, "ずんだもん喋る");
    assert_eq!(result, vec!["ずんだもん喋る"]);
}

#[test]
fn tag_split_no_change_prefix_tags_only() {
    let t = setup();
    let result = split_by_ctx_change(&t, "[四国めたん]めたん喋る");
    assert_eq!(result, vec!["[四国めたん]めたん喋る"]);
}

#[test]
fn tag_split_mid_line_char_change() {
    let t = setup();
    let result = split_by_ctx_change(&t, "ずんだもん喋る[四国めたん]めたん喋る");
    assert_eq!(result, vec!["ずんだもん喋る", "[四国めたん]めたん喋る"]);
}

#[test]
fn tag_split_mid_line_style_change() {
    let t = setup();
    let result = split_by_ctx_change(&t, "ずんだもん喋る[あまあま]あまあま喋る");
    assert_eq!(result, vec!["ずんだもん喋る", "[あまあま]あまあま喋る"]);
}

#[test]
fn tag_split_mid_line_multiple_changes() {
    let t = setup();
    let result =
        split_by_ctx_change(&t, "ずんだもん[四国めたん]めたん[ずんだもん][あまあま]あまあま");
    assert_eq!(result, vec!["ずんだもん", "[四国めたん]めたん", "[あまあま]あまあま"]);
}

#[test]
fn line_head_ctx_uses_first_spoken_segment() {
    let t = setup();
    let ctx = line_head_ctx(&t, "[四国めたん]めたん[あまあま]あまあま");
    assert_eq!(ctx.char_name, "四国めたん");
    assert_eq!(ctx.style_name, "ノーマル");
    assert_eq!(ctx.speaker_id, 2);
}

#[test]
fn strip_known_tags_removes_only_recognized_voice_tags() {
    let t = setup();
    assert_eq!(strip_known_tags(&t, " [四国めたん][ノーマル]おはよう[meta]"), " おはよう[meta]");
}

#[test]
fn rewrite_line_with_ctx_preserves_leading_space_and_unknown_tags() {
    let t = setup();
    let ctx = VoiceCtx::new_default(&t);
    assert_eq!(rewrite_line_with_ctx(&t, " [四国めたん]おはよう[meta]", &ctx), " おはよう[meta]");
}

#[test]
fn rewrite_line_with_ctx_puts_new_voice_prefix() {
    let t = setup();
    let ctx = VoiceCtx { char_name: "四国めたん".to_string(), style_name: "ノーマル".to_string(), speaker_id: 2 };
    assert_eq!(rewrite_line_with_ctx(&t, "[あまあま]おはよう", &ctx), "[四国めたん]おはよう");
}

#[test]
fn parse_line_assigns_voices_and_trims_segments() {
    let t = setup();
    let segs = parse_line(&t, " こんにちは [四国めたん] めたん [1]あまい");
    assert_eq!(segs.len(), 3);
    assert_eq!(segs[0].0, "こんにちは");
    assert_eq!(segs[0].1.speaker_id, 3);
    assert_eq!(segs[1].0, "めたん");
    assert_eq!(segs[1].1.char_name, "四国めたん");
    assert_eq!(segs[1].1.speaker_id, 2);
    assert_eq!(segs[2].0, "あまい");
    assert_eq!(segs[2].1.char_name, "ずんだもん");
    assert_eq!(segs[2].1.style_name, "あまあま");
    assert_eq!(segs[2].1.speaker_id, 1);
}

#[test]
fn parse_line_keeps_unknown_tags_as_text() {
    let t = setup();
    let segs = parse_line(&t, "a[ meta ]b[99]c[unclosed");
    assert_eq!(segs.len(), 1);
    assert_eq!(segs[0].0, "a[meta]b[99]c[unclosed]");
}

#[test]
fn parse_line_of_blank_or_tag_only_line_is_empty() {
    let t = setup();
    assert!(parse_line(&t, "   ").is_empty());
    assert!(parse_line(&t, "[四国めたん]").is_empty());
}

#[test]
fn style_tag_for_other_character_keeps_voice() {
    let t = setup();
    // 四国めたん has no あまあま style: the tag changes nothing.
    let ctx = tail_ctx(&t, "[四国めたん][あまあま]");
    assert_eq!(ctx.char_name, "四国めたん");
    assert_eq!(ctx.style_name, "ノーマル");
    assert_eq!(ctx.speaker_id, 2);
}

#[test]
fn tail_ctx_follows_the_last_tag() {
    let t = setup();
    let ctx = tail_ctx(&t, "text[四国めたん]more[3]");
    assert_eq!(ctx.char_name, "ずんだもん");
    assert_eq!(ctx.style_name, "ノーマル");
    assert_eq!(ctx.speaker_id, 3);
}

#[test]
fn ctx_to_prefix_omits_default_parts() {
    let t = setup();
    let d = VoiceCtx::new_default(&t);
    assert_eq!(ctx_to_prefix(&t, &d), "");
    let sweet = VoiceCtx { char_name: "ずんだもん".to_string(), style_name: "あまあま".to_string(), speaker_id: 1 };
    assert_eq!(ctx_to_prefix(&t, &sweet), "[あまあま]");
    let metan = VoiceCtx { char_name: "四国めたん".to_string(), style_name: "ノーマル".to_string(), speaker_id: 2 };
    assert_eq!(ctx_to_prefix(&t, &metan), "[四国めたん]");
}

#[test]
fn expand_id_tags_omits_same_character() {
    let t = setup();
    assert_eq!(expand_id_tags(&t, "[1]こんにちは"), "[あまあま]こんにちは");
}

#[test]
fn expand_id_tags_names_other_character() {
    let t = setup();
    assert_eq!(expand_id_tags(&t, "[四国めたん]やあ[1]こんにちは"), "[四国めたん]やあ[ずんだもん][あまあま]こんにちは");
}

#[test]
fn expand_id_tags_default_style_is_left_out() {
    let t = setup();
    assert_eq!(expand_id_tags(&t, "[2]めたん[3]ずんだ"), "[四国めたん]めたん[ずんだもん]ずんだ");
    assert_eq!(expand_id_tags(&t, "[42]x[ meta ]"), "[42]x[ meta ]");
}

#[test]
fn speaker_table_lookups() {
    let t = setup();
    assert_eq!(t.resolve_by_name("ずんだもん", "あまあま"), Some(1));
    assert_eq!(t.resolve_by_name("四国めたん", "あまあま"), None);
    assert_eq!(
        t.resolve_by_id(2),
        Some(("四国めたん".to_string(), "ノーマル".to_string(), 2))
    );
    assert_eq!(t.resolve_by_id(7), None);
    assert_eq!(t.char_names, vec!["ずんだもん", "四国めたん"]);
    assert_eq!(t.style_names, vec!["あまあま", "ノーマル"]);
    assert_eq!(t.default_id, 3);
    assert_eq!(t.default_char, "ずんだもん");
    assert_eq!(t.default_style, "ノーマル");
}

#[test]
fn speaker_table_defaults_to_first_style_without_id_three() {
    let t = SpeakerTable::from_speakers(
        vec![Speaker { name: "A".to_string(), styles: vec![style("x", 8), style("y", 9)] }],
        String::from("http://localhost:50021"),
    );
    assert_eq!(t.default_id, 8);
    assert_eq!(t.default_char, "A");
    assert_eq!(t.default_style, "x");
    let empty = SpeakerTable::from_speakers(vec![], String::new());
    assert_eq!(empty.default_id, 0);
    assert_eq!(empty.default_char, "");
}

#[test]
fn voice_ctx_apply_operations() {
    let t = setup();
    let mut ctx = VoiceCtx::new_default(&t);
    ctx.apply_style(&t, "あまあま");
    assert_eq!(ctx.speaker_id, 1);
    ctx.apply_char(&t, "四国めたん");
    assert_eq!((ctx.char_name.as_str(), ctx.style_name.as_str(), ctx.speaker_id), ("四国めたん", "ノーマル", 2));
    ctx.apply_id(&t, 1);
    assert_eq!((ctx.char_name.as_str(), ctx.style_name.as_str(), ctx.speaker_id), ("ずんだもん", "あまあま", 1));
    ctx.apply_id(&t, 99);
    assert_eq!(ctx.speaker_id, 1);
    ctx.apply_char(&t, "nobody");
    assert_eq!(ctx.char_name, "ずんだもん");
}

#[test]
fn split_no_change_plain_text() {
    let t = setup();
    let result = split_by_ctx_change(&t, "ずんだもん喋る");
    assert_eq!(result, vec!["ずんだもん喋る"]);
}

#[test]
fn split_no_change_prefix_tags_only() {
    let t = setup();
    let result = split_by_ctx_change(&t, "[四国めたん]めたん喋る");
    assert_eq!(result, vec!["[四国めたん]めたん喋る"]);
}

#[test]
fn split_mid_line_char_change() {
    let t = setup();
    let result = split_by_ctx_change(&t, "ずんだもん喋る[四国めたん]めたん喋る");
    assert_eq!(result, vec!["ずんだもん喋る", "[四国めたん]めたん喋る"]);
}

#[test]
fn split_mid_line_style_change() {
    let t = setup();
    let result = split_by_ctx_change(&t, "ずんだもん喋る[あまあま]あまあま喋る");
    assert_eq!(result, vec!["ずんだもん喋る", "[あまあま]あまあま喋る"]);
}

#[test]
fn split_mid_line_multiple_changes() {
    let t = setup();
    let result =
        split_by_ctx_change(&t, "ずんだもん[四国めたん]めたん[ずんだもん][あまあま]あまあま");
    assert_eq!(result, vec!["ずんだもん", "[四国めたん]めたん", "[あまあま]あまあま"]);
}

#[test]
fn expand_id_tags_twice_is_expanding_once() {
    let t = setup();
    for line in ["[1]やあ[2]ども", "[3]x[四国めたん][9]y", "[1", "plain", "[ 2 ]a[1]b"] {
        let once = expand_id_tags(&t, line);
        assert_eq!(expand_id_tags(&t, &once), once);
    }
}

#[test]
fn parsed_voices_resolve_by_name() {
    let t = setup();
    for (_, ctx) in parse_line(&t, "a[四国めたん]b[ずんだもん][あまあま]c[1]d") {
        assert_eq!(t.resolve_by_name(&ctx.char_name, &ctx.style_name), Some(ctx.speaker_id));
    }
}

#[test]
fn tail_ctx_is_the_voice_of_what_follows() {
    let t = setup();
    for line in ["", "a[四国めたん]b", "[ずんだもん][あまあま]", "x[1]"] {
        let extended = format!("{line}z");
        let segs = parse_line(&t, &extended);
        let last = &segs.last().unwrap().1;
        let tail = tail_ctx(&t, line);
        assert_eq!((&last.char_name, &last.style_name, last.speaker_id), (&tail.char_name, &tail.style_name, tail.speaker_id));
    }
}

#[test]
fn tail_ctx_reads_back_ctx_to_prefix() {
    let t = setup();
    let voices = [("ずんだもん", "ノーマル", 3), ("ずんだもん", "あまあま", 1), ("四国めたん", "ノーマル", 2)];
    for (c, s, id) in voices {
        let ctx = VoiceCtx { char_name: c.to_string(), style_name: s.to_string(), speaker_id: id };
        let back = tail_ctx(&t, &ctx_to_prefix(&t, &ctx));
        assert_eq!((back.char_name.as_str(), back.style_name.as_str(), back.speaker_id), (c, s, id));
    }
}

#[test]
fn lookups_by_id_and_by_name_are_inverse() {
    let t = setup();
    for id in [1u32, 2, 3] {
        let (c, s, got) = t.resolve_by_id(id).unwrap();
        assert_eq!(got, id);
        assert_eq!(t.resolve_by_name(&c, &s), Some(id));
    }
    assert_eq!(t.resolve_by_name("ずんだもん", "ノーマル").and_then(|id| t.resolve_by_id(id)),
        Some(("ずんだもん".to_string(), "ノーマル".to_string(), 3)));
}
