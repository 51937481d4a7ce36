use vrc_osc::chat::{apply_reply, replace, ChatMessage, ChatPipeline, ChatReply, Track};
use vrc_osc::text::replace_all;
use vrc_osc::version::update_available;

fn msg(a: &str, b: &str) -> ChatMessage {
    (a.to_string(), b.to_string())
}

fn suffix_stage(tag: &str, m: &ChatMessage) -> ChatReply {
    ChatReply::Replied(format!("{}|{}", m.0, tag), format!("{}|{}", m.1, tag))
}

fn names(v: &[&str]) -> Vec<String> {
    v.iter().map(|s| s.to_string()).collect()
}

#[test]
fn chat_pipeline_applies_stages_in_order() {
    let mut run = ChatPipeline::new(msg("x", "y"), &names(&["a", "b"]), &names(&["a", "b"]));
    while let Some(stage) = run.next_stage() {
        let reply = suffix_stage(&stage, &run.current());
        run.record(reply);
    }
    assert_eq!(run.finish(), msg("x|a|b", "y|a|b"));
}

#[test]
fn chat_pipeline_follows_name_order_and_skips_disabled() {
    let mut run = ChatPipeline::new(msg("x", "y"), &names(&["b", "c", "a"]), &names(&["a", "b"]));
    let mut seen = Vec::new();
    while let Some(stage) = run.next_stage() {
        let reply = suffix_stage(&stage, &run.current());
        seen.push(stage);
        run.record(reply);
    }
    assert_eq!(seen, names(&["b", "a"]));
    assert_eq!(run.finish(), msg("x|b|a", "y|b|a"));
}

#[test]
fn chat_pipeline_skips_missing_stage() {
    let mut run = ChatPipeline::new(msg("x", "y"), &names(&["a", "b"]), &names(&["a", "b"]));
    while let Some(stage) = run.next_stage() {
        let reply = if stage == "a" { ChatReply::Missing } else { suffix_stage(&stage, &run.current()) };
        run.record(reply);
    }
    assert_eq!(run.finish(), msg("x|b", "y|b"));
}

#[test]
fn chat_pipeline_keeps_message_on_failure() {
    let m = apply_reply(msg("x", "y"), ChatReply::Failed);
    assert_eq!(m, msg("x", "y"));
}

#[test]
fn track_fills_placeholders() {
    let track = Track { name: "Song".to_string(), artist: "Band".to_string(), url: "https://example.org/t".to_string() };
    let mut m = "📻 {song} - {artists}".to_string();
    replace(&mut m, &track);
    assert_eq!(m, "📻 Song - Band");
    let mut n = "{artist}: {song} {song}".to_string();
    replace(&mut n, &track);
    assert_eq!(n, "Band: Song Song");
}

#[test]
fn replace_all_is_left_to_right_without_overlap() {
    assert_eq!(replace_all("aaa", "aa", "b"), "ba");
    assert_eq!(replace_all("", "x", "y"), "");
    assert_eq!(replace_all("abc", "abcd", "z"), "abc");
    assert_eq!(replace_all("ééx", "é", "e"), "eex");
}

#[test]
fn newer_release_is_detected() {
    assert!(update_available("https://github.com/ShayBox/VRC-OSC/releases/tag/1.2.0", "1.1.0"));
    assert!(!update_available("https://github.com/ShayBox/VRC-OSC/releases/tag/1.1.0", "1.1.0"));
    assert!(!update_available("https://github.com/ShayBox/VRC-OSC/releases/tag/1.0.9", "1.1.0"));
    assert!(!update_available("https://github.com/ShayBox/VRC-OSC/releases/", "1.1.0"));
    assert!(update_available("1.1.1", "1.1.0"));
}
