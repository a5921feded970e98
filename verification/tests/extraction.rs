use cinematic::extract::{extract_new, scan_buffer, split_chars, parse_invocation};
use cinematic::text::{chars_of, replace_all, string_from_chars, truncate_with_ellipsis};

fn no_seen() -> Vec<String> {
    Vec::new()
}

#[test]
fn scenario_single_command_and_visible_text() {
    let (invs, visible) = extract_new("Let me check [WEB~distance to moon]", &no_seen());
    assert_eq!(visible, "Let me check ");
    assert_eq!(invs.len(), 1);
    assert_eq!(invs[0].name, "WEB");
    assert_eq!(invs[0].args, vec!["distance to moon".to_string()]);
    assert_eq!(invs[0].dedup_key, "WEB~distance to moon");
}

#[test]
fn extraction_is_pure_on_identical_buffers() {
    let buffer = "a [WEB~x] b [MEM_GET~y] c";
    let (invs1, vis1) = extract_new(buffer, &no_seen());
    let (invs2, vis2) = extract_new(buffer, &no_seen());
    assert_eq!(vis1, vis2);
    assert_eq!(invs1.len(), invs2.len());
    for (a, b) in invs1.iter().zip(invs2.iter()) {
        assert_eq!(a.dedup_key, b.dedup_key);
        assert_eq!(a.name, b.name);
        assert_eq!(a.args, b.args);
    }
}

#[test]
fn repeated_command_extracted_once() {
    let (invs, _) = extract_new("[WEB~term1] again [WEB~term1]", &no_seen());
    assert_eq!(invs.len(), 1);
    assert_eq!(invs[0].dedup_key, "WEB~term1");
}

#[test]
fn seen_commands_are_skipped() {
    let seen = vec!["WEB~term1".to_string()];
    let (invs, _) = extract_new("[WEB~term1] and [WEB~term2]", &seen);
    assert_eq!(invs.len(), 1);
    assert_eq!(invs[0].dedup_key, "WEB~term2");
}

#[test]
fn restreamed_buffer_adds_nothing_new() {
    let mut seen: Vec<String> = Vec::new();
    let (first, _) = extract_new("thinking [WEB~term1]", &seen);
    assert_eq!(first.len(), 1);
    seen.push(first[0].dedup_key.clone());
    let (second, _) = extract_new("thinking [WEB~term1] more [WEB~term1]", &seen);
    assert_eq!(second.len(), 0);
}

#[test]
fn unterminated_bracket_suppresses_tail() {
    let (invs, visible) = extract_new("shown [WEB~done] also shown [WEB~pending", &no_seen());
    assert_eq!(invs.len(), 1);
    assert_eq!(invs[0].dedup_key, "WEB~done");
    assert_eq!(visible, "shown  also shown ");
}

#[test]
fn bracket_spans_close_at_first_closer() {
    let (cmds, visible) = scan_buffer("x [a [b] y");
    assert_eq!(cmds.len(), 1);
    let cmd: String = cmds[0].iter().collect();
    assert_eq!(cmd, "a [b");
    assert_eq!(visible, "x  y");
}

#[test]
fn empty_buffer_yields_nothing() {
    let (invs, visible) = extract_new("", &no_seen());
    assert_eq!(invs.len(), 0);
    assert_eq!(visible, "");
}

#[test]
fn multiple_commands_keep_textual_order() {
    let (invs, visible) = extract_new("[A~1][B~2] mid [C~3]", &no_seen());
    let names: Vec<&str> = invs.iter().map(|i| i.name.as_str()).collect();
    assert_eq!(names, vec!["A", "B", "C"]);
    assert_eq!(visible, " mid ");
}

#[test]
fn command_without_args_parses_name_only() {
    let (invs, _) = extract_new("[MOVIES_DOWNLOADS]", &no_seen());
    assert_eq!(invs.len(), 1);
    assert_eq!(invs[0].name, "MOVIES_DOWNLOADS");
    assert!(invs[0].args.is_empty());
}

#[test]
fn command_with_many_args_keeps_them_in_order() {
    let raw: Vec<char> = "WEB~one~two~three".chars().collect();
    let inv = parse_invocation(&raw);
    assert_eq!(inv.name, "WEB");
    assert_eq!(inv.args, vec!["one".to_string(), "two".to_string(), "three".to_string()]);
}

#[test]
fn split_chars_handles_empty_and_adjacent_separators() {
    let chars: Vec<char> = "~a~~b".chars().collect();
    let parts = split_chars(&chars, '~');
    let parts: Vec<String> = parts.iter().map(|p| p.iter().collect()).collect();
    assert_eq!(parts, vec!["", "a", "", "b"]);
}

#[test]
fn chars_round_trip_through_string() {
    let v = chars_of("héllo 🎬 wörld");
    let s = string_from_chars(&v);
    assert_eq!(s, "héllo 🎬 wörld");
}

#[test]
fn truncation_beyond_cap_adds_ellipsis() {
    let long: String = "x".repeat(160);
    let cut = truncate_with_ellipsis(&long, 150);
    assert_eq!(cut.chars().count(), 153);
    assert!(cut.ends_with("..."));
    assert!(cut.starts_with(&"x".repeat(150)));
}

#[test]
fn truncation_within_cap_is_identity() {
    let short: String = "y".repeat(150);
    assert_eq!(truncate_with_ellipsis(&short, 150), short);
    assert_eq!(truncate_with_ellipsis("", 150), "");
}

#[test]
fn replacement_is_leftmost_nonoverlapping() {
    assert_eq!(replace_all("aaa", "aa", "b"), "ba");
    assert_eq!(replace_all("💬 hi 💬 yo", "💬 ", "User: "), "User: hi User: yo");
    assert_eq!(replace_all("nothing here", "xyz", "!"), "nothing here");
    assert_eq!(replace_all("abc", "", "x"), "abc");
}

#[test]
fn truncation_counts_characters_not_bytes() {
    let emoji: String = "🎬".repeat(5);
    let cut = truncate_with_ellipsis(&emoji, 3);
    assert_eq!(cut, "🎬🎬🎬...");
}
