use cinematic::context::Role;
use cinematic::examples::{any_tag_chosen, parse_transcript};

#[test]
fn transcript_lines_parse_by_role_tag() {
    let transcript = "U:add the moon movie\nA:[MOVIES_LOOKUP~moon]Looking this up\nS:[MOVIES_LOOKUP~moon~Moon (2009);unavailable]\nA:On the way";
    let messages = parse_transcript(transcript);
    assert_eq!(messages.len(), 4);
    assert_eq!(messages[0].role, Role::User);
    assert_eq!(messages[0].content, "add the moon movie");
    assert_eq!(messages[1].role, Role::Assistant);
    assert_eq!(messages[1].content, "[MOVIES_LOOKUP~moon]Looking this up");
    assert_eq!(messages[2].role, Role::System);
    assert_eq!(messages[3].role, Role::Assistant);
    assert_eq!(messages[3].content, "On the way");
}

#[test]
fn untagged_lines_are_dropped() {
    let messages = parse_transcript("no tag here\nU:kept\n\nX:unknown tag\nA:");
    assert_eq!(messages.len(), 2);
    assert_eq!(messages[0].role, Role::User);
    assert_eq!(messages[0].content, "kept");
    assert_eq!(messages[1].role, Role::Assistant);
    assert_eq!(messages[1].content, "");
}

#[test]
fn empty_transcript_parses_to_nothing() {
    assert!(parse_transcript("").is_empty());
}

#[test]
fn tag_selection_by_membership() {
    let tags = vec!["wants movie added".to_string(), "wants media added".to_string()];
    let chosen = vec![
        "asking for a recommendation".to_string(),
        "wants media added".to_string(),
    ];
    assert!(any_tag_chosen(&tags, &chosen));

    let other = vec!["asking for a recommendation".to_string()];
    assert!(!any_tag_chosen(&tags, &other));
    assert!(!any_tag_chosen(&Vec::new(), &chosen));
}
