use lightcode::mentions::{
    cuts_on_boundaries, is_mention_at, mention_at_cursor, mention_context, parse_mentions, MentionEntry, MentionTarget,
};

#[test]
fn detects_mention_after_whitespace_not_in_email() {
    assert!(is_mention_at("fix @src/a.ts", 4));
    assert!(is_mention_at("@src/a.ts", 0));
    assert!(!is_mention_at("user@host", 4));
    assert!(!is_mention_at("email:user@x.com", 10));
}

#[test]
fn detects_mention_at_cursor() {
    let m = mention_at_cursor("fix the bug in @auth.ser", 24).unwrap();
    assert_eq!(m.start, 15);
    assert_eq!(m.path, "auth.ser");
    // Cursor past the mention (after a space) is not a mention.
    assert!(mention_at_cursor("fix @a.ts done", 13).is_none());
    // No '@' before the cursor.
    assert!(mention_at_cursor("just typing", 5).is_none());
}

#[test]
fn parses_multiple_mentions() {
    let text = "compare @src/a.ts and @src/b.ts fix";
    let ms = parse_mentions(text);
    assert_eq!(ms.len(), 2);
    assert_eq!(ms[0].path, "src/a.ts");
    assert_eq!(ms[1].path, "src/b.ts");
    assert_eq!(&text[ms[1].start..ms[1].end], "@src/b.ts");
}

#[test]
fn parses_mention_at_start_and_middle() {
    assert_eq!(parse_mentions("@a.ts fix")[0].path, "a.ts");
    assert_eq!(parse_mentions("fix @a.ts")[0].path, "a.ts");
    assert!(parse_mentions("no mentions here").is_empty());
    assert!(parse_mentions("an email user@example.com here").is_empty());
}

#[test]
fn stops_at_whitespace_and_punctuation() {
    let ms = parse_mentions("@a.ts, @b.ts");
    assert_eq!(ms.len(), 2);
    assert_eq!(ms[0].path, "a.ts");
}

#[test]
fn mention_offsets_are_bytes_with_multibyte_text() {
    let text = "héllo @ü.rs";
    let ms = parse_mentions(text);
    assert_eq!(ms.len(), 1);
    assert_eq!(ms[0].start, 7);
    assert_eq!(ms[0].end, text.len());
    assert_eq!(ms[0].path, "ü.rs");
    assert!(is_mention_at(text, 7));
    let m = mention_at_cursor(text, text.len()).unwrap();
    assert_eq!(m.start, 7);
    assert_eq!(m.path, "ü.rs");
}

#[test]
fn cursor_beyond_text_is_clamped() {
    let m = mention_at_cursor("see @a", 100).unwrap();
    assert_eq!(m.start, 4);
    assert_eq!(m.end, 6);
    assert_eq!(m.path, "a");
}

#[test]
fn bare_at_sign_is_an_empty_mention() {
    let ms = parse_mentions("look @ here");
    assert_eq!(ms.len(), 1);
    assert_eq!(ms[0].path, "");
    assert_eq!((ms[0].start, ms[0].end), (5, 6));
    assert!(!is_mention_at("look @ here", 4));
}

fn entry(path: &str, target: MentionTarget) -> MentionEntry {
    MentionEntry { path: path.into(), target }
}

#[test]
fn mention_context_inlines_files_and_lists_directories() {
    assert!(mention_context(&vec![]).is_none());
    let es = vec![
        entry("src/a.rs", MentionTarget::File("fn x() {}".into())),
        entry("", MentionTarget::Missing),
        entry("src", MentionTarget::Dir(vec!["a.rs".into(), "b.rs".into()])),
        entry("big.bin", MentionTarget::TooLarge),
        entry("locked", MentionTarget::Unreadable("denied".into())),
        entry("nope", MentionTarget::Missing),
    ];
    assert!(cuts_on_boundaries(&es));
    assert_eq!(
        mention_context(&es).unwrap(),
        "Referenced files (@mentions):\n--- src/a.rs\nfn x() {}Directory src: 2 top-level entries. Use tools (list_directory/glob/read_file) for details.\n  a.rs, b.rs\n--- big.bin [too large to inline; use tools]\n--- locked [unreadable: denied]\nMentioned path nope does not exist.\n"
    );
}

#[test]
fn mention_context_spends_a_byte_budget() {
    let big = "x".repeat(49152 + 10);
    let es = vec![entry("a", MentionTarget::File(big)), entry("b", MentionTarget::File("yz".into()))];
    assert!(cuts_on_boundaries(&es));
    let ctx = mention_context(&es).unwrap();
    assert!(ctx.ends_with(&format!("{}\n[file truncated]\n--- b\n\n[file truncated]\n", "x".repeat(10))));
    assert_eq!(ctx.len(), "Referenced files (@mentions):\n--- a\n".len() + 49152 + "\n[file truncated]\n--- b\n\n[file truncated]\n".len());
    let wide = format!("{}é", "x".repeat(49151));
    assert!(!cuts_on_boundaries(&vec![entry("w", MentionTarget::File(wide))]));
}
