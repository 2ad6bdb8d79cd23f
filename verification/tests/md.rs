use lightcode::tui::md::{render, MdItem, SpanStyle};

fn plain(lines: &[MdItem]) -> String {
    lines
        .iter()
        .map(|item| match item {
            MdItem::Prose(spans) => spans.iter().map(|s| s.content.as_str()).collect::<String>(),
            MdItem::Code { lines, .. } => lines.join("\n"),
        })
        .collect::<Vec<_>>()
        .join("\n")
}

#[test]
fn renders_paragraphs_headings_and_lists() {
    let text = "# Title\n\nhello world\n- item one\n- item two\n";
    let out = plain(&render(text));
    assert!(out.contains("Title"));
    assert!(out.contains("hello world"));
    assert!(out.contains("item one"));
    assert!(out.contains("item two"));
}

#[test]
fn keeps_code_fence_content() {
    let text = "```rust\nfn main() {}\n```\nafter\n";
    let items = render(text);
    let code = items
        .iter()
        .find_map(|i| match i {
            MdItem::Code { lang, lines } => Some((lang.clone().unwrap_or_default(), lines.join("\n"))),
            _ => None,
        })
        .unwrap();
    assert_eq!(code.0, "rust");
    assert!(code.1.contains("fn main() {}"));
    assert!(plain(&items).contains("after"));
}

#[test]
fn unclosed_fence_is_streaming_safe() {
    let text = "```\npartial code";
    let items = render(text);
    assert!(matches!(
        &items[..],
        [MdItem::Code { lines, .. }] if lines.join("\n") == "partial code"
    ));
}

#[test]
fn inline_code_split_keeps_text() {
    let text = "run `cargo test` now";
    let items = render(text);
    let MdItem::Prose(spans) = &items[0] else {
        panic!("expected prose");
    };
    assert!(spans.len() >= 3);
    assert_eq!(spans[0].content, "run ");
    assert_eq!(spans[1].content, "cargo test");
    assert_eq!(spans[2].content, " now");
}

#[test]
fn styles_of_headings_lists_and_bold() {
    let items = render("## Head\n  * a **b** c\n3. three\n\n``");
    assert_eq!(items.len(), 5);
    let MdItem::Prose(h) = &items[0] else { panic!("expected prose") };
    assert_eq!(h.len(), 1);
    assert_eq!(h[0].content, "Head");
    assert_eq!(h[0].style, SpanStyle::Heading);
    let MdItem::Prose(l) = &items[1] else { panic!("expected prose") };
    let parts: Vec<(&str, SpanStyle)> = l.iter().map(|s| (s.content.as_str(), s.style)).collect();
    assert_eq!(
        parts,
        vec![
            ("    ", SpanStyle::Plain),
            ("a ", SpanStyle::Plain),
            ("b", SpanStyle::Bold),
            (" c", SpanStyle::Plain)
        ]
    );
    let MdItem::Prose(n) = &items[2] else { panic!("expected prose") };
    assert_eq!(n[0].content, "");
    assert_eq!(n[1].content, "three");
    let MdItem::Prose(blank) = &items[3] else { panic!("expected prose") };
    assert!(blank.is_empty());
    // Only backticks: no span survives, so the line stays as it is.
    let MdItem::Prose(ticks) = &items[4] else { panic!("expected prose") };
    assert_eq!(ticks[0].content, "``");
}
