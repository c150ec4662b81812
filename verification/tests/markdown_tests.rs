use harness::markdown::{render, render_events, MdEvent, MdTag, MdTagEnd};
use harness::style::{Color, Style, StyledLine};

fn texts(lines: &[StyledLine]) -> Vec<String> {
    lines
        .iter()
        .map(|l| l.spans.iter().map(|s| s.content.as_str()).collect::<String>())
        .collect()
}

fn plain() -> Style {
    Style::new()
}

#[test]
fn renders_headings_lists_and_drops_trailing_blank_lines() {
    let lines = render("# Title\n\nSome *text* here.\n\n- one\n- two\n");
    assert_eq!(
        texts(&lines),
        vec!["# Title", "Some text here.", "", "- one", "- two"]
    );
    assert_eq!(lines[0].spans[0].style, plain().fg(Color::Magenta).bold());
    assert_eq!(lines[1].spans[1].content, "text");
    assert_eq!(lines[1].spans[1].style, plain().italic());
    assert!(!lines.last().unwrap().spans.is_empty());
}

#[test]
fn renders_ordered_nested_lists_code_and_rules() {
    let lines = render("3. a\n4. b\n   - c\n\n```rust\nx\n\ny\n```\n\n---\n\n`z` > q");
    assert_eq!(
        texts(&lines),
        vec![
            "3. a",
            "4. b",
            "  - c",
            "",
            "```[rust]",
            "x",
            "",
            "y",
            "```",
            &"─".repeat(40),
            "z > q",
        ]
    );
    assert_eq!(lines[4].style, plain().fg(Color::DarkGray));
    assert_eq!(lines[5].spans[0].style, plain().fg(Color::Green));
    assert_eq!(lines[10].spans[0].style, plain().fg(Color::Green).bg(Color::Black));
}

#[test]
fn renders_quotes_links_and_breaks() {
    let lines = render("> quoted [link](http://x) end  \nnext\nsoft");
    assert_eq!(texts(&lines), vec!["> quoted link end", "next soft"]);
    assert_eq!(lines[0].spans[0].style, plain().fg(Color::DarkGray));
    assert_eq!(lines[0].spans[2].style, plain().fg(Color::Blue).underlined());
}

#[test]
fn renders_an_event_stream_directly() {
    let events = vec![
        MdEvent::Start(MdTag::Paragraph),
        MdEvent::Start(MdTag::Strong),
        MdEvent::Text("bold".to_string()),
        MdEvent::End(MdTagEnd::Strong),
        MdEvent::SoftBreak,
        MdEvent::Start(MdTag::Strikethrough),
        MdEvent::Text("gone".to_string()),
        MdEvent::End(MdTagEnd::Strikethrough),
        MdEvent::End(MdTagEnd::Paragraph),
        MdEvent::Rule,
        MdEvent::HardBreak,
    ];
    let lines = render_events(&events);
    assert_eq!(texts(&lines), vec!["bold gone", "", &"─".repeat(40)]);
    assert_eq!(lines[0].spans[0].style, plain().bold());
    assert_eq!(lines[0].spans[2].style, plain().crossed_out());
    assert!(render_events(&Vec::new()).is_empty());
}
