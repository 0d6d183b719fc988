use blog::markdown::{assemble, code_blocks, plan_code_blocks, HtmlEvent, MarkdownEvent, Piece};

#[test]
fn plain_markdown_renders_as_html() {
    assert_eq!(code_blocks("a & b"), Some("<p>a &amp; b</p>\n".to_string()));
    assert_eq!(code_blocks("some *text*"), Some("<p>some <em>text</em></p>\n".to_string()));
}

#[test]
fn code_block_is_highlighted_as_one_piece() {
    let html = code_blocks("```rust\nfn main() {}\n```\n").unwrap();
    assert!(html.starts_with("<pre style="));
    assert!(html.contains("main"));
    assert!(!html.contains("<code>"));
}

#[test]
fn text_around_code_is_kept() {
    let html = code_blocks("x < y\n\n```\ncode\n```\n\nz").unwrap();
    assert!(html.starts_with("<p>x &lt; y</p>\n<pre"));
    assert!(html.ends_with("<p>z</p>\n"));
    assert!(html.contains("code"));
}

#[test]
fn plan_gathers_code_and_passes_the_rest() {
    let events = vec![
        MarkdownEvent::Other(0),
        MarkdownEvent::Text("a".to_string()),
        MarkdownEvent::Other(2),
        MarkdownEvent::CodeBlockStart,
        MarkdownEvent::Text("x\n".to_string()),
        MarkdownEvent::Text("y\n".to_string()),
        MarkdownEvent::CodeBlockEnd,
        MarkdownEvent::CodeBlockEnd,
    ];
    let pieces = plan_code_blocks(events);
    assert_eq!(pieces.len(), 4);
    assert!(matches!(&pieces[0], Piece::Other(0)));
    assert!(matches!(&pieces[1], Piece::Text(t) if t == "a"));
    assert!(matches!(&pieces[2], Piece::Other(2)));
    assert!(matches!(&pieces[3], Piece::Code(c) if c == "x\ny\n"));
}

#[test]
fn unclosed_code_block_is_dropped() {
    let pieces = plan_code_blocks(vec![MarkdownEvent::CodeBlockStart, MarkdownEvent::Text("x".to_string())]);
    assert!(pieces.is_empty());
}

#[test]
fn assemble_puts_highlighted_html_in_place() {
    let pieces = vec![Piece::Text("<t>".to_string()), Piece::Code("c".to_string()), Piece::Code("d".to_string())];
    let events = assemble(pieces, &vec!["<b>1</b>".to_string(), "<i>2</i>".to_string()]);
    assert_eq!(events.len(), 3);
    assert!(matches!(&events[0], HtmlEvent::Text(t) if t == "<t>"));
    assert!(matches!(&events[1], HtmlEvent::Html(h) if h == "<b>1</b>"));
    assert!(matches!(&events[2], HtmlEvent::Html(h) if h == "<i>2</i>"));
}

#[test]
fn language_tag_does_not_matter() {
    let a = code_blocks("```rust\nlet x = 1;\n```\n").unwrap();
    let b = code_blocks("```python\nlet x = 1;\n```\n").unwrap();
    let c = code_blocks("```\nlet x = 1;\n```\n").unwrap();
    assert_eq!(a, b);
    assert_eq!(a, c);
}

#[test]
fn each_block_is_highlighted_as_one_bundle() {
    let both = code_blocks("```\nfn a() {}\nfn b() {}\n```\n\n```\nlet x = 1;\n```").unwrap();
    let first = code_blocks("```\nfn a() {}\nfn b() {}\n```").unwrap();
    let second = code_blocks("```\nlet x = 1;\n```").unwrap();
    assert_eq!(both, first + &second);
}

#[test]
fn headings_and_lists_are_written_out() {
    assert_eq!(code_blocks("# T\n\n- a\n- b\n"), Some("<h1>T</h1>\n<ul>\n<li>a</li>\n<li>b</li>\n</ul>\n".to_string()));
    assert_eq!(code_blocks(""), Some(String::new()));
}
