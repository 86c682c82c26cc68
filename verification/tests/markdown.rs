use oc_outpost::markdown::{markdown_to_telegram_html, split_message, truncate_message};

#[test]
fn test_bold_conversion() {
    assert_eq!(
        markdown_to_telegram_html("This is **bold** text"),
        "This is <b>bold</b> text"
    );
    assert_eq!(
        markdown_to_telegram_html("This is __bold__ text"),
        "This is <b>bold</b> text"
    );
}

#[test]
fn test_italic_conversion() {
    assert_eq!(
        markdown_to_telegram_html("This is *italic* text"),
        "This is <i>italic</i> text"
    );
    assert_eq!(
        markdown_to_telegram_html("This is _italic_ text"),
        "This is <i>italic</i> text"
    );
}

#[test]
fn test_inline_code_conversion() {
    assert_eq!(
        markdown_to_telegram_html("This is `code` text"),
        "This is <code>code</code> text"
    );
}

#[test]
fn test_code_block_conversion() {
    let input = "```\nlet x = 42;\n```";
    let expected = "<pre><code>let x = 42;\n</code></pre>";
    assert_eq!(markdown_to_telegram_html(input), expected);
}

#[test]
fn test_code_block_with_language() {
    let input = "```python\ndef hello():\n    print(\"world\")\n```";
    let expected = "<pre><code class=\"language-python\">def hello():\n    print(\"world\")\n</code></pre>";
    assert_eq!(markdown_to_telegram_html(input), expected);
}

#[test]
fn test_link_conversion() {
    assert_eq!(
        markdown_to_telegram_html("Check [this link](https://example.com)"),
        "Check <a href=\"https://example.com\">this link</a>"
    );
}

#[test]
fn test_nested_formatting() {
    assert_eq!(
        markdown_to_telegram_html("This is **bold with *italic* inside**"),
        "This is <b>bold with <i>italic</i> inside</b>"
    );
}

#[test]
fn test_html_entity_escaping() {
    assert_eq!(
        markdown_to_telegram_html("This has <tags> & entities"),
        "This has &lt;tags&gt; &amp; entities"
    );
}

#[test]
fn test_truncate_short_message() {
    let text = "Short message";
    assert_eq!(truncate_message(text, 100), "Short message");
}

#[test]
fn test_truncate_long_message() {
    let text = "This is a very long message that needs to be truncated";
    let result = truncate_message(text, 20);
    assert!(result.len() <= 20);
    assert!(result.ends_with("..."));
}

#[test]
fn test_truncate_at_tag_boundary() {
    let text = "<b>This is bold text</b>";
    let result = truncate_message(text, 10);
    // Should not break inside a tag (result should be valid HTML)
    assert!(result.len() <= 10);
    assert!(result.ends_with("..."));
    // Either contains complete <b> tag or no tag at all
    if result.contains('<') {
        assert!(result.contains('>'));
    }
}

#[test]
fn test_split_short_message() {
    let text = "Short message";
    let parts = split_message(text, 100);
    assert_eq!(parts.len(), 1);
    assert_eq!(parts[0], "Short message");
}

#[test]
fn test_split_long_message() {
    let text = "a".repeat(5000);
    let parts = split_message(&text, 4096);
    assert!(parts.len() > 1);
    for part in &parts[..parts.len() - 1] {
        assert!(part.len() <= 4096 + 3); // +3 for "..."
    }
}

#[test]
fn test_split_preserves_code_blocks() {
    let code_block = "<pre><code>".to_string() + &"x".repeat(5000) + "</code></pre>";
    let parts = split_message(&code_block, 4096);

    // First part should contain the entire code block or end at a safe point
    assert!(parts[0].contains("<pre><code>"));
}

#[test]
fn test_empty_string() {
    assert_eq!(markdown_to_telegram_html(""), "");
    assert_eq!(truncate_message("", 100), "");
    assert_eq!(split_message("", 100), vec![""]);
}

#[test]
fn test_mixed_formatting() {
    let input = "This is **bold** and *italic* with `code` and [link](https://example.com)";
    let expected = "This is <b>bold</b> and <i>italic</i> with <code>code</code> and <a href=\"https://example.com\">link</a>";
    assert_eq!(markdown_to_telegram_html(input), expected);
}

#[test]
fn test_multiple_code_blocks() {
    let input =
        "First:\n```python\nprint('hello')\n```\n\nSecond:\n```rust\nprintln!(\"world\");\n```";
    let result = markdown_to_telegram_html(input);
    assert!(result.contains("<pre><code class=\"language-python\">"));
    assert!(result.contains("<pre><code class=\"language-rust\">"));
}

#[test]
fn test_telegram_char_limit() {
    let text = "a".repeat(5000);
    let parts = split_message(&text, 4096);

    // Verify no part exceeds Telegram's limit (accounting for ellipsis)
    for part in &parts {
        assert!(part.len() <= 4096 + 3); // +3 for "..."
    }
}

#[test]
fn test_whitespace_only() {
    assert_eq!(markdown_to_telegram_html("   \n\t  "), "   \n\t  ");
}

#[test]
fn test_malformed_markdown() {
    // Unclosed bold
    assert_eq!(markdown_to_telegram_html("**bold"), "<b>bold</b>");

    // Unclosed italic
    assert_eq!(markdown_to_telegram_html("*italic"), "<i>italic</i>");

    // Unclosed code
    assert_eq!(markdown_to_telegram_html("`code"), "<code>code</code>");

    // Incomplete link
    assert_eq!(markdown_to_telegram_html("[text"), "[text");
}

#[test]
fn split_moves_past_code_block_end() {
    let text = format!("<pre>{}</pre>{}", "a".repeat(20), "b".repeat(30));
    let parts = split_message(&text, 10);
    let b10 = "b".repeat(10);
    assert_eq!(
        parts,
        vec![
            format!("<pre>{}</pre>...", "a".repeat(20)),
            format!("{}...", b10),
            format!("{}...", b10),
            b10.clone(),
        ]
    );
}

#[test]
fn split_closes_and_reopens_tags() {
    assert_eq!(split_message("<b>aaaaaaaaaa</b>", 10), vec!["<b>aaaaaaa</b>...", "<b>aaa</b>"]);
    let text = "<i><a href=\"https://x.y\">linklinklinklinklink</a></i>";
    let parts = split_message(text, 30);
    assert_eq!(parts[0], "<i><a href=\"https://x.y\">linkl</a></i>...");
    assert_eq!(parts[1], "<i><a href=\"https://x.y\">inklinklinklink</a></i>");
    for part in &parts {
        let p = part.trim_end_matches("...");
        assert_eq!(p.matches("<i>").count(), p.matches("</i>").count());
        assert_eq!(p.matches("<a ").count(), p.matches("</a>").count());
    }
}

#[test]
fn truncate_counts_characters() {
    assert_eq!(truncate_message("ééé", 5), "ééé");
    assert_eq!(truncate_message("éééééé", 5), "éé...");
}
