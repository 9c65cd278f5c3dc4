use threebot::commands::{display_command, normalize_command, CommandContext, Executor};
use threebot::session::{
    escape_html, frame_header, markdown_to_html, parse_frame_header, OutgoingMessage,
};

#[test]
fn session_test_markdown_to_html() {
    // Test bold formatting
    assert_eq!(
        markdown_to_html("This is **bold** text"),
        "This is <b>bold</b> text"
    );

    // Test code formatting
    assert_eq!(
        markdown_to_html("Use `!alias` command"),
        "Use <tt>!alias</tt> command"
    );

    // Test combined formatting
    assert_eq!(
        markdown_to_html("**Bold** and `code` together"),
        "<b>Bold</b> and <tt>code</tt> together"
    );

    // Test multiple bold sections
    assert_eq!(
        markdown_to_html("**First** and **Second** bold"),
        "<b>First</b> and <b>Second</b> bold"
    );

    // Test with HTML entities that need escaping in bold text
    assert_eq!(
        markdown_to_html("**<script>** is dangerous"),
        "<b>&lt;script&gt;</b> is dangerous"
    );

    // Test with HTML entities that need escaping in code text
    assert_eq!(
        markdown_to_html("Use `<code>` tags"),
        "Use <tt>&lt;code&gt;</tt> tags"
    );

    // Test unclosed code block (should remain unchanged if no closing backtick)
    assert_eq!(markdown_to_html("Start `code here"), "Start `code here");

    // Test bullets with newlines converted to <br>
    assert_eq!(
        markdown_to_html("• First item\n• Second item"),
        "• First item<br>• Second item"
    );

    // Test newline conversion
    assert_eq!(
        markdown_to_html("Line 1\nLine 2\nLine 3"),
        "Line 1<br>Line 2<br>Line 3"
    );

    // Test combined formatting with newlines
    assert_eq!(
        markdown_to_html("**Header**\nSome text with `code`\nAnother line"),
        "<b>Header</b><br>Some text with <tt>code</tt><br>Another line"
    );
}

#[test]
fn markdown_edge_cases() {
    assert_eq!(markdown_to_html(""), "");
    assert_eq!(markdown_to_html("**"), "**");
    assert_eq!(markdown_to_html("****"), "<b></b>");
    assert_eq!(markdown_to_html("***a***"), "<b>*a</b>*");
    assert_eq!(markdown_to_html("a ** b"), "a ** b");
    assert_eq!(markdown_to_html("**a** **b"), "<b>a</b> **b");
    assert_eq!(markdown_to_html("`a` `b"), "<tt>a</tt> `b");
    assert_eq!(markdown_to_html("**a&b** \"q\""), "<b>a&amp;b</b> \"q\"");
    assert_eq!(
        markdown_to_html("`**x**`"),
        "<tt>&lt;b&gt;x&lt;/b&gt;</tt>"
    );
}

#[test]
fn html_is_escaped() {
    assert_eq!(escape_html("a & b"), "a &amp; b");
    assert_eq!(escape_html("<>\"'"), "&lt;&gt;&quot;&#x27;");
    assert_eq!(escape_html("&amp;"), "&amp;amp;");
    assert_eq!(escape_html("plain • text"), "plain • text");
    assert_eq!(escape_html(""), "");
}

#[test]
fn test_command_normalization() {
    // Test cases for the command normalization logic
    let test_cases = vec![
        // Input, Expected output
        ("sound play ABCD", "!sound play ABCD"),
        ("!sound play ABCD", "!sound play ABCD"),
        ("ping", "!ping"),
        ("!ping", "!ping"),
        ("alias myalias", "!alias myalias"),
        ("!alias myalias", "!alias myalias"),
        ("", "!"),  // Edge case
        ("!", "!"), // Edge case
    ];

    for (input, expected) in test_cases {
        let normalized = normalize_command(input);

        assert_eq!(normalized, expected, "Failed for input: '{}'", input);
    }
}

#[test]
fn test_display_formatting() {
    // Test the display format logic
    let test_cases = vec![
        ("sound play ABCD", "sound play ABCD"),
        ("!sound play ABCD", "sound play ABCD"),
        ("ping", "ping"),
        ("!ping", "ping"),
    ];

    for (stored_command, expected_display) in test_cases {
        let display = display_command(stored_command);

        assert_eq!(
            display, expected_display,
            "Failed for stored command: '{}'",
            stored_command
        );
    }
}

#[test]
fn test_sanitize_command_line() {
    // Test basic HTML link removal
    let input = r#"!sounds pull <a href="https://example.com/video">https://example.com/video</a> 30 10"#;
    let expected = "!sounds pull https://example.com/video 30 10";
    assert_eq!(Executor::sanitize_command_line(input), expected);

    // Test multiple links
    let input = r#"!sounds pull <a href="https://example.com">link1</a> <a href="https://test.com">link2</a> 30 10"#;
    let expected = "!sounds pull link1 link2 30 10";
    assert_eq!(Executor::sanitize_command_line(input), expected);

    // Test other HTML tags
    let input = "!sounds <b>pull</b> <i>example</i> 30 10";
    let expected = "!sounds pull example 30 10";
    assert_eq!(Executor::sanitize_command_line(input), expected);

    // Test no HTML
    let input = "!sounds pull https://example.com 30 10";
    let expected = "!sounds pull https://example.com 30 10";
    assert_eq!(Executor::sanitize_command_line(input), expected);

    // Test malformed HTML
    let input = "!sounds pull <a href=example 30 10";
    let expected = "!sounds pull href=example 30 10";
    assert_eq!(Executor::sanitize_command_line(input), expected);

    // Test edge cases
    let input = "!sounds pull <> text <a>inside</a> more";
    let expected = "!sounds pull  text inside more";
    assert_eq!(Executor::sanitize_command_line(input), expected);
}

#[test]
fn sanitising_rescans_from_the_front() {
    assert_eq!(Executor::sanitize_command_line("<<a href>a x</a>y"), "xy");
    assert_eq!(Executor::sanitize_command_line("a < b"), "a  b");
    assert_eq!(Executor::sanitize_command_line("<a x>kept"), "kept");
    assert_eq!(Executor::sanitize_command_line("• <b>é</b>"), "• é");
}

#[test]
fn the_context_of_a_text_command() {
    let context = Executor::create_text_command_context(Some(3), None, true);
    assert_eq!(
        context,
        CommandContext {
            triggering_user_id: Some(3),
            source_channel_id: None,
            is_private_message: true
        }
    );
}

#[test]
fn control_messages_are_framed() {
    assert_eq!(frame_header(11, 5), vec![0, 11, 0, 0, 0, 5]);
    assert_eq!(
        frame_header(0x0102, 0x0A0B_0C0D),
        vec![1, 2, 0x0A, 0x0B, 0x0C, 0x0D]
    );
    assert_eq!(
        parse_frame_header(&[1, 2, 0x0A, 0x0B, 0x0C, 0x0D]),
        Some((0x0102, 0x0A0B_0C0D))
    );
    assert_eq!(parse_frame_header(&[1, 2, 3]), None);
    assert_eq!(parse_frame_header(&[0; 7]), None);
}

#[test]
fn outgoing_messages_have_their_kind() {
    assert_eq!(OutgoingMessage::AudioData(vec![1]).message_type(), 1);
    assert_eq!(OutgoingMessage::TextMessage("a".to_string(), 1).message_type(), 11);
    assert_eq!(OutgoingMessage::PrivMessage("a".to_string(), 1).message_type(), 11);
    assert_eq!(OutgoingMessage::Raw(7, vec![]).message_type(), 7);
    assert_eq!(OutgoingMessage::Ping.message_type(), 3);
}
