use qqqa::formatting::{
    compact_blank_lines, extract_first_command, render_xmlish_to_ansi, unescape_entities,
    PrettyStreamWriter, StreamingFormatter,
};

fn stream_chunks(input: &str, chunk_size: usize) -> String {
    let mut fmt = StreamingFormatter::new();
    for chunk in input.as_bytes().chunks(chunk_size.max(1)) {
        let piece = std::str::from_utf8(chunk).unwrap();
        let _ = fmt.push(piece);
    }
    let _ = fmt.flush();
    fmt.rendered()
}

#[test]
fn streaming_matches_full_render_for_basic_markup() {
    let input = "<cmd>ls -la</cmd> then <info>done</info>";
    let streamed = stream_chunks(input, 3);
    let rendered = render_xmlish_to_ansi(input);
    assert_eq!(streamed, rendered);
}

#[test]
fn streaming_handles_entities_split_across_chunks() {
    let input = "Fish &amp; chips <bold>rule</bold>.";
    let streamed = stream_chunks(input, 2);
    let rendered = render_xmlish_to_ansi(input);
    assert_eq!(streamed, rendered);
}

#[test]
fn streaming_handles_incomplete_tags() {
    let input = "<cmd>echo hi</cmd><warn>careful</warn>";
    let streamed = stream_chunks(input, 1);
    let rendered = render_xmlish_to_ansi(input);
    assert_eq!(streamed, rendered);
}

#[test]
fn streaming_handles_cumulative_chunks() {
    let chunks = [
        "<cmd>ffmpeg -i input.mov output.mp4</cmd>",
        "<cmd>ffmpeg -i input.mov output.mp4</cmd> <info>done</info>",
        "<cmd>ffmpeg -i input.mov output.mp4</cmd> <info>done</info>",
    ];
    let mut fmt = StreamingFormatter::new();
    let mut printed = String::new();
    for chunk in chunks {
        if let Some(delta) = fmt.push(chunk) {
            printed.push_str(&delta);
        }
    }
    if let Some(tail) = fmt.flush() {
        printed.push_str(&tail);
    }
    let final_render = fmt.rendered();
    let expected =
        render_xmlish_to_ansi("<cmd>ffmpeg -i input.mov output.mp4</cmd> <info>done</info>");
    assert_eq!(final_render, expected);
    assert_eq!(printed, expected);
}

#[test]
fn extract_first_command_unescapes_entities_and_br() {
    let input = "<cmd>echo foo&amp;&lt;bar&gt;<br/>ls</cmd><cmd>pwd</cmd>";
    let extracted = extract_first_command(input).expect("should find command");
    assert_eq!(extracted, "echo foo&<bar>\nls");
}

#[test]
fn extract_first_command_returns_none_when_missing() {
    assert!(extract_first_command("<info>No commands here</info>").is_none());
}

#[test]
fn pretty_stream_writer_limits_blank_lines() {
    let mut writer = PrettyStreamWriter::new();
    let first = writer.filter("foo\n\n\nbar\r\n\n");
    assert_eq!(first, "foo\n\nbar\n\n");
    // Additional newlines without intervening text should be dropped.
    let second = writer.filter("\n\n\nbaz");
    assert_eq!(second, "baz");
}

#[test]
fn compact_blank_lines_collapses_runs() {
    assert_eq!(compact_blank_lines("a\n\n\n\nb\r\n"), "a\n\nb\n\n");
    assert_eq!(compact_blank_lines("a\nb"), "a\nb\n");
    assert_eq!(compact_blank_lines("\n\n"), "\n");
}

#[test]
fn unescape_entities_decodes_all_three() {
    assert_eq!(unescape_entities("&lt;a&gt; &amp; b"), "<a> & b");
    assert_eq!(unescape_entities("plain"), "plain");
}

#[test]
fn render_paints_tagged_text_with_ansi_sequences() {
    let rendered = render_xmlish_to_ansi("<cmd>ls</cmd>");
    assert!(rendered.contains('\u{001b}'), "expected ANSI escapes, got {:?}", rendered);
    assert!(rendered.contains("ls"));
    // Bold and color compose: the painted body still carries the text.
    let nested = render_xmlish_to_ansi("<bold><warn>careful</warn></bold>");
    assert!(nested.contains("careful"));
    assert!(nested.contains('\u{001b}'));
}

#[test]
fn render_plain_text_passes_through() {
    assert_eq!(render_xmlish_to_ansi("no markup here"), "no markup here");
    // Unknown tags are dropped; a stray br becomes a newline.
    assert_eq!(render_xmlish_to_ansi("a<br/>b"), "a\nb");
}
