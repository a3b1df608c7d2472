use markus::chat::{ChatState, ChatStats};
use markus::pipeline::ChatMessage;
use markus::transcript::{chat_transcript, LineKind};

fn chat() -> ChatState {
    ChatState::new("sys".to_string())
}

#[test]
fn typing_inserts_at_the_cursor() {
    let mut c = chat();
    for ch in "héllo".chars() {
        c.push_char(ch);
    }
    assert_eq!(c.input, "héllo");
    assert_eq!(c.cursor_pos, "héllo".len());
    c.cursor_pos = 1;
    c.push_char('€');
    assert_eq!(c.input, "h€éllo");
    assert_eq!(c.cursor_pos, 1 + '€'.len_utf8());
}

#[test]
fn backspace_undoes_typing() {
    for ch in ['a', 'é', '€', '😀'] {
        for start in [0usize, 1, 3] {
            let mut c = chat();
            for x in "aéz".chars() {
                c.push_char(x);
            }
            c.cursor_pos = start;
            let before = (c.input.clone(), c.cursor_pos);
            c.push_char(ch);
            c.backspace();
            assert_eq!((c.input.clone(), c.cursor_pos), before, "char {:?} at {}", ch, start);
        }
    }
}

#[test]
fn backspace_at_start_does_nothing() {
    let mut c = chat();
    c.push_char('x');
    c.cursor_pos = 0;
    c.backspace();
    assert_eq!(c.input, "x");
    assert_eq!(c.cursor_pos, 0);
}

#[test]
fn take_and_stream() {
    let mut c = chat();
    c.push_char('q');
    let t = c.take_input();
    assert_eq!(t, "q");
    assert_eq!(c.input, "");
    assert_eq!(c.cursor_pos, 0);
    c.start_streaming(t);
    assert!(c.is_streaming);
    c.finish_streaming(ChatStats { tokens_generated: 0, elapsed_ms: 5, tokens_per_sec_bits: 0 });
    // an empty reply leaves no assistant turn
    assert_eq!(c.history.len(), 1);
    assert_eq!(c.stats.as_ref().map(|s| s.elapsed_ms), Some(5));
    let msgs = c.messages_for_inference();
    assert_eq!(msgs.len(), 2);
    assert_eq!(msgs[0].content, "sys");
    c.clear_history();
    assert!(c.history.is_empty());
    assert!(c.stats.is_none());
}

#[test]
fn submit_sends_the_line() {
    let mut c = chat();
    for x in "hi".chars() {
        c.push_char(x);
    }
    let msgs = c.submit();
    assert_eq!(msgs.len(), 2);
    assert_eq!(msgs[1].role, "user");
    assert_eq!(msgs[1].content, "hi");
    assert!(c.is_streaming);
    assert_eq!(c.input, "");
}

#[test]
fn scrolling_down_then_up_returns() {
    let mut c = chat();
    c.scroll_down();
    c.scroll_up();
    assert_eq!(c.scroll_offset, 0);
    c.scroll_up();
    assert_eq!(c.scroll_offset, 0);
}

fn shown(c: &ChatState, tick: u64) -> Vec<(LineKind, String)> {
    chat_transcript(c, tick).into_iter().map(|l| (l.kind, l.text)).collect()
}

#[test]
fn transcript_lines() {
    let mut c = chat();
    c.history.push(ChatMessage { role: "system".to_string(), content: "hidden".to_string() });
    c.history.push(ChatMessage { role: "user".to_string(), content: "line one\r\nline two\n".to_string() });
    c.history.push(ChatMessage { role: "assistant".to_string(), content: "ok".to_string() });
    assert_eq!(
        shown(&c, 0),
        vec![
            (LineKind::Speaker, "  You:".to_string()),
            (LineKind::Body, "  line one".to_string()),
            (LineKind::Body, "  line two".to_string()),
            (LineKind::Blank, String::new()),
            (LineKind::Speaker, "  Markus:".to_string()),
            (LineKind::Body, "  ok".to_string()),
            (LineKind::Blank, String::new()),
        ]
    );
    c.stats = Some(ChatStats { tokens_generated: 1, elapsed_ms: 1, tokens_per_sec_bits: 0 });
    c.is_streaming = true;
    c.streaming_buf = "par".to_string();
    let lines = shown(&c, 5);
    assert_eq!(lines.len(), 11);
    assert_eq!(lines[6], (LineKind::Stats, String::new()));
    assert_eq!(lines[8], (LineKind::Speaker, "  Markus:".to_string()));
    assert_eq!(lines[9], (LineKind::Body, "  par".to_string()));
    assert_eq!(lines[10], (LineKind::Cursor, " ".to_string()));
    assert_eq!(shown(&c, 3)[10], (LineKind::Cursor, "▋".to_string()));
}
