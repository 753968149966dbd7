use ollama_bridge::chat::ChatBridge;
use ollama_bridge::chat::run_chat_chunks;
use ollama_bridge::events::ChatCancelFlag;
use ollama_bridge::pull::PullBridge;
use ollama_bridge::pull::run_pull_chunks;
use ollama_bridge::events::PullEvent;
use ollama_bridge::events::StreamEvent;

fn run_chat(chunks: &[&[u8]]) -> (Vec<StreamEvent>, bool) {
    let mut bridge = ChatBridge::new();
    let mut all = Vec::new();
    let mut stopped = false;
    for chunk in chunks {
        let (evs, stop) = bridge.on_chunk(chunk, false);
        all.extend(evs);
        if stop {
            stopped = true;
            break;
        }
    }
    (all, stopped)
}

fn token_texts(events: &[StreamEvent]) -> Vec<String> {
    let mut out = Vec::new();
    for e in events {
        if let StreamEvent::Token { content } = e {
            out.push(content.clone());
        }
    }
    out
}

#[test]
fn chat_tokens_then_done() {
    let stream = b"{\"message\":{\"content\":\"Hel\"},\"done\":false}\n\
{\"message\":{\"content\":\"lo\"},\"done\":false}\n\
{\"message\":{\"content\":\"!\"},\"done\":false}\n\
{\"done\":true,\"total_duration\":1234}\n";
    let (events, stopped) = run_chat(&[stream]);
    assert!(stopped);
    assert_eq!(events.len(), 4);
    assert_eq!(token_texts(&events), vec!["Hel", "lo", "!"]);
    assert!(matches!(events[3], StreamEvent::Done { total_duration: 1234 }));
}

#[test]
fn chat_chunk_boundaries_do_not_matter() {
    let stream: &[u8] = "{\"message\":{\"content\":\"caf\u{00e9}\"},\"done\":false}\n\
{\"message\":{\"content\":\"\u{4e2d}\u{6587}\"},\"done\":false}\n\
{\"done\":true,\"total_duration\":7}\n"
        .as_bytes();
    let (whole, stopped_whole) = run_chat(&[stream]);
    assert!(stopped_whole);
    // Split at every fifth byte, which lands inside records and inside the
    // multi-byte characters.
    let pieces: Vec<&[u8]> = stream.chunks(5).collect();
    let (split, stopped_split) = run_chat(&pieces);
    assert!(stopped_split);
    assert_eq!(whole.len(), split.len());
    assert_eq!(token_texts(&whole), token_texts(&split));
    assert_eq!(token_texts(&whole), vec!["caf\u{00e9}", "\u{4e2d}\u{6587}"]);
    assert!(matches!(split[2], StreamEvent::Done { total_duration: 7 }));
}

#[test]
fn chat_malformed_lines_skipped() {
    let stream = b"{\"message\":{\"content\":\"a\"},\"done\":false}\n\
this is not json\n\
{\"message\":{\"content\":\"b\"},\"done\":false}\n\
{\"message\":{\"content\":\"c\"}}\n\
{\"done\":true}\n";
    let (events, stopped) = run_chat(&[stream]);
    assert!(stopped);
    assert_eq!(token_texts(&events), vec!["a", "b"]);
    assert!(matches!(events[2], StreamEvent::Done { total_duration: 0 }));
    assert_eq!(events.len(), 3);
}

#[test]
fn chat_empty_content_suppressed() {
    let stream = b"{\"message\":{\"content\":\"\"},\"done\":false}\n\
{\"done\":false}\n\
{\"message\":{\"content\":\"x\"},\"done\":false}\n\
{\"done\":true,\"total_duration\":1}\n";
    let (events, _) = run_chat(&[stream]);
    assert_eq!(events.len(), 2);
    assert_eq!(token_texts(&events), vec!["x"]);
}

#[test]
fn chat_cancel_emits_zero_duration_done() {
    let mut bridge = ChatBridge::new();
    let (first, stop1) = bridge.on_chunk(
        b"{\"message\":{\"content\":\"partial\"},\"done\":false}\n",
        false,
    );
    assert!(!stop1);
    assert_eq!(first.len(), 1);
    let (second, stop2) = bridge.on_chunk(
        b"{\"message\":{\"content\":\"never seen\"},\"done\":false}\n",
        true,
    );
    assert!(stop2);
    assert_eq!(second.len(), 1);
    assert!(matches!(second[0], StreamEvent::Done { total_duration: 0 }));
}

#[test]
fn chat_trailing_partial_line_stays_buffered() {
    let (events, stopped) = run_chat(&[b"{\"message\":{\"content\":\"unterminated\"},\"done\":false}"]);
    assert!(!stopped);
    assert!(events.is_empty());
}

#[test]
fn chat_lines_after_done_are_not_read() {
    let stream = b"{\"done\":true,\"total_duration\":9}\n\
{\"message\":{\"content\":\"late\"},\"done\":false}\n";
    let (events, stopped) = run_chat(&[stream]);
    assert!(stopped);
    assert_eq!(events.len(), 1);
    assert!(matches!(events[0], StreamEvent::Done { total_duration: 9 }));
}

#[test]
fn chat_carriage_returns_trimmed() {
    let stream = b"  {\"message\":{\"content\":\"neat\"},\"done\":false}\r\n\r\n{\"done\":true}\n";
    let (events, stopped) = run_chat(&[stream]);
    assert!(stopped);
    assert_eq!(token_texts(&events), vec!["neat"]);
    assert_eq!(events.len(), 2);
}

#[test]
fn chat_wrong_field_shapes_drop_the_line() {
    // A present message without string content, and a negative duration,
    // are not the expected record shape: those lines yield nothing.
    let stream = b"{\"message\":{},\"done\":true}\n\
{\"done\":true,\"total_duration\":-4}\n\
{\"done\":\"yes\"}\n\
{\"done\":true,\"total_duration\":3}\n";
    let (events, stopped) = run_chat(&[stream]);
    assert!(stopped);
    assert_eq!(events.len(), 1);
    assert!(matches!(events[0], StreamEvent::Done { total_duration: 3 }));
}

#[test]
fn cancel_after_second_chunk_stops_reading() {
    let chunks = vec![
        b"{\"message\":{\"content\":\"a\"},\"done\":false}\n".to_vec(),
        b"{\"message\":{\"content\":\"b\"},\"done\":false}\n".to_vec(),
        b"{\"message\":{\"content\":\"never read\"},\"done\":false}\n".to_vec(),
    ];
    let cancel = vec![false, false, true];
    let (events, stopped) = run_chat_chunks(&chunks, &cancel);
    assert!(stopped);
    assert_eq!(token_texts(&events), vec!["a", "b"]);
    assert_eq!(events.len(), 3);
    assert!(matches!(events[2], StreamEvent::Done { total_duration: 0 }));
}

#[test]
fn cancel_flag_lifecycle() {
    let mut flag = ChatCancelFlag::new();
    assert!(!flag.is_cancelled());
    flag.request_cancel();
    assert!(flag.is_cancelled());
    // Each new chat invocation clears the shared flag first.
    flag.reset();
    assert!(!flag.is_cancelled());
}

fn run_pull(chunks: &[&[u8]]) -> (Vec<PullEvent>, bool) {
    let mut bridge = PullBridge::new();
    let mut all = Vec::new();
    let mut stopped = false;
    for chunk in chunks {
        let (evs, stop) = bridge.on_chunk(chunk);
        all.extend(evs);
        if stop {
            stopped = true;
            break;
        }
    }
    (all, stopped)
}

#[test]
fn pull_progress_then_done() {
    let stream = b"{\"status\":\"pulling manifest\"}\n\
{\"status\":\"downloading\",\"completed\":10,\"total\":100}\n\
{\"status\":\"success\"}\n";
    let (events, stopped) = run_pull(&[stream]);
    assert!(stopped);
    assert_eq!(events.len(), 3);
    match &events[0] {
        PullEvent::Progress { status, completed, total } => {
            assert_eq!(status, "pulling manifest");
            assert_eq!(*completed, None);
            assert_eq!(*total, None);
        }
        other => panic!("expected a progress event, got {:?}", other),
    }
    match &events[1] {
        PullEvent::Progress { status, completed, total } => {
            assert_eq!(status, "downloading");
            assert_eq!(*completed, Some(10));
            assert_eq!(*total, Some(100));
        }
        other => panic!("expected a progress event, got {:?}", other),
    }
    assert!(matches!(events[2], PullEvent::Done {}));
}

#[test]
fn pull_missing_status_becomes_empty_text() {
    let (events, stopped) = run_pull(&[b"{\"completed\":5}\n"]);
    assert!(!stopped);
    assert_eq!(events.len(), 1);
    match &events[0] {
        PullEvent::Progress { status, completed, total } => {
            assert_eq!(status, "");
            assert_eq!(*completed, Some(5));
            assert_eq!(*total, None);
        }
        other => panic!("expected a progress event, got {:?}", other),
    }
}

#[test]
fn pull_nothing_after_success() {
    let stream = b"{\"status\":\"success\"}\n{\"status\":\"late\"}\n";
    let (events, stopped) = run_pull(&[stream]);
    assert!(stopped);
    assert_eq!(events.len(), 1);
    assert!(matches!(events[0], PullEvent::Done {}));
}

#[test]
fn pull_chunk_boundaries_do_not_matter() {
    let stream: &[u8] =
        b"{\"status\":\"downloading\",\"completed\":1,\"total\":9}\n{\"status\":\"success\"}\n";
    let chunks: Vec<Vec<u8>> = stream.chunks(7).map(|c| c.to_vec()).collect();
    let (events, stopped) = run_pull_chunks(&chunks);
    assert!(stopped);
    assert_eq!(events.len(), 2);
    match &events[0] {
        PullEvent::Progress { status, completed, total } => {
            assert_eq!(status, "downloading");
            assert_eq!(*completed, Some(1));
            assert_eq!(*total, Some(9));
        }
        other => panic!("expected a progress event, got {:?}", other),
    }
    assert!(matches!(events[1], PullEvent::Done {}));
}

#[test]
fn pull_malformed_lines_skipped() {
    let stream = b"garbage\n{\"status\":\"verifying\"}\n[]\n{\"status\":\"success\"}\n";
    let (events, stopped) = run_pull(&[stream]);
    assert!(stopped);
    assert_eq!(events.len(), 2);
    assert!(matches!(&events[0], PullEvent::Progress { .. }));
    assert!(matches!(events[1], PullEvent::Done {}));
}
