use rocket_term::capture::{CaptureStep, InputCapture, Key};
use rocket_term::channel::{BoundedChannel, CHANNEL_CAPACITY};
use rocket_term::display::{TerminalApp, POLL_INTERVAL_MS};

/// Runs one key through capture and, if it gives a message, through the channel.
fn press(capture: &mut InputCapture, channel: &mut BoundedChannel, key: Key) -> bool {
    match capture.handle(key) {
        CaptureStep::Send(msg) => {
            channel.try_send(msg);
            true
        }
        CaptureStep::Skip => true,
        CaptureStep::Stop => false,
    }
}

fn sent_text(step: CaptureStep) -> Option<String> {
    match step {
        CaptureStep::Send(m) => Some(m),
        _ => None,
    }
}

#[test]
fn abc_enter_reaches_display() {
    let mut capture = InputCapture::new();
    let mut channel = BoundedChannel::new(CHANNEL_CAPACITY);
    let mut app = TerminalApp::new();
    for key in [Key::Char('a'), Key::Char('b'), Key::Char('c'), Key::Enter] {
        assert!(press(&mut capture, &mut channel, key));
    }
    while app.poll(&mut channel) {}
    assert_eq!(app.output(), "abc\n");
}

#[test]
fn fifteen_sends_keep_ten() {
    let mut capture = InputCapture::new();
    let mut channel = BoundedChannel::new(CHANNEL_CAPACITY);
    for i in 0..15u8 {
        press(&mut capture, &mut channel, Key::Char((b'a' + i) as char));
    }
    assert_eq!(channel.len(), 10);
    let mut app = TerminalApp::new();
    let mut received = 0;
    for _ in 0..20 {
        if app.poll(&mut channel) {
            received += 1;
        }
    }
    assert_eq!(received, 10);
    assert_eq!(app.output(), "abcdefghij");
}

#[test]
fn no_keys_leave_display_empty() {
    let mut channel = BoundedChannel::new(CHANNEL_CAPACITY);
    let mut app = TerminalApp::new();
    for _ in 0..50 {
        assert!(!app.poll(&mut channel));
    }
    assert_eq!(app.output(), "");
    assert!(channel.is_empty());
}

#[test]
fn empty_poll_keeps_buffer() {
    let mut channel = BoundedChannel::new(3);
    let mut app = TerminalApp::new();
    app.update(String::from("xy"));
    assert!(!app.poll(&mut channel));
    assert!(!app.poll(&mut channel));
    assert_eq!(app.output(), "xy");
    assert_eq!(channel.len(), 0);
}

#[test]
fn escape_stops_capture() {
    let mut capture = InputCapture::new();
    let mut channel = BoundedChannel::new(CHANNEL_CAPACITY);
    assert!(press(&mut capture, &mut channel, Key::Char('q')));
    assert!(!press(&mut capture, &mut channel, Key::Esc));
    assert!(capture.stopped());
    for key in [Key::Char('z'), Key::Enter, Key::Other, Key::Esc] {
        assert!(matches!(capture.handle(key), CaptureStep::Stop));
    }
    assert_eq!(channel.len(), 1);
    let mut app = TerminalApp::new();
    assert!(app.poll(&mut channel));
    assert!(!app.poll(&mut channel));
    assert_eq!(app.output(), "q");
}

#[test]
fn character_key_sends_that_character() {
    let mut capture = InputCapture::new();
    assert_eq!(sent_text(capture.handle(Key::Char('x'))).as_deref(), Some("x"));
    assert_eq!(sent_text(capture.handle(Key::Char('é'))).as_deref(), Some("é"));
    assert!(!capture.stopped());
}

#[test]
fn enter_sends_newline() {
    let mut capture = InputCapture::new();
    assert_eq!(sent_text(capture.handle(Key::Enter)).as_deref(), Some("\n"));
}

#[test]
fn other_key_is_skipped() {
    let mut capture = InputCapture::new();
    assert!(matches!(capture.handle(Key::Other), CaptureStep::Skip));
    assert!(!capture.stopped());
}

#[test]
fn channel_is_fifo_and_drops_when_full() {
    let mut channel = BoundedChannel::new(2);
    assert_eq!(channel.capacity(), 2);
    assert!(channel.try_send(String::from("1")));
    assert!(channel.try_send(String::from("2")));
    assert!(!channel.try_send(String::from("3")));
    assert_eq!(channel.len(), 2);
    assert_eq!(channel.try_recv().as_deref(), Some("1"));
    assert!(channel.try_send(String::from("4")));
    assert_eq!(channel.try_recv().as_deref(), Some("2"));
    assert_eq!(channel.try_recv().as_deref(), Some("4"));
    assert_eq!(channel.try_recv(), None);
}

#[test]
fn zero_capacity_channel_drops_everything() {
    let mut channel = BoundedChannel::new(0);
    assert!(!channel.try_send(String::from("a")));
    assert!(channel.is_empty());
}

#[test]
fn poll_takes_one_message_per_tick() {
    let mut channel = BoundedChannel::new(CHANNEL_CAPACITY);
    channel.try_send(String::from("a"));
    channel.try_send(String::from("\n"));
    let mut app = TerminalApp::new();
    assert!(app.poll(&mut channel));
    assert_eq!(app.output(), "a");
    assert_eq!(channel.len(), 1);
    assert!(app.poll(&mut channel));
    assert_eq!(app.output(), "a\n");
}

#[test]
fn update_appends_verbatim() {
    let mut app = TerminalApp::new();
    app.update(String::from("he"));
    app.update(String::from("llo\n"));
    assert_eq!(app.output(), "hello\n");
}

#[test]
fn title_and_constants() {
    let app = TerminalApp::new();
    assert_eq!(app.title(), "Rocket Term");
    assert_eq!(CHANNEL_CAPACITY, 10);
    assert_eq!(POLL_INTERVAL_MS, 100);
}
