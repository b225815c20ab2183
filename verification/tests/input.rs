use rsi_terminal::editor::MAX_TEXT;
use rsi_terminal::input::{Event, Framer, Input, MAX_FRAME};
use rsi_terminal::keys::{KeyCode, MouseKind};

fn feed(framer: &mut Framer, bytes: &[u8]) -> Vec<Input> {
    bytes.iter().filter_map(|byte| framer.advance(*byte)).collect()
}

#[test]
fn paste_then_enter_is_one_atomic_paste_followed_by_submit() {
    let events = feed(&mut Framer::default(), b"\x1b[200~one\ntwo\x1b[201~\r");
    assert!(matches!(&events[0], Input::Terminal(Event::Paste(text)) if text == "one\ntwo"));
    assert!(matches!(&events[1], Input::Terminal(Event::Key(key)) if key.code == KeyCode::Enter));
    assert_eq!(events.len(), 2);
}

#[test]
fn incomplete_escape_expires_without_consuming_following_keys_or_paste() {
    for prefix in [b"\x1b[".as_slice(), b"\x1b[12;", b"\x1b]title", b"\x1bPstring"] {
        let mut framer = Framer::default();
        assert!(feed(&mut framer, prefix).is_empty());
        assert!(matches!(framer.flush_escape(), Some(Input::Rejected(_))));
        assert!(
            matches!(framer.advance(b'x'), Some(Input::Terminal(Event::Key(key))) if key.code == KeyCode::Char('x'))
        );
    }
    let mut framer = Framer::default();
    feed(&mut framer, b"\x1b[200~half");
    assert!(framer.flush_escape().is_none());
    let events = feed(&mut framer, b" paste\x1b[201~");
    assert!(matches!(&events[0], Input::Terminal(Event::Paste(text)) if text == "half paste"));
}

#[test]
fn oversized_paste_discards_commands_through_split_terminator() {
    let mut framer = Framer::default();
    feed(&mut framer, b"\x1b[200~");
    for _ in 0..MAX_TEXT + 100 {
        assert!(framer.advance(b'a').is_none());
    }
    assert_eq!(framer.held_bytes(), 0);
    assert!(feed(&mut framer, b"\r\x03\x1b[20").is_empty());
    let end = feed(&mut framer, b"1~x");
    assert!(matches!(end[0], Input::Rejected(_)));
    assert!(matches!(&end[1], Input::Terminal(Event::Key(key)) if key.code == KeyCode::Char('x')));
}

#[test]
fn unicode_and_legacy_and_enhanced_keys_survive_framing() {
    let events = feed(&mut Framer::default(), "界\r\n\u{f}\u{1b}[13;2u".as_bytes());
    let keys: Vec<_> = events
        .into_iter()
        .filter_map(|event| match event {
            Input::Terminal(Event::Key(key)) => Some(key),
            _ => None,
        })
        .collect();
    assert_eq!(keys[0].code, KeyCode::Char('界'));
    assert_eq!(keys[1].code, KeyCode::Enter);
    assert_eq!(keys[2].code, KeyCode::Char('j'));
    assert!(keys[2].control);
    assert_eq!(keys[3].code, KeyCode::Char('o'));
    assert!(keys[4].shift);
}

#[test]
fn unterminated_escape_and_paste_have_bounded_storage() {
    let mut framer = Framer::default();
    feed(&mut framer, b"\x1b]");
    for _ in 0..MAX_FRAME * 10 {
        framer.advance(b'x');
    }
    assert_eq!(framer.held_bytes(), 0);
    assert_eq!(feed(&mut framer, b"\x07a").len(), 1);
    feed(&mut framer, b"\x1b[200~");
    for _ in 0..MAX_TEXT * 2 {
        framer.advance(b'x');
    }
    assert_eq!(framer.held_bytes(), 0);
}

#[test]
fn mouse_reports_become_events() {
    let events = feed(&mut Framer::default(), b"\x1b[<0;5;3M");
    assert!(matches!(
        &events[0],
        Input::Terminal(Event::Mouse(mouse))
            if mouse.kind == MouseKind::LeftDown && mouse.column == 4 && mouse.row == 2
    ));
}

#[test]
fn a_lone_escape_is_a_key_once_it_expires() {
    let mut framer = Framer::default();
    assert!(framer.advance(27).is_none());
    assert!(matches!(
        framer.flush_escape(),
        Some(Input::Terminal(Event::Key(key))) if key.code == KeyCode::Escape
    ));
}
