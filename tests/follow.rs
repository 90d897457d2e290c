use followme::engine::{line_result, Event, FollowError, FollowFile, Inner, State};

fn line(n: usize, t: &str) -> Option<Result<(usize, String), FollowError>> {
    Some(Ok((n, t.to_string())))
}

fn chunk(s: &str) -> Event {
    Event::Chunk(s.as_bytes().to_vec())
}

fn started(content_len: u64) -> FollowFile {
    FollowFile::new("log.txt".to_string(), content_len, 1000)
}

#[test]
fn new_engine_is_ready_to_read() {
    let f = started(4);
    assert_eq!(f.state(), State::Read);
    assert_eq!(f.line_number(), 0);
    assert_eq!(f.path(), "log.txt");
    assert_eq!(f.interval_ms(), 1000);
}

#[test]
fn fresh_session_has_no_lines() {
    let s = Inner::new("log.txt".to_string(), 12);
    assert_eq!(s.line_number(), 0);
}

#[test]
fn existing_lines_then_appended_line() {
    let mut f = started(4);
    assert_eq!(f.step(chunk("a\n")), line(1, "a"));
    assert_eq!(f.step(chunk("b\n")), line(2, "b"));
    assert_eq!(f.step(chunk("")), None);
    assert_eq!(f.state(), State::Sleep);
    assert_eq!(f.step(Event::Slept), None);
    assert_eq!(f.state(), State::CheckLength);
    assert_eq!(f.step(Event::Length(6)), None);
    assert_eq!(f.state(), State::Read);
    assert_eq!(f.step(chunk("c\n")), line(3, "c"));
    assert_eq!(f.line_number(), 3);
}

#[test]
fn truncation_restarts_numbering() {
    let mut f = started(4);
    assert_eq!(f.step(chunk("a\n")), line(1, "a"));
    assert_eq!(f.step(chunk("b\n")), line(2, "b"));
    assert_eq!(f.step(chunk("")), None);
    assert_eq!(f.step(Event::Slept), None);
    assert_eq!(f.step(Event::Length(2)), None);
    assert_eq!(f.state(), State::Open);
    assert_eq!(f.step(Event::Opened(2)), None);
    assert_eq!(f.state(), State::Read);
    assert_eq!(f.line_number(), 0);
    assert_eq!(f.step(chunk("x\n")), line(1, "x"));
}

#[test]
fn deleted_file_keeps_retrying() {
    let mut f = started(4);
    assert_eq!(f.step(chunk("a\n")), line(1, "a"));
    assert_eq!(f.step(chunk("")), None);
    for _ in 0..5 {
        assert_eq!(f.state(), State::Sleep);
        assert_eq!(f.step(Event::Slept), None);
        assert_eq!(f.state(), State::CheckLength);
        assert_eq!(f.step(Event::LengthFailed), None);
    }
    assert_eq!(f.state(), State::Sleep);
    assert_eq!(f.step(Event::Slept), None);
    assert_eq!(f.step(Event::Length(0)), None);
    assert_eq!(f.state(), State::Open);
    assert_eq!(f.step(Event::OpenFailed), None);
    assert_eq!(f.state(), State::Sleep);
    assert_eq!(f.step(Event::Slept), None);
    assert_eq!(f.step(Event::Length(0)), None);
    assert_eq!(f.step(Event::Opened(2)), None);
    assert_eq!(f.step(chunk("z\n")), line(1, "z"));
}

#[test]
fn equal_length_keeps_sleeping() {
    let mut f = started(2);
    assert_eq!(f.step(chunk("a\n")), line(1, "a"));
    assert_eq!(f.step(chunk("")), None);
    assert_eq!(f.step(Event::Slept), None);
    assert_eq!(f.step(Event::Length(2)), None);
    assert_eq!(f.state(), State::Sleep);
    assert_eq!(f.line_number(), 1);
}

#[test]
fn invalid_utf8_line_is_one_error() {
    let mut f = started(6);
    assert_eq!(
        f.step(Event::Chunk(vec![0xff, 0xfe, b'\n'])),
        Some(Err(FollowError::DecodeError))
    );
    assert_eq!(f.step(chunk("ok\n")), line(2, "ok"));
}

#[test]
fn multibyte_text_is_decoded() {
    let mut f = started(3);
    assert_eq!(f.step(Event::Chunk(vec![0xc3, 0xa9, b'\n'])), line(1, "\u{e9}"));
}

#[test]
fn partial_line_is_joined_with_its_end() {
    let mut f = started(1);
    assert_eq!(f.step(chunk("ab")), None);
    assert_eq!(f.state(), State::Read);
    assert_eq!(f.line_number(), 0);
    assert_eq!(f.step(chunk("")), None);
    assert_eq!(f.step(Event::Slept), None);
    assert_eq!(f.step(Event::Length(4)), None);
    assert_eq!(f.step(chunk("c\n")), line(1, "abc"));
}

#[test]
fn empty_line_is_delivered() {
    let mut f = started(1);
    assert_eq!(f.step(chunk("\n")), line(1, ""));
}

#[test]
fn read_failure_is_reported_and_reading_goes_on() {
    let mut f = started(2);
    assert_eq!(f.step(Event::ReadFailed), Some(Err(FollowError::ReadError)));
    assert_eq!(f.state(), State::Read);
    assert_eq!(f.step(chunk("a\n")), line(1, "a"));
}

#[test]
fn event_for_another_state_changes_nothing() {
    let mut f = started(2);
    assert_eq!(f.step(Event::Slept), None);
    assert_eq!(f.step(Event::Length(0)), None);
    assert_eq!(f.step(Event::Opened(9)), None);
    assert_eq!(f.state(), State::Read);
    assert_eq!(f.step(chunk("")), None);
    assert_eq!(f.step(chunk("a\n")), None);
    assert_eq!(f.step(Event::ReadFailed), None);
    assert_eq!(f.state(), State::Sleep);
    assert_eq!(f.line_number(), 0);
}

#[test]
fn lines_arriving_in_small_writes_come_once_each() {
    let mut f = started(0);
    let mut got = Vec::new();
    let mut len: u64 = 0;
    for piece in ["l", "ine1\n", "li", "ne2", "\n", "line3\n"] {
        len += piece.len() as u64;
        if let Some(item) = f.step(chunk(piece)) {
            got.push(item);
        }
        assert_eq!(f.step(chunk("")), None);
        assert_eq!(f.step(Event::Slept), None);
        assert_eq!(f.step(Event::Length(len)), None);
        assert_eq!(f.state(), State::Read);
    }
    assert_eq!(
        got,
        vec![
            Ok((1, "line1".to_string())),
            Ok((2, "line2".to_string())),
            Ok((3, "line3".to_string()))
        ]
    );
}

#[test]
fn line_result_numbers_decoded_text() {
    assert_eq!(line_result(7, Some("t".to_string())), Ok((7, "t".to_string())));
    assert_eq!(line_result(7, None), Err(FollowError::DecodeError));
}
