use pplanner::editor::{run_line, Echo, EscState, LineEditor};

#[test]
fn backspace_removes_last_char() {
    let input = vec![b'a', b'b', 127, 10];
    assert_eq!(run_line(&input), Some(b"a".to_vec()));
}

#[test]
fn right_arrow_is_visual_only() {
    let input = vec![b'a', 27, 91, 67, b'b', 10];
    assert_eq!(run_line(&input), Some(b"ab".to_vec()));
}

#[test]
fn backspace_on_empty_buffer_is_noop() {
    let input = vec![127, 10];
    assert_eq!(run_line(&input), Some(b"".to_vec()));
}

#[test]
fn left_arrow_is_visual_only() {
    let input = vec![b'a', 27, 91, 68, b'b', 10];
    assert_eq!(run_line(&input), Some(b"ab".to_vec()));
}

#[test]
fn up_and_down_arrows_are_consumed() {
    let input = vec![b'a', 27, 91, 65, 27, 91, 66, b'b', 10];
    assert_eq!(run_line(&input), Some(b"ab".to_vec()));
}

#[test]
fn bracket_without_escape_is_literal() {
    let input = vec![91, 10];
    assert_eq!(run_line(&input), Some(b"[".to_vec()));
}

#[test]
fn arrow_letter_without_bracket_is_literal() {
    let input = vec![67, 10];
    assert_eq!(run_line(&input), Some(b"C".to_vec()));
}

#[test]
fn stream_without_enter_yields_no_line() {
    let input = vec![b'a', b'b'];
    assert_eq!(run_line(&input), None);
}

#[test]
fn step_reports_echoes() {
    let mut ed = LineEditor::new();
    assert_eq!(ed.step(b'a'), Echo::Byte(b'a'));
    assert_eq!(ed.step(27), Echo::Nothing);
    assert_eq!(ed.esc, EscState::SawEscape);
    assert_eq!(ed.step(91), Echo::Nothing);
    assert_eq!(ed.esc, EscState::SawBracket);
    assert_eq!(ed.step(67), Echo::CursorRight);
    assert_eq!(ed.esc, EscState::Idle);
    assert_eq!(ed.step(127), Echo::EraseLast);
    assert_eq!(ed.step(10), Echo::Newline);
    assert!(ed.done);
    assert_eq!(ed.buf, b"".to_vec());
}

#[test]
fn backspace_then_more_typing() {
    let input = vec![b'h', b'x', 127, b'i', 10];
    assert_eq!(run_line(&input), Some(b"hi".to_vec()));
}
