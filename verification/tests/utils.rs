use pyc_shell::shell::proc::ShellError;
use pyc_shell::utils::console::decode_pipe_bytes;
use pyc_shell::utils::buffer::chars_to_string;
use pyc_shell::utils::console::{
    backspace, carriage_return, clear, input_event_to_string, input_wants_byte, move_cursor_left, move_cursor_right, to_input_event, InputEvent,
};

#[test]
fn test_utils_buffer_chars_to_string() {
    assert_eq!(chars_to_string(&vec!['a', 'b', 'c', 'л']), String::from("abcл"));
}

#[test]
fn test_utils_console_backspace() {
    assert_eq!(backspace(), String::from("\x08 \x08"));
}

#[test]
fn test_utils_console_move_cursor() {
    assert_eq!(move_cursor_left(), String::from("\x1b[1D"));
    assert_eq!(move_cursor_right(), String::from("\x1b[1C"));
    assert_eq!(carriage_return(), String::from("\r"));
}

#[test]
fn test_utils_console_clear() {
    assert_eq!(clear(), String::from("\x1b[H\x1b[2J"));
}

/// The bytes that the terminal gives, one at a time, until the decoder has
/// what it needs.
fn read_event(bytes: &[u8]) -> Option<InputEvent> {
    let mut buf: Vec<u8> = Vec::new();
    let mut i = 0;
    buf.push(bytes[i]);
    i += 1;
    while input_wants_byte(&buf) {
        buf.push(bytes[i]);
        i += 1;
    }
    to_input_event(true, &buf)
}

#[test]
fn test_utils_console_read() {
    //Test read - input ready false
    assert!(to_input_event(false, &vec![]).is_none());
    //Test read - Backspace
    assert_eq!(read_event(&[127]).unwrap(), InputEvent::Backspace);
    assert_eq!(read_event(&[8]).unwrap(), InputEvent::Backspace);
    //Test read - enter
    assert_eq!(read_event(&[10]).unwrap(), InputEvent::Enter);
    //Test read - Carriage return
    assert_eq!(read_event(&[13]).unwrap(), InputEvent::CarriageReturn);
    //Test read - Ctrl key
    assert_eq!(read_event(&[3]).unwrap(), InputEvent::Ctrl(3));
    //Test read - Arrow key
    assert_eq!(read_event(&[27, 91, 'A' as u8]).unwrap(), InputEvent::ArrowUp);
    assert_eq!(read_event(&[27, 91, 'B' as u8]).unwrap(), InputEvent::ArrowDown);
    assert_eq!(read_event(&[27, 91, 'C' as u8]).unwrap(), InputEvent::ArrowRight);
    assert_eq!(read_event(&[27, 91, 'D' as u8]).unwrap(), InputEvent::ArrowLeft);
    //Test read - ASCII key
    assert_eq!(read_event(&['A' as u8]).unwrap(), InputEvent::Key(String::from("A")));
    //Test read - UTF8 (п)
    assert_eq!(read_event(&[0xd0, 0xbf]).unwrap(), InputEvent::Key(String::from("п")));
    //Test read - UTF8 (😂)
    assert_eq!(read_event(&[0xf0, 0x9f, 0x98, 0x82]).unwrap(), InputEvent::Key(String::from("😂")));
}

#[test]
fn decoder_reads_whole_sequences() {
    assert!(!input_wants_byte(&vec![b'a']));
    assert!(input_wants_byte(&vec![27]));
    assert!(input_wants_byte(&vec![0xd0]));
    assert!(!input_wants_byte(&vec![0xd0, 0xbf]));
}

#[test]
fn event_text_reads_back() {
    for ev in [
        InputEvent::ArrowUp,
        InputEvent::ArrowDown,
        InputEvent::ArrowLeft,
        InputEvent::ArrowRight,
        InputEvent::Enter,
        InputEvent::CarriageReturn,
        InputEvent::Backspace,
        InputEvent::Ctrl(3),
    ] {
        let text = input_event_to_string(&ev);
        assert_eq!(read_event(text.as_bytes()).unwrap(), ev);
    }
    assert_eq!(input_event_to_string(&InputEvent::Key(String::from("п"))), String::from("п"));
    assert_eq!(input_event_to_string(&InputEvent::ArrowUp), String::from("\x1b[A"));
}

#[test]
fn pipe_bytes_are_decoded() {
    assert_eq!(decode_pipe_bytes(&vec![]), Ok(None));
    assert_eq!(decode_pipe_bytes(&"ls -l\n".as_bytes().to_vec()), Ok(Some(String::from("ls -l\n"))));
    assert_eq!(decode_pipe_bytes(&vec![0xd0, 0xbf]), Ok(Some(String::from("п"))));
    assert_eq!(decode_pipe_bytes(&vec![0xd0]), Err(ShellError::InvalidData));
}
