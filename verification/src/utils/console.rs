//! Terminal control sequences and the decoding of key presses.
//!
//! Reading from the terminal happens outside the library: the bytes read are
//! handed to `to_input_event`, and `input_wants_byte` says whether the
//! decoder reads another byte after those.
use vstd::prelude::*;
use vstd::utf8::{valid_utf8, decode_utf8};
use crate::utils::text::string_push;
use crate::shell::proc::ShellError;

verus! {

/// InputEvent enum represents an Input Event got from user on a read call
#[derive(Debug, PartialEq)]
pub enum InputEvent {
    Key(String),
    Ctrl(u8),
    Enter,
    CarriageReturn,
    Backspace,
    ArrowUp,
    ArrowLeft,
    ArrowRight,
    ArrowDown,
}

/// An input event, with the text of a key by its characters.
pub enum InputEventModel {
    Key(Seq<char>),
    Ctrl(u8),
    Enter,
    CarriageReturn,
    Backspace,
    ArrowUp,
    ArrowLeft,
    ArrowRight,
    ArrowDown,
}

impl InputEvent {
    /// The event with the text of a key by its characters.
    pub open spec fn model(&self) -> InputEventModel {
        match self {
            InputEvent::Key(s) => InputEventModel::Key(s@),
            InputEvent::Ctrl(k) => InputEventModel::Ctrl(*k),
            InputEvent::Enter => InputEventModel::Enter,
            InputEvent::CarriageReturn => InputEventModel::CarriageReturn,
            InputEvent::Backspace => InputEventModel::Backspace,
            InputEvent::ArrowUp => InputEventModel::ArrowUp,
            InputEvent::ArrowLeft => InputEventModel::ArrowLeft,
            InputEvent::ArrowRight => InputEventModel::ArrowRight,
            InputEvent::ArrowDown => InputEventModel::ArrowDown,
        }
    }
}

/// The model of an optional event.
pub open spec fn event_model(ev: Option<InputEvent>) -> Option<InputEventModel> {
    match ev {
        Some(e) => Some(e.model()),
        None => None,
    }
}

/// The value of the one-byte read buffer after the read at position `i` of
/// `bytes`; a read past the end fails and leaves the buffer as it was.
pub open spec fn buffer_after(bytes: Seq<u8>, i: int) -> u8
    decreases i,
{
    if i < 0 {
        0
    } else if i < bytes.len() {
        bytes[i]
    } else if i == 0 {
        0
    } else {
        buffer_after(bytes, i - 1)
    }
}

/// The number of the first UTF-8 prefix of `bytes`, of one to four bytes,
/// that is valid; `None` if there is none among the bytes read.
pub open spec fn first_valid_prefix(bytes: Seq<u8>) -> Option<int> {
    if bytes.len() >= 1 && valid_utf8(bytes.take(1)) {
        Some(1)
    } else if bytes.len() >= 2 && valid_utf8(bytes.take(2)) {
        Some(2)
    } else if bytes.len() >= 3 && valid_utf8(bytes.take(3)) {
        Some(3)
    } else if bytes.len() >= 4 && valid_utf8(bytes.take(4)) {
        Some(4)
    } else {
        None
    }
}

/// The event that the bytes read from the terminal stand for: the first byte
/// names a control key or starts an arrow sequence (`ESC [ A..D`); any other
/// byte starts a key made of the first one to four bytes that form valid
/// UTF-8. When input is not ready there is no event.
pub open spec fn input_event_of(ready: bool, bytes: Seq<u8>) -> Option<InputEventModel> {
    if !ready {
        None
    } else {
        let key = buffer_after(bytes, 0);
        if key == 8 || key == 127 {
            Some(InputEventModel::Backspace)
        } else if key == 10 {
            Some(InputEventModel::Enter)
        } else if key == 13 {
            Some(InputEventModel::CarriageReturn)
        } else if key <= 26 {
            Some(InputEventModel::Ctrl(key))
        } else if key == 27 {
            let direction = buffer_after(bytes, 2);
            if direction == 65 {
                Some(InputEventModel::ArrowUp)
            } else if direction == 66 {
                Some(InputEventModel::ArrowDown)
            } else if direction == 67 {
                Some(InputEventModel::ArrowRight)
            } else if direction == 68 {
                Some(InputEventModel::ArrowLeft)
            } else {
                None
            }
        } else {
            match first_valid_prefix(bytes) {
                Some(n) => Some(InputEventModel::Key(decode_utf8(bytes.take(n)))),
                None => None,
            }
        }
    }
}

/// Whether, after reading `bytes`, the decoder reads one more byte.
pub open spec fn wants_byte(bytes: Seq<u8>) -> bool {
    if bytes.len() == 0 {
        true
    } else {
        let key = bytes[0];
        if key <= 26 || key == 127 {
            false
        } else if key == 27 {
            bytes.len() < 3
        } else {
            first_valid_prefix(bytes) is None && bytes.len() < 5
        }
    }
}

/// Decodes `bytes` as UTF-8 (std's `str::from_utf8`); `None` if they are not
/// valid UTF-8.
#[verifier::external_body]
fn utf8_decode(bytes: &[u8]) -> (r: Option<String>)
    ensures
        r is Some <==> valid_utf8(bytes@),
        r matches Some(s) ==> s@ == decode_utf8(bytes@),
{
    match std::str::from_utf8(bytes) {
        Ok(s) => Some(s.to_string()),
        Err(_) => None,
    }
}

fn prefix_key(bytes: &Vec<u8>, n: usize) -> (r: Option<String>)
    requires
        n <= bytes.len(),
    ensures
        r is Some <==> valid_utf8(bytes@.take(n as int)),
        r matches Some(s) ==> s@ == decode_utf8(bytes@.take(n as int)),
{
    let slice = vstd::slice::slice_subrange(bytes.as_slice(), 0, n);
    assert(slice@ =~= bytes@.take(n as int));
    utf8_decode(slice)
}

fn byte_at(bytes: &Vec<u8>, i: usize) -> (b: u8)
    ensures
        b == buffer_after(bytes@, i as int),
    decreases i,
{
    if i < bytes.len() {
        bytes[i]
    } else if i == 0 {
        0
    } else {
        byte_at(bytes, i - 1)
    }
}

/// Get input through callback and convert it to an Input Event: `bytes` are
/// the bytes read from the terminal, in order, one per read.
pub fn to_input_event(ready: bool, bytes: &Vec<u8>) -> (ev: Option<InputEvent>)
    ensures
        event_model(ev) == input_event_of(ready, bytes@),
{
    if !ready {
        return None;
    }
    let key = byte_at(bytes, 0);
    if key == 8 || key == 127 {
        Some(InputEvent::Backspace)
    } else if key == 10 {
        Some(InputEvent::Enter)
    } else if key == 13 {
        Some(InputEvent::CarriageReturn)
    } else if key <= 26 {
        Some(InputEvent::Ctrl(key))
    } else if key == 27 {
        let direction = byte_at(bytes, 2);
        if direction == 65 {
            Some(InputEvent::ArrowUp)
        } else if direction == 66 {
            Some(InputEvent::ArrowDown)
        } else if direction == 67 {
            Some(InputEvent::ArrowRight)
        } else if direction == 68 {
            Some(InputEvent::ArrowLeft)
        } else {
            None
        }
    } else {
        assert(bytes@.len() >= 1);
        let mut n: usize = 1;
        while n <= 4 && n <= bytes.len()
            invariant
                1 <= n <= 5,
                bytes@.len() >= 1,
                ready,
                key == bytes@[0],
                key > 27 && key != 127,
                forall|j: int| 1 <= j < n ==> !valid_utf8(#[trigger] bytes@.take(j)),
            decreases 5 - n,
        {
            match prefix_key(bytes, n) {
                Some(s) => {
                    assert(first_valid_prefix(bytes@) == Some(n as int));
                    return Some(InputEvent::Key(s));
                },
                None => {},
            }
            n += 1;
        }
        None
    }
}

/// Whether the decoder reads another byte after `bytes`.
pub fn input_wants_byte(bytes: &Vec<u8>) -> (r: bool)
    ensures
        r == wants_byte(bytes@),
{
    if bytes.len() == 0 {
        return true;
    }
    let key = bytes[0];
    if key <= 26 || key == 127 {
        false
    } else if key == 27 {
        bytes.len() < 3
    } else {
        let mut n: usize = 1;
        while n <= 4 && n <= bytes.len()
            invariant
                1 <= n <= 5,
                bytes@.len() >= 1,
                key == bytes@[0],
                key > 27 && key != 127,
                forall|j: int| 1 <= j < n ==> !valid_utf8(#[trigger] bytes@.take(j)),
            decreases 5 - n,
        {
            if prefix_key(bytes, n).is_some() {
                assert(first_valid_prefix(bytes@) == Some(n as int));
                return false;
            }
            n += 1;
        }
        bytes.len() < 5
    }
}

/// The sequence that removes the last typed character from the prompt: back
/// one position, a blank, back again.
pub fn backspace() -> (s: String)
    ensures
        s@ == seq!['\x08', ' ', '\x08'],
{
    let mut s = String::new();
    string_push(&mut s, '\x08');
    string_push(&mut s, ' ');
    string_push(&mut s, '\x08');
    s
}

/// The sequence that moves the cursor one column right.
pub fn move_cursor_right() -> (s: String)
    ensures
        s@ == seq!['\x1b', '[', '1', 'C'],
{
    let mut s = String::new();
    string_push(&mut s, '\x1b');
    string_push(&mut s, '[');
    string_push(&mut s, '1');
    string_push(&mut s, 'C');
    s
}

/// The sequence that moves the cursor one column left.
pub fn move_cursor_left() -> (s: String)
    ensures
        s@ == seq!['\x1b', '[', '1', 'D'],
{
    let mut s = String::new();
    string_push(&mut s, '\x1b');
    string_push(&mut s, '[');
    string_push(&mut s, '1');
    string_push(&mut s, 'D');
    s
}

/// The sequence that returns to the beginning of the line.
pub fn carriage_return() -> (s: String)
    ensures
        s@ == seq!['\r'],
{
    let mut s = String::new();
    string_push(&mut s, '\r');
    s
}

/// The sequence that clears the console: cursor home, then erase the screen.
pub fn clear() -> (s: String)
    ensures
        s@ == seq!['\x1b', '[', 'H', '\x1b', '[', '2', 'J'],
{
    let mut s = String::new();
    string_push(&mut s, '\x1b');
    string_push(&mut s, '[');
    string_push(&mut s, 'H');
    string_push(&mut s, '\x1b');
    string_push(&mut s, '[');
    string_push(&mut s, '2');
    string_push(&mut s, 'J');
    s
}

/// The text a terminal sends for an event: the key itself, the control
/// character, newline, carriage return, DEL, or the arrow's `ESC [ A..D`.
pub open spec fn event_text(ev: InputEventModel) -> Seq<char> {
    match ev {
        InputEventModel::Key(k) => k,
        InputEventModel::Ctrl(sig) => seq![sig as char],
        InputEventModel::Enter => seq!['\n'],
        InputEventModel::CarriageReturn => seq!['\r'],
        InputEventModel::Backspace => seq!['\x7f'],
        InputEventModel::ArrowUp => seq!['\x1b', '[', 'A'],
        InputEventModel::ArrowDown => seq!['\x1b', '[', 'B'],
        InputEventModel::ArrowRight => seq!['\x1b', '[', 'C'],
        InputEventModel::ArrowLeft => seq!['\x1b', '[', 'D'],
    }
}

/// The text a terminal sends for an event, to pass it on to a program.
pub fn input_event_to_string(ev: &InputEvent) -> (s: String)
    ensures
        s@ == event_text(ev.model()),
{
    let mut s = String::new();
    match ev {
        InputEvent::Key(k) => {
            return k.clone();
        },
        InputEvent::Ctrl(sig) => string_push(&mut s, *sig as char),
        InputEvent::Enter => string_push(&mut s, '\n'),
        InputEvent::CarriageReturn => string_push(&mut s, '\r'),
        InputEvent::Backspace => string_push(&mut s, '\x7f'),
        InputEvent::ArrowUp => {
            string_push(&mut s, '\x1b');
            string_push(&mut s, '[');
            string_push(&mut s, 'A');
        },
        InputEvent::ArrowDown => {
            string_push(&mut s, '\x1b');
            string_push(&mut s, '[');
            string_push(&mut s, 'B');
        },
        InputEvent::ArrowRight => {
            string_push(&mut s, '\x1b');
            string_push(&mut s, '[');
            string_push(&mut s, 'C');
        },
        InputEvent::ArrowLeft => {
            string_push(&mut s, '\x1b');
            string_push(&mut s, '[');
            string_push(&mut s, 'D');
        },
    }
    assert(s@ =~= event_text(ev.model()));
    s
}

/// The bytes of a text of ASCII characters.
pub open spec fn ascii_bytes(s: Seq<char>) -> Seq<u8> {
    s.map_values(|c: char| c as u8)
}

/// What an event passes on is read back as the same event, for every event
/// but keys (whose text is their own) and control characters that stand for
/// Backspace, Enter and carriage return.
pub proof fn law_event_text_reads_back(ev: InputEventModel)
    requires
        !(ev is Key),
        ev matches InputEventModel::Ctrl(sig) ==> sig <= 26 && sig != 8 && sig != 10 && sig != 13,
    ensures
        input_event_of(true, ascii_bytes(event_text(ev))) == Some(ev),
{
    let b = ascii_bytes(event_text(ev));
    assert(b.len() == event_text(ev).len());
    assert(buffer_after(b, 0) == b[0]);
    if event_text(ev).len() == 3 {
        assert(buffer_after(b, 2) == b[2]);
    }
}

/// What a read of a pipe gives, from the bytes it read: nothing where no
/// byte was read, the text where the bytes are valid UTF-8, and an error
/// otherwise.
pub fn decode_pipe_bytes(bytes: &Vec<u8>) -> (r: Result<Option<String>, ShellError>)
    ensures
        bytes@.len() == 0 ==> r == Ok::<Option<String>, ShellError>(None),
        bytes@.len() > 0 && valid_utf8(bytes@) ==> (r matches Ok(Some(s)) && s@ == decode_utf8(bytes@)),
        bytes@.len() > 0 && !valid_utf8(bytes@) ==> r == Err::<Option<String>, ShellError>(ShellError::InvalidData),
{
    if bytes.len() == 0 {
        return Ok(None);
    }
    match utf8_decode(bytes.as_slice()) {
        Some(s) => Ok(Some(s)),
        None => Err(ShellError::InvalidData),
    }
}

} // verus!
