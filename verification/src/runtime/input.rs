//! The line being typed at the prompt, and what each key press does to it.
//!
//! Each handler returns the console actions that the caller performs, in
//! order: printing, writing to the shell, raising a signal.
use vstd::prelude::*;
use crate::config::{Config, alias_view, alias_lookup};
use crate::shell::proc::ShellState;
use crate::shell::unixsignal::{UnixSignal, signal_of};
use crate::translator::ioprocessor::{IOProcessor, ExpressionConversion, expression_translation, result_view};
use crate::translator::{Language, latin_in};
use crate::utils::console::{self, InputEvent, InputEventModel};
use crate::utils::text::{string_push, string_chars, trim, trimmed, words, joined, split_whitespace,
    join_words, starts_with, str_starts_with};
use crate::utils::buffer::chars_to_string;
use super::resolve_command;

verus! {

/// Something the runtime does on the console or to the shell.
#[derive(Debug, PartialEq)]
pub enum ConsoleAction {
    /// Print a text on the current line.
    Print(String),
    /// Print a text and a newline.
    PrintLine(String),
    /// Print the prompt line and a space.
    PrintPrompt,
    /// Write a text to the shell's input (reporting a failure as an error).
    WriteToShell(String),
    /// Pass a text on to the shell's input, ignoring a failure.
    PassToShell(String),
    /// Report an error to the user.
    ReportError(String),
    /// Send a signal to the shell.
    Raise(UnixSignal),
}

/// A console action, with its text by its characters.
pub enum ActionModel {
    Print(Seq<char>),
    PrintLine(Seq<char>),
    PrintPrompt,
    WriteToShell(Seq<char>),
    PassToShell(Seq<char>),
    ReportError(Seq<char>),
    Raise(UnixSignal),
}

impl ConsoleAction {
    /// The action, with its text by its characters.
    pub open spec fn model(&self) -> ActionModel {
        match self {
            ConsoleAction::Print(s) => ActionModel::Print(s@),
            ConsoleAction::PrintLine(s) => ActionModel::PrintLine(s@),
            ConsoleAction::PrintPrompt => ActionModel::PrintPrompt,
            ConsoleAction::WriteToShell(s) => ActionModel::WriteToShell(s@),
            ConsoleAction::PassToShell(s) => ActionModel::PassToShell(s@),
            ConsoleAction::ReportError(s) => ActionModel::ReportError(s@),
            ConsoleAction::Raise(sig) => ActionModel::Raise(*sig),
        }
    }
}

/// The models of a list of actions.
pub open spec fn actions_model(actions: Seq<ConsoleAction>) -> Seq<ActionModel> {
    actions.map_values(|a: ConsoleAction| a.model())
}

/// The console sequence that moves the cursor one column left.
pub open spec fn left_seq() -> Seq<char> {
    seq!['\x1b', '[', '1', 'D']
}

/// The console sequence that moves the cursor one column right.
pub open spec fn right_seq() -> Seq<char> {
    seq!['\x1b', '[', '1', 'C']
}

/// The console sequence that erases the last character.
pub open spec fn backspace_seq() -> Seq<char> {
    seq!['\x08', ' ', '\x08']
}

/// The console sequence that clears the screen.
pub open spec fn clear_seq() -> Seq<char> {
    seq!['\x1b', '[', 'H', '\x1b', '[', '2', 'J']
}

/// `n` copies of an action.
pub open spec fn repeated(a: ActionModel, n: nat) -> Seq<ActionModel> {
    Seq::new(n, |i: int| a)
}

/// The line being typed and the position of the cursor in it.
#[derive(Debug)]
pub struct LineInput {
    pub buffer: Vec<char>,
    pub cursor: usize,
}

/// The state of a line: its characters and the cursor position.
pub struct LineModel {
    pub buffer: Seq<char>,
    pub cursor: nat,
}

impl LineInput {
    /// The line by its characters and cursor.
    pub open spec fn model(&self) -> LineModel {
        LineModel { buffer: self.buffer@, cursor: self.cursor as nat }
    }

    /// The cursor lies within the line (or just after it).
    pub open spec fn wf(&self) -> bool {
        self.cursor <= self.buffer.len()
    }

    /// An empty line.
    pub fn new() -> (l: LineInput)
        ensures
            l.wf(),
            l.buffer@.len() == 0,
            l.cursor == 0,
    {
        LineInput { buffer: Vec::new(), cursor: 0 }
    }
}

/// The line after `k` is typed at the cursor.
pub open spec fn typed(line: LineModel, k: Seq<char>) -> LineModel {
    LineModel {
        buffer: line.buffer.take(line.cursor as int) + k + line.buffer.skip(line.cursor as int),
        cursor: line.cursor + k.len(),
    }
}

/// The line after a backspace: the character before the cursor is removed.
pub open spec fn backspaced(line: LineModel) -> LineModel {
    if line.cursor > 0 {
        LineModel { buffer: line.buffer.remove(line.cursor - 1), cursor: (line.cursor - 1) as nat }
    } else {
        line
    }
}

/// An empty line.
pub open spec fn empty_line() -> LineModel {
    LineModel { buffer: Seq::empty(), cursor: 0 }
}

/// The words of a command line, the first replaced by its alias if it has one.
pub open spec fn resolved_words(ws: Seq<Seq<char>>, alias: Seq<(Seq<char>, Seq<char>)>) -> Seq<Seq<char>> {
    if ws.len() == 0 {
        ws
    } else {
        match alias_lookup(alias, ws[0]) {
            Some(cmd) => ws.update(0, cmd),
            None => ws,
        }
    }
}

/// The shell input for a command typed at the prompt: its words, the first
/// resolved through the aliases, joined by single spaces, and a newline.
pub open spec fn command_input(line: Seq<char>, alias: Seq<(Seq<char>, Seq<char>)>) -> Seq<char> {
    joined(resolved_words(words(line), alias)) + seq!['\n']
}

/// The message reported when a command line cannot be parsed.
pub open spec fn input_error_message() -> Seq<char> {
    "Input error: MissingToken"@
}

/// What Enter does in interactive mode.
pub open spec fn interactive_enter(
    line: LineModel,
    state: ShellState,
    alias: Seq<(Seq<char>, Seq<char>)>,
    language: Language,
) -> (LineModel, Seq<ActionModel>) {
    let newline = seq![ActionModel::PrintLine(Seq::empty())];
    if trimmed(line.buffer).len() == 0 {
        if state == ShellState::Idle {
            (line, newline.push(ActionModel::PrintPrompt))
        } else {
            (line, newline)
        }
    } else if state == ShellState::Idle {
        match expression_translation(language, ExpressionConversion::ToLatin, command_input(line.buffer, alias)) {
            Err(_) => (empty_line(), newline.push(ActionModel::ReportError(input_error_message()))),
            Ok(input) => if starts_with(input, "clear"@) {
                (empty_line(), newline.push(ActionModel::Print(clear_seq())).push(ActionModel::PrintPrompt))
            } else if starts_with(input, "history"@) {
                (empty_line(), newline)
            } else {
                (empty_line(), newline.push(ActionModel::WriteToShell(input)))
            },
        }
    } else if state == ShellState::SubprocessRunning {
        (empty_line(), newline.push(ActionModel::WriteToShell(latin_in(language, line.buffer))))
    } else {
        (line, newline)
    }
}

/// What a control key does in interactive mode while the shell waits for a
/// command.
pub open spec fn interactive_ctrl(line: LineModel, sig: u8) -> (LineModel, Seq<ActionModel>) {
    if sig == 1 {
        // go to the beginning of the line
        (LineModel { cursor: 0, ..line }, repeated(ActionModel::Print(left_seq()), line.cursor))
    } else if sig == 2 {
        interactive_left(line)
    } else if sig == 3 {
        // abort the line
        (empty_line(), seq![ActionModel::PrintLine(Seq::empty()), ActionModel::PrintPrompt])
    } else if sig == 4 || sig == 8 {
        interactive_backspace(line)
    } else if sig == 5 {
        // go to the end of the line
        (
            LineModel { cursor: line.buffer.len(), ..line },
            repeated(ActionModel::Print(right_seq()), (line.buffer.len() - line.cursor) as nat),
        )
    } else if sig == 6 {
        interactive_right(line)
    } else if sig == 11 {
        // delete everything after the cursor
        (LineModel { buffer: line.buffer.take(line.cursor as int), ..line }, Seq::empty())
    } else if sig == 12 {
        // clear the screen, keep the line
        (line, seq![ActionModel::Print(clear_seq()), ActionModel::PrintPrompt, ActionModel::Print(line.buffer)])
    } else {
        (line, Seq::empty())
    }
}

/// The cursor moved one column left, if it can.
pub open spec fn interactive_left(line: LineModel) -> (LineModel, Seq<ActionModel>) {
    if line.cursor != 0 {
        (LineModel { cursor: (line.cursor - 1) as nat, ..line }, seq![ActionModel::Print(left_seq())])
    } else {
        (line, Seq::empty())
    }
}

/// The cursor moved one column right, if it can.
pub open spec fn interactive_right(line: LineModel) -> (LineModel, Seq<ActionModel>) {
    if line.cursor + 1 <= line.buffer.len() {
        (LineModel { cursor: line.cursor + 1, ..line }, seq![ActionModel::Print(right_seq())])
    } else {
        (line, Seq::empty())
    }
}

/// A backspace, if there is a character before the cursor.
pub open spec fn interactive_backspace(line: LineModel) -> (LineModel, Seq<ActionModel>) {
    if line.cursor > 0 {
        (backspaced(line), seq![ActionModel::Print(backspace_seq())])
    } else {
        (line, Seq::empty())
    }
}

/// What an input event does to the line in interactive mode, and the
/// actions that follow, given the state of the shell.
pub open spec fn interactive_event(
    line: LineModel,
    ev: InputEventModel,
    state: ShellState,
    alias: Seq<(Seq<char>, Seq<char>)>,
    language: Language,
) -> (LineModel, Seq<ActionModel>) {
    match ev {
        InputEventModel::ArrowDown => (line, Seq::empty()),
        InputEventModel::ArrowUp => (line, Seq::empty()),
        InputEventModel::ArrowLeft => interactive_left(line),
        InputEventModel::ArrowRight => interactive_right(line),
        InputEventModel::Backspace => interactive_backspace(line),
        InputEventModel::CarriageReturn => (line, seq![ActionModel::Print(seq!['\r'])]),
        InputEventModel::Ctrl(sig) => if state == ShellState::Idle {
            interactive_ctrl(line, sig)
        } else {
            (line, seq![ActionModel::PassToShell(seq![sig as char])])
        },
        InputEventModel::Key(k) => (typed(line, k), seq![ActionModel::Print(k)]),
        InputEventModel::Enter => interactive_enter(line, state, alias, language),
    }
}

/// What an input event does to the line in one-shot mode (the shell runs a
/// single command): keys are collected, Enter sends the line as it is
/// typed, control keys become signals.
pub open spec fn command_event(buffer: Seq<char>, ev: InputEventModel, language: Language) -> (Seq<char>, Seq<ActionModel>) {
    match ev {
        InputEventModel::Backspace => (
            if buffer.len() > 0 { buffer.drop_last() } else { buffer },
            seq![ActionModel::Print(backspace_seq())],
        ),
        InputEventModel::CarriageReturn => (buffer, seq![ActionModel::Print(seq!['\r'])]),
        InputEventModel::Ctrl(sig) => (buffer, seq![ActionModel::Raise(signal_of(sig).unwrap())]),
        InputEventModel::Key(k) => (buffer + k, seq![ActionModel::Print(k)]),
        InputEventModel::Enter => if trimmed(buffer).len() > 0 {
            (Seq::empty(), seq![ActionModel::WriteToShell(latin_in(language, buffer))])
        } else {
            (Seq::empty(), Seq::empty())
        },
        _ => (buffer, Seq::empty()),
    }
}

/// Whether a one-shot mode event can be handled: control keys must name a signal.
pub open spec fn command_event_handled(ev: InputEventModel) -> bool {
    ev matches InputEventModel::Ctrl(sig) ==> signal_of(sig) is Some
}

/// The actions of a list, one after the other.
fn push_action(acts: &mut Vec<ConsoleAction>, a: ConsoleAction)
    ensures
        actions_model(final(acts)@) == actions_model(old(acts)@).push(a.model()),
{
    let ghost before = acts@;
    acts.push(a);
    assert(actions_model(acts@) =~= actions_model(before).push(a.model()));
}

/// Moves the cursor one column left, if it can.
pub fn move_left(cursor: &mut usize) -> (acts: Vec<ConsoleAction>)
    ensures
        *final(cursor) == if *old(cursor) != 0 { (*old(cursor) - 1) as usize } else { *old(cursor) },
        actions_model(acts@) == if *old(cursor) != 0 { seq![ActionModel::Print(left_seq())] } else { Seq::empty() },
{
    let mut acts: Vec<ConsoleAction> = Vec::new();
    assert(actions_model(acts@) =~= Seq::<ActionModel>::empty());
    if *cursor != 0 {
        *cursor -= 1;
        push_action(&mut acts, ConsoleAction::Print(console::move_cursor_left()));
    }
    acts
}

/// Moves the cursor one column right, if it is not at the end of a line of
/// `buflen` characters.
pub fn move_right(cursor: &mut usize, buflen: usize) -> (acts: Vec<ConsoleAction>)
    ensures
        *final(cursor) == if *old(cursor) + 1 <= buflen { (*old(cursor) + 1) as usize } else { *old(cursor) },
        actions_model(acts@) == if *old(cursor) + 1 <= buflen { seq![ActionModel::Print(right_seq())] } else { Seq::empty() },
{
    let mut acts: Vec<ConsoleAction> = Vec::new();
    assert(actions_model(acts@) =~= Seq::<ActionModel>::empty());
    if *cursor < buflen {
        *cursor += 1;
        push_action(&mut acts, ConsoleAction::Print(console::move_cursor_right()));
    }
    acts
}

/// Removes the character before the cursor, if there is one: the cursor
/// moves one column left, and the character there, if the line holds one,
/// is removed.
pub fn backspace(input_buffer: &mut Vec<char>, cursor: &mut usize) -> (acts: Vec<ConsoleAction>)
    ensures
        *old(cursor) > 0 ==> {
            &&& *final(cursor) == *old(cursor) - 1
            &&& final(input_buffer)@ == if old(input_buffer)@.len() > *old(cursor) - 1 {
                old(input_buffer)@.remove(*old(cursor) - 1)
            } else {
                old(input_buffer)@
            }
            &&& actions_model(acts@) == seq![ActionModel::Print(backspace_seq())]
        },
        *old(cursor) == 0 ==> {
            &&& *final(cursor) == 0
            &&& final(input_buffer)@ == old(input_buffer)@
            &&& actions_model(acts@) == Seq::<ActionModel>::empty()
        },
{
    let mut acts: Vec<ConsoleAction> = Vec::new();
    assert(actions_model(acts@) =~= Seq::<ActionModel>::empty());
    if *cursor > 0 {
        *cursor -= 1;
        if input_buffer.len() > *cursor {
            input_buffer.remove(*cursor);
        }
        push_action(&mut acts, ConsoleAction::Print(console::backspace()));
        assert(actions_model(acts@) =~= seq![ActionModel::Print(backspace_seq())]);
    }
    acts
}

/// Types `k` at the cursor: its characters are inserted there and the
/// cursor moves past them.
pub fn type_key(line: &mut LineInput, k: &String)
    requires
        old(line).wf(),
    ensures
        final(line).wf(),
        final(line).model() == typed(old(line).model(), k@),
{
    let kc = string_chars(k.as_str());
    let ghost b0 = line.buffer@;
    let c0 = line.cursor;
    let mut j: usize = 0;
    while j < kc.len()
        invariant
            c0 == line.cursor,
            c0 <= b0.len(),
            j <= kc.len(),
            kc@ == k@,
            line.buffer.len() == b0.len() + j,
            line.buffer@ == b0.take(c0 as int) + kc@.take(j as int) + b0.skip(c0 as int),
        decreases kc.len() - j,
    {
        let ghost before = line.buffer@;
        line.buffer.insert(c0 + j, kc[j]);
        assert(line.buffer@ =~= b0.take(c0 as int) + kc@.take(j + 1) + b0.skip(c0 as int)) by {
            assert(kc@.take(j + 1) =~= kc@.take(j as int).push(kc@[j as int]));
            assert(before.insert(c0 + j, kc@[j as int]) =~= b0.take(c0 as int) + kc@.take(j + 1) + b0.skip(c0 as int));
        }
        j += 1;
    }
    assert(kc@.take(kc.len() as int) =~= kc@);
    assert(line.buffer.len() == b0.len() + kc.len());
    line.cursor = c0 + kc.len();
}

/// What a control key does while the shell waits for a command.
fn handle_ctrl(line: &mut LineInput, sig: u8) -> (acts: Vec<ConsoleAction>)
    requires
        old(line).wf(),
    ensures
        final(line).wf(),
        (final(line).model(), actions_model(acts@)) == interactive_ctrl(old(line).model(), sig),
{
    let ghost l0 = line.model();
    let mut acts: Vec<ConsoleAction> = Vec::new();
    assert(actions_model(acts@) =~= Seq::<ActionModel>::empty());
    if sig == 1 {
        let mut i: usize = 0;
        while i < line.cursor
            invariant
                i <= line.cursor,
                line.cursor <= line.buffer.len(),
                actions_model(acts@) == repeated(ActionModel::Print(left_seq()), i as nat),
            decreases line.cursor - i,
        {
            push_action(&mut acts, ConsoleAction::Print(console::move_cursor_left()));
            assert(repeated(ActionModel::Print(left_seq()), i as nat).push(ActionModel::Print(left_seq()))
                =~= repeated(ActionModel::Print(left_seq()), (i + 1) as nat));
            i += 1;
        }
        line.cursor = 0;
    } else if sig == 2 {
        acts = move_left(&mut line.cursor);
    } else if sig == 3 {
        line.buffer = Vec::new();
        line.cursor = 0;
        push_action(&mut acts, ConsoleAction::PrintLine(String::new()));
        push_action(&mut acts, ConsoleAction::PrintPrompt);
        assert(line.model() == empty_line()) by {
            assert(line.buffer@ =~= Seq::<char>::empty());
        }
        assert(actions_model(acts@) =~= seq![ActionModel::PrintLine(Seq::empty()), ActionModel::PrintPrompt]);
    } else if sig == 4 || sig == 8 {
        acts = backspace(&mut line.buffer, &mut line.cursor);
    } else if sig == 5 {
        let mut i: usize = line.cursor;
        while i < line.buffer.len()
            invariant
                line.cursor <= i <= line.buffer.len(),
                actions_model(acts@) == repeated(ActionModel::Print(right_seq()), (i - line.cursor) as nat),
            decreases line.buffer.len() - i,
        {
            push_action(&mut acts, ConsoleAction::Print(console::move_cursor_right()));
            assert(repeated(ActionModel::Print(right_seq()), (i - line.cursor) as nat).push(ActionModel::Print(right_seq()))
                =~= repeated(ActionModel::Print(right_seq()), (i + 1 - line.cursor) as nat));
            i += 1;
        }
        line.cursor = line.buffer.len();
    } else if sig == 6 {
        let n = line.buffer.len();
        acts = move_right(&mut line.cursor, n);
    } else if sig == 11 {
        let ghost b0 = line.buffer@;
        while line.buffer.len() > line.cursor
            invariant
                line.cursor == l0.cursor,
                b0 == l0.buffer,
                line.cursor <= line.buffer.len() <= b0.len(),
                line.buffer@ == b0.take(line.buffer.len() as int),
            decreases line.buffer.len(),
        {
            line.buffer.pop();
            assert(b0.take(line.buffer.len() as int) =~= b0.take(line.buffer.len() + 1).drop_last());
        }
        assert(line.buffer@ =~= b0.take(line.cursor as int));
    } else if sig == 12 {
        push_action(&mut acts, ConsoleAction::Print(console::clear()));
        push_action(&mut acts, ConsoleAction::PrintPrompt);
        push_action(&mut acts, ConsoleAction::Print(chars_to_string(&line.buffer)));
        assert(actions_model(acts@) =~= seq![ActionModel::Print(clear_seq()), ActionModel::PrintPrompt, ActionModel::Print(line.buffer@)]);
    }
    acts
}

/// The line emptied.
fn clear_line(line: &mut LineInput)
    ensures
        final(line).wf(),
        final(line).model() == empty_line(),
{
    line.buffer = Vec::new();
    line.cursor = 0;
    assert(line.buffer@ =~= Seq::<char>::empty());
}

/// The shell input for a command line: its words, the first resolved
/// through the aliases, joined by single spaces, and a newline.
pub fn command_line_input(buffer: &Vec<char>, config: &Config) -> (input: String)
    ensures
        input@ == command_input(buffer@, alias_view(config.alias@)),
{
    let mut argv = split_whitespace(buffer);
    let ghost ws = words(buffer@);
    let ghost alias = alias_view(config.alias@);
    if argv.len() > 0 {
        let ghost before = argv@;
        resolve_command(&mut argv, config);
        assert(argv@.map_values(|w: String| w@) =~= resolved_words(ws, alias)) by {
            assert(before.map_values(|w: String| w@) == ws);
            assert(ws[0] == before[0]@);
        }
    } else {
        assert(argv@.map_values(|w: String| w@) =~= resolved_words(ws, alias));
    }
    let mut input = join_words(&argv);
    string_push(&mut input, '\n');
    input
}

/// What Enter does in interactive mode.
fn handle_enter(line: &mut LineInput, state: ShellState, config: &Config, processor: &IOProcessor) -> (acts: Vec<ConsoleAction>)
    requires
        old(line).wf(),
    ensures
        final(line).wf(),
        (final(line).model(), actions_model(acts@))
            == interactive_enter(old(line).model(), state, alias_view(config.alias@), processor.translator_language()),
{
    let ghost l0 = line.model();
    let mut acts: Vec<ConsoleAction> = Vec::new();
    assert(actions_model(acts@) =~= Seq::<ActionModel>::empty());
    push_action(&mut acts, ConsoleAction::PrintLine(String::new()));
    assert(actions_model(acts@) =~= seq![ActionModel::PrintLine(Seq::empty())]);
    let text = chars_to_string(&line.buffer);
    let t = trim(text.as_str());
    if t.as_str().is_empty() {
        if state == ShellState::Idle {
            push_action(&mut acts, ConsoleAction::PrintPrompt);
        }
        return acts;
    }
    if state == ShellState::Idle {
        let input = command_line_input(&line.buffer, config);
        clear_line(line);
        match processor.expression_to_latin(&input) {
            Err(_) => {
                push_action(&mut acts, ConsoleAction::ReportError(String::from_str("Input error: MissingToken")));
            },
            Ok(ex) => {
                if str_starts_with(ex.as_str(), "clear") {
                    push_action(&mut acts, ConsoleAction::Print(console::clear()));
                    push_action(&mut acts, ConsoleAction::PrintPrompt);
                } else if str_starts_with(ex.as_str(), "history") {
                } else {
                    push_action(&mut acts, ConsoleAction::WriteToShell(ex));
                }
            },
        }
    } else if state == ShellState::SubprocessRunning {
        let input = processor.text_to_latin(&text);
        clear_line(line);
        push_action(&mut acts, ConsoleAction::WriteToShell(input));
    }
    acts
}

/// What an input event does in interactive mode, given the state of the
/// shell: the line being typed changes, and the returned actions are
/// performed in order.
pub fn handle_input_event(
    line: &mut LineInput,
    ev: InputEvent,
    state: ShellState,
    config: &Config,
    processor: &IOProcessor,
) -> (acts: Vec<ConsoleAction>)
    requires
        old(line).wf(),
    ensures
        final(line).wf(),
        (final(line).model(), actions_model(acts@))
            == interactive_event(old(line).model(), ev.model(), state, alias_view(config.alias@), processor.translator_language()),
{
    let mut acts: Vec<ConsoleAction> = Vec::new();
    assert(actions_model(acts@) =~= Seq::<ActionModel>::empty());
    match ev {
        InputEvent::ArrowDown => {},
        InputEvent::ArrowUp => {},
        InputEvent::ArrowLeft => {
            acts = move_left(&mut line.cursor);
        },
        InputEvent::ArrowRight => {
            let n = line.buffer.len();
            acts = move_right(&mut line.cursor, n);
        },
        InputEvent::Backspace => {
            acts = backspace(&mut line.buffer, &mut line.cursor);
        },
        InputEvent::CarriageReturn => {
            push_action(&mut acts, ConsoleAction::Print(console::carriage_return()));
        },
        InputEvent::Ctrl(sig) => {
            if state == ShellState::Idle {
                acts = handle_ctrl(line, sig);
            } else {
                let mut output = String::new();
                string_push(&mut output, sig as char);
                push_action(&mut acts, ConsoleAction::PassToShell(output));
            }
        },
        InputEvent::Key(k) => {
            type_key(line, &k);
            push_action(&mut acts, ConsoleAction::Print(k));
        },
        InputEvent::Enter => {
            acts = handle_enter(line, state, config, processor);
        },
    }
    acts
}

/// What an input event does in one-shot mode: keys are collected in
/// `buffer`, Enter sends it as it is typed, control keys are signals to the
/// shell.
pub fn handle_command_event(buffer: &mut Vec<char>, ev: InputEvent, processor: &IOProcessor) -> (acts: Vec<ConsoleAction>)
    requires
        command_event_handled(ev.model()),
    ensures
        (final(buffer)@, actions_model(acts@)) == command_event(old(buffer)@, ev.model(), processor.translator_language()),
{
    let mut acts: Vec<ConsoleAction> = Vec::new();
    assert(actions_model(acts@) =~= Seq::<ActionModel>::empty());
    match ev {
        InputEvent::Backspace => {
            buffer.pop();
            push_action(&mut acts, ConsoleAction::Print(console::backspace()));
        },
        InputEvent::CarriageReturn => {
            push_action(&mut acts, ConsoleAction::Print(console::carriage_return()));
        },
        InputEvent::Ctrl(sig) => {
            match UnixSignal::from_u8(sig) {
                Some(signal) => push_action(&mut acts, ConsoleAction::Raise(signal)),
                None => {},
            }
        },
        InputEvent::Key(k) => {
            let kc = string_chars(k.as_str());
            let ghost b0 = buffer@;
            let mut j: usize = 0;
            while j < kc.len()
                invariant
                    j <= kc.len(),
                    kc@ == k@,
                    buffer@ == b0 + kc@.take(j as int),
                decreases kc.len() - j,
            {
                buffer.push(kc[j]);
                assert(kc@.take(j + 1) =~= kc@.take(j as int).push(kc@[j as int]));
                j += 1;
            }
            assert(kc@.take(kc.len() as int) =~= kc@);
            push_action(&mut acts, ConsoleAction::Print(k));
        },
        InputEvent::Enter => {
            let text = chars_to_string(buffer);
            let t = trim(text.as_str());
            if !t.as_str().is_empty() {
                let input = processor.text_to_latin(&text);
                push_action(&mut acts, ConsoleAction::WriteToShell(input));
            }
            *buffer = Vec::new();
            assert(buffer@ =~= Seq::<char>::empty());
        },
        _ => {},
    }
    acts
}

/// A character typed at the prompt and erased with a backspace leaves the
/// line as it was.
pub proof fn law_backspace_undoes_key(line: LineModel, c: char)
    requires
        line.cursor <= line.buffer.len(),
    ensures
        backspaced(typed(line, seq![c])) == line,
{
    let t = typed(line, seq![c]);
    assert(t.buffer.remove(line.cursor as int) =~= line.buffer);
}

/// Moving the cursor left and then right brings it back, where it could
/// move left.
pub proof fn law_left_then_right(line: LineModel)
    requires
        0 < line.cursor <= line.buffer.len(),
    ensures
        interactive_right(interactive_left(line).0).0 == line,
{
}


/// While the shell waits for a command, the control keys that move and
/// erase act as the keys they stand for: Ctrl+F as the right arrow, Ctrl+B
/// as the left arrow, Ctrl+D and Ctrl+H as backspace.
pub proof fn law_ctrl_keys_act_as_editing_keys(
    line: LineModel,
    alias: Seq<(Seq<char>, Seq<char>)>,
    language: Language,
)
    ensures
        interactive_event(line, InputEventModel::Ctrl(6), ShellState::Idle, alias, language)
            == interactive_event(line, InputEventModel::ArrowRight, ShellState::Idle, alias, language),
        interactive_event(line, InputEventModel::Ctrl(2), ShellState::Idle, alias, language)
            == interactive_event(line, InputEventModel::ArrowLeft, ShellState::Idle, alias, language),
        interactive_event(line, InputEventModel::Ctrl(4), ShellState::Idle, alias, language)
            == interactive_event(line, InputEventModel::Backspace, ShellState::Idle, alias, language),
        interactive_event(line, InputEventModel::Ctrl(8), ShellState::Idle, alias, language)
            == interactive_event(line, InputEventModel::Backspace, ShellState::Idle, alias, language),
{
}

/// Ctrl+F moves the cursor one character forward and prints the cursor
/// move, where a character follows the cursor; at the end of the line it
/// does nothing.
pub proof fn law_ctrl_f_moves_forward(
    line: LineModel,
    alias: Seq<(Seq<char>, Seq<char>)>,
    language: Language,
)
    requires
        line.cursor <= line.buffer.len(),
    ensures
        line.cursor < line.buffer.len() ==> interactive_event(line, InputEventModel::Ctrl(6), ShellState::Idle, alias, language)
            == (LineModel { buffer: line.buffer, cursor: line.cursor + 1 }, seq![ActionModel::Print(right_seq())]),
        line.cursor == line.buffer.len() ==> interactive_event(line, InputEventModel::Ctrl(6), ShellState::Idle, alias, language)
            == (line, Seq::<ActionModel>::empty()),
{
}

/// Ctrl+B moves the cursor one character back and prints the cursor move,
/// where the cursor is not at the start of the line; there it does nothing.
pub proof fn law_ctrl_b_moves_back(
    line: LineModel,
    alias: Seq<(Seq<char>, Seq<char>)>,
    language: Language,
)
    ensures
        line.cursor > 0 ==> interactive_event(line, InputEventModel::Ctrl(2), ShellState::Idle, alias, language)
            == (LineModel { buffer: line.buffer, cursor: (line.cursor - 1) as nat }, seq![ActionModel::Print(left_seq())]),
        line.cursor == 0 ==> interactive_event(line, InputEventModel::Ctrl(2), ShellState::Idle, alias, language)
            == (line, Seq::<ActionModel>::empty()),
{
}

/// Ctrl+D erases the character before the cursor and prints the erasure,
/// where there is one; at the start of the line it does nothing.
pub proof fn law_ctrl_d_erases_back(
    line: LineModel,
    alias: Seq<(Seq<char>, Seq<char>)>,
    language: Language,
)
    ensures
        line.cursor > 0 ==> interactive_event(line, InputEventModel::Ctrl(4), ShellState::Idle, alias, language)
            == (LineModel { buffer: line.buffer.remove(line.cursor - 1), cursor: (line.cursor - 1) as nat },
                seq![ActionModel::Print(backspace_seq())]),
        line.cursor == 0 ==> interactive_event(line, InputEventModel::Ctrl(4), ShellState::Idle, alias, language)
            == (line, Seq::<ActionModel>::empty()),
{
}


/// The line and the actions after the same key is pressed `n` times while
/// the shell waits for a command.
pub open spec fn pressed(
    line: LineModel,
    ev: InputEventModel,
    n: nat,
    alias: Seq<(Seq<char>, Seq<char>)>,
    language: Language,
) -> (LineModel, Seq<ActionModel>)
    decreases n,
{
    if n == 0 {
        (line, Seq::empty())
    } else {
        let first = interactive_event(line, ev, ShellState::Idle, alias, language);
        let rest = pressed(first.0, ev, (n - 1) as nat, alias, language);
        (rest.0, first.1 + rest.1)
    }
}

proof fn lemma_pressed_left(line: LineModel, k: nat, alias: Seq<(Seq<char>, Seq<char>)>, language: Language)
    requires
        k <= line.cursor,
    ensures
        pressed(line, InputEventModel::ArrowLeft, k, alias, language)
            == (LineModel { cursor: (line.cursor - k) as nat, ..line }, repeated(ActionModel::Print(left_seq()), k)),
    decreases k,
{
    if k == 0 {
        assert(repeated(ActionModel::Print(left_seq()), 0) =~= Seq::<ActionModel>::empty());
    } else {
        let l1 = LineModel { cursor: (line.cursor - 1) as nat, ..line };
        lemma_pressed_left(l1, (k - 1) as nat, alias, language);
        assert(seq![ActionModel::Print(left_seq())] + repeated(ActionModel::Print(left_seq()), (k - 1) as nat)
            =~= repeated(ActionModel::Print(left_seq()), k));
    }
}

proof fn lemma_pressed_right(line: LineModel, k: nat, alias: Seq<(Seq<char>, Seq<char>)>, language: Language)
    requires
        line.cursor + k <= line.buffer.len(),
    ensures
        pressed(line, InputEventModel::ArrowRight, k, alias, language)
            == (LineModel { cursor: line.cursor + k, ..line }, repeated(ActionModel::Print(right_seq()), k)),
    decreases k,
{
    if k == 0 {
        assert(repeated(ActionModel::Print(right_seq()), 0) =~= Seq::<ActionModel>::empty());
    } else {
        let l1 = LineModel { cursor: line.cursor + 1, ..line };
        lemma_pressed_right(l1, (k - 1) as nat, alias, language);
        assert(seq![ActionModel::Print(right_seq())] + repeated(ActionModel::Print(right_seq()), (k - 1) as nat)
            =~= repeated(ActionModel::Print(right_seq()), k));
    }
}

/// Ctrl+A is the left arrow pressed once for each character before the
/// cursor, and Ctrl+E the right arrow pressed once for each character after
/// it: the cursor goes to the start, or the end, of the line.
pub proof fn law_ctrl_a_and_ctrl_e_are_repeated_arrows(
    line: LineModel,
    alias: Seq<(Seq<char>, Seq<char>)>,
    language: Language,
)
    requires
        line.cursor <= line.buffer.len(),
    ensures
        interactive_event(line, InputEventModel::Ctrl(1), ShellState::Idle, alias, language)
            == pressed(line, InputEventModel::ArrowLeft, line.cursor, alias, language),
        interactive_event(line, InputEventModel::Ctrl(5), ShellState::Idle, alias, language)
            == pressed(line, InputEventModel::ArrowRight, (line.buffer.len() - line.cursor) as nat, alias, language),
        interactive_event(line, InputEventModel::Ctrl(1), ShellState::Idle, alias, language).0.cursor == 0,
        interactive_event(line, InputEventModel::Ctrl(5), ShellState::Idle, alias, language).0.cursor == line.buffer.len(),
{
    lemma_pressed_left(line, line.cursor, alias, language);
    lemma_pressed_right(line, (line.buffer.len() - line.cursor) as nat, alias, language);
}

/// Ctrl+K cuts the line at the cursor: what was typed before the cursor
/// stays, the rest is gone, and the cursor stays at the new end.
pub proof fn law_ctrl_k_keeps_text_before_cursor(
    line: LineModel,
    alias: Seq<(Seq<char>, Seq<char>)>,
    language: Language,
)
    requires
        line.cursor <= line.buffer.len(),
    ensures
        ({
            let r = interactive_event(line, InputEventModel::Ctrl(11), ShellState::Idle, alias, language).0;
            &&& r.buffer.len() == line.cursor
            &&& forall|i: int| 0 <= i < line.cursor ==> r.buffer[i] == line.buffer[i]
            &&& r.cursor == r.buffer.len()
        }),
{
}

/// Ctrl+C abandons the line: it is emptied, and a new prompt is printed on a
/// line of its own.
pub proof fn law_ctrl_c_abandons_line(
    line: LineModel,
    alias: Seq<(Seq<char>, Seq<char>)>,
    language: Language,
)
    ensures
        interactive_event(line, InputEventModel::Ctrl(3), ShellState::Idle, alias, language).0.buffer.len() == 0,
        interactive_event(line, InputEventModel::Ctrl(3), ShellState::Idle, alias, language).0.cursor == 0,
        interactive_event(line, InputEventModel::Ctrl(3), ShellState::Idle, alias, language).1
            == seq![ActionModel::PrintLine(Seq::empty()), ActionModel::PrintPrompt],
{
}

} // verus!
