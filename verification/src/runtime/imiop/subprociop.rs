//! The input processor used while a program runs in the shell: keys are
//! collected on a line of their own, Enter sends the line as text, and
//! arrows, carriage return and control keys go on to the program as the
//! terminal sent them.
use vstd::prelude::*;
use crate::config::Config;
use crate::runtime::input::{ConsoleAction, ActionModel, LineInput, actions_model, backspace_seq, backspace, type_key};
use crate::translator::ioprocessor::IOProcessor;
use crate::translator::{Language, latin_in};
use crate::utils::buffer::chars_to_string;
use crate::utils::console::{InputEvent, InputEventModel, event_text, input_event_to_string};
use crate::utils::text::{trim, trimmed};

verus! {

/// The line after a backspace while a program runs: the cursor moves one
/// column left and the character there, if the line holds one, is removed.
pub open spec fn subprocess_backspace(buffer: Seq<char>, cursor: nat) -> (Seq<char>, nat, Seq<ActionModel>) {
    if cursor > 0 {
        let c = (cursor - 1) as nat;
        (
            if buffer.len() > c { buffer.remove(c as int) } else { buffer },
            c,
            seq![ActionModel::Print(backspace_seq())],
        )
    } else {
        (buffer, cursor, Seq::empty())
    }
}

/// What Enter does while a program runs: a line that is not blank goes to
/// the program as Latin text; the line is emptied either way.
pub open spec fn subprocess_enter(buffer: Seq<char>, language: Language) -> Seq<ActionModel> {
    if trimmed(buffer).len() > 0 {
        seq![ActionModel::WriteToShell(latin_in(language, buffer))]
    } else {
        Seq::empty()
    }
}

/// What an input event does while a program runs: the new line, the new
/// cursor and the actions that follow.
pub open spec fn subprocess_event(
    buffer: Seq<char>,
    cursor: nat,
    ev: InputEventModel,
    language: Language,
) -> (Seq<char>, nat, Seq<ActionModel>) {
    match ev {
        InputEventModel::Backspace => subprocess_backspace(buffer, cursor),
        InputEventModel::Key(k) => (
            buffer.take(cursor as int) + k + buffer.skip(cursor as int),
            cursor + k.len(),
            seq![ActionModel::Print(k)],
        ),
        InputEventModel::Enter => (Seq::empty(), 0, subprocess_enter(buffer, language)),
        _ => (buffer, cursor, seq![ActionModel::PassToShell(event_text(ev))]),
    }
}

/// Input processor for a shell that runs a program.
pub struct SubProcIop {
    pub input_buffer: Vec<char>,
    pub input_buffer_cursor: usize,
    pub config: Config,
    pub processor: IOProcessor,
}

impl SubProcIop {
    /// A processor with an empty line.
    pub fn new(config: Config, processor: IOProcessor) -> (p: SubProcIop)
        ensures
            p.input_buffer@.len() == 0,
            p.input_buffer_cursor == 0,
            p.config == config,
            p.processor == processor,
    {
        SubProcIop { input_buffer: Vec::with_capacity(2048), input_buffer_cursor: 0, config, processor }
    }

    /// Empties the line.
    pub fn clear_buffer(&mut self)
        ensures
            final(self).input_buffer@.len() == 0,
            final(self).input_buffer_cursor == 0,
            final(self).config == old(self).config,
            final(self).processor == old(self).processor,
    {
        self.input_buffer.clear();
        self.input_buffer_cursor = 0;
    }

    /// Removes the character before the cursor, if there is one.
    pub fn backspace(&mut self) -> (acts: Vec<ConsoleAction>)
        ensures
            (final(self).input_buffer@, final(self).input_buffer_cursor as nat, actions_model(acts@))
                == subprocess_backspace(old(self).input_buffer@, old(self).input_buffer_cursor as nat),
            final(self).config == old(self).config,
            final(self).processor == old(self).processor,
    {
        backspace(&mut self.input_buffer, &mut self.input_buffer_cursor)
    }

    /// Sends the line, if it is not blank, and empties it.
    pub fn perform_enter(&mut self) -> (acts: Vec<ConsoleAction>)
        ensures
            final(self).input_buffer@.len() == 0,
            final(self).input_buffer_cursor == 0,
            actions_model(acts@) == subprocess_enter(old(self).input_buffer@, old(self).processor.translator_language()),
            final(self).config == old(self).config,
            final(self).processor == old(self).processor,
    {
        let mut acts: Vec<ConsoleAction> = Vec::new();
        let stdin_input = chars_to_string(&self.input_buffer);
        let t = trim(stdin_input.as_str());
        if !t.as_str().is_empty() {
            let input = self.processor.text_to_latin(&stdin_input);
            acts.push(ConsoleAction::WriteToShell(input));
        }
        assert(actions_model(acts@) =~= subprocess_enter(old(self).input_buffer@, self.processor.translator_language()));
        self.clear_buffer();
        acts
    }

    /// Handles an input event while a program runs.
    pub fn handle_input_event(&mut self, ev: InputEvent) -> (acts: Vec<ConsoleAction>)
        requires
            ev.model() is Key ==> old(self).input_buffer_cursor <= old(self).input_buffer@.len(),
        ensures
            ({
                let (b, c, a) = subprocess_event(
                    old(self).input_buffer@,
                    old(self).input_buffer_cursor as nat,
                    ev.model(),
                    old(self).processor.translator_language(),
                );
                &&& final(self).input_buffer@ == b
                &&& final(self).input_buffer_cursor == c
                &&& actions_model(acts@) == a
            }),
            final(self).config == old(self).config,
            final(self).processor == old(self).processor,
    {
        match ev {
            InputEvent::Backspace => self.backspace(),
            InputEvent::Key(k) => {
                let mut line = LineInput { buffer: Vec::new(), cursor: 0 };
                std::mem::swap(&mut line.buffer, &mut self.input_buffer);
                line.cursor = self.input_buffer_cursor;
                type_key(&mut line, &k);
                std::mem::swap(&mut line.buffer, &mut self.input_buffer);
                self.input_buffer_cursor = line.cursor;
                let mut acts: Vec<ConsoleAction> = Vec::new();
                acts.push(ConsoleAction::Print(k));
                assert(actions_model(acts@) =~= seq![ActionModel::Print(k@)]);
                acts
            },
            InputEvent::Enter => self.perform_enter(),
            _ => {
                let text = input_event_to_string(&ev);
                let mut acts: Vec<ConsoleAction> = Vec::new();
                acts.push(ConsoleAction::PassToShell(text));
                assert(actions_model(acts@) =~= seq![ActionModel::PassToShell(event_text(ev.model()))]);
                acts
            },
        }
    }
}


/// While a program runs, a character typed and erased with a backspace
/// leaves the line and the cursor as they were.
pub proof fn law_subprocess_backspace_undoes_key(buffer: Seq<char>, cursor: nat, c: char, language: Language)
    requires
        cursor <= buffer.len(),
    ensures
        ({
            let (b1, c1, _) = subprocess_event(buffer, cursor, InputEventModel::Key(seq![c]), language);
            let (b2, c2, _) = subprocess_event(b1, c1, InputEventModel::Backspace, language);
            b2 == buffer && c2 == cursor
        }),
{
    let b1 = buffer.take(cursor as int) + seq![c] + buffer.skip(cursor as int);
    assert(b1.remove(cursor as int) =~= buffer);
}

/// While a program runs, the text typed at the end of the line is what
/// Enter sends, translated to Latin, unless the line is blank; the line is
/// then empty.
pub proof fn law_subprocess_enter_sends_typed_text(buffer: Seq<char>, k: Seq<char>, language: Language)
    ensures
        ({
            let (b1, c1, _) = subprocess_event(buffer, buffer.len(), InputEventModel::Key(k), language);
            let (b2, c2, acts) = subprocess_event(b1, c1, InputEventModel::Enter, language);
            &&& b2.len() == 0 && c2 == 0
            &&& trimmed(buffer + k).len() > 0 ==> acts == seq![ActionModel::WriteToShell(latin_in(language, buffer + k))]
            &&& trimmed(buffer + k).len() == 0 ==> acts.len() == 0
        }),
{
    let b1 = buffer.take(buffer.len() as int) + k + buffer.skip(buffer.len() as int);
    assert(b1 =~= buffer + k);
}

} // verus!
