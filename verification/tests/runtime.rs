use pyc_shell::config::{Config, OutputConfig, PromptConfig, ShellConfig};
use pyc_shell::runtime::input::{
    backspace, command_line_input, handle_command_event, handle_input_event, move_left, move_right, type_key,
    ConsoleAction, LineInput,
};
use pyc_shell::runtime::imiop::subprociop::SubProcIop;
use pyc_shell::runtime::props::RuntimeProps;
use pyc_shell::runtime::{console_fmt, prepare_command, resolve_command, resolve_shell, script_lines_to_string, shellsignal_to_signal};
use pyc_shell::shell::proc::ShellState;
use pyc_shell::shell::unixsignal::UnixSignal;
use pyc_shell::translator::ioprocessor::IOProcessor;
use pyc_shell::translator::{new_translator, Language};
use pyc_shell::utils::console::InputEvent;

#[test]
fn test_runtime_resolve_shell() {
    let mut cfg: Config = Config::default();
    cfg.shell_config.args = vec![String::from("-i")];
    //Resolve shell without cli option
    assert_eq!(resolve_shell(&cfg, None), (String::from("bash"), vec![String::from("-i")]));
    //Resolve shell with cli option
    assert_eq!(resolve_shell(&cfg, Some(String::from("fish"))), (String::from("fish"), vec![]));
}

#[test]
fn test_runtime_script_lines_to_command() {
    let lines: Vec<String> = vec![
        String::from("#!/bin/bash"),
        String::from(""),
        String::from("echo 4"),
        String::from("#this is a comment"),
        String::from("cat /tmp/output;"),
    ];
    assert_eq!(script_lines_to_string(&lines), String::from("echo 4;cat /tmp/output;"));
}

fn alias_config() -> Config {
    Config {
        language: String::from(""),
        shell_config: ShellConfig::default(),
        alias: vec![(String::from("ll"), String::from("ls -l"))],
        output_config: OutputConfig::default(),
        prompt_config: PromptConfig::default(),
    }
}

#[test]
fn test_runtime_resolve_command() {
    let cfg: Config = alias_config();
    //Resolve command
    let mut argv: Vec<String> = vec![String::from("ll"), String::from("/tmp/")];
    resolve_command(&mut argv, &cfg);
    assert_eq!(*argv.get(0).unwrap(), String::from("ls -l"));
    //Unresolved command
    let mut argv: Vec<String> = vec![String::from("du"), String::from("-hs")];
    resolve_command(&mut argv, &cfg);
    assert_eq!(*argv.get(0).unwrap(), String::from("du"));
}

#[test]
fn test_runtime_shellsignal() {
    assert_eq!(shellsignal_to_signal(3).unwrap(), UnixSignal::Sigint);
    assert_eq!(shellsignal_to_signal(26).unwrap(), UnixSignal::Sigstop);
    assert!(shellsignal_to_signal(255).is_none());
}

#[test]
fn oneshot_command_exits_with_status() {
    assert_eq!(prepare_command(&String::from("echo 4;;\n\n")), String::from("echo 4; exit $?\n"));
    assert_eq!(prepare_command(&String::from("ls")), String::from("ls; exit $?\n"));
}

#[test]
fn console_messages_follow_translation() {
    let iop = IOProcessor::new(Language::Serbian, new_translator(Language::Serbian));
    assert_eq!(console_fmt(&String::from("Hello"), false, &iop), String::from("Hello"));
    assert_eq!(console_fmt(&String::from("Hello"), true, &iop), String::from("Хелло"));
}

fn nil_processor() -> IOProcessor {
    IOProcessor::new(Language::Nil, new_translator(Language::Nil))
}

fn typed_line(text: &str) -> LineInput {
    let mut line = LineInput::new();
    for c in text.chars() {
        type_key(&mut line, &c.to_string());
    }
    line
}

#[test]
fn keys_are_typed_at_the_cursor() {
    let mut line = typed_line("ac");
    let _ = move_left(&mut line.cursor);
    type_key(&mut line, &String::from("b"));
    assert_eq!(line.buffer, vec!['a', 'b', 'c']);
    assert_eq!(line.cursor, 2);
}

#[test]
fn backspace_undoes_a_key() {
    let mut line = typed_line("ls");
    type_key(&mut line, &String::from("x"));
    let acts = backspace(&mut line.buffer, &mut line.cursor);
    assert_eq!(line.buffer, vec!['l', 's']);
    assert_eq!(line.cursor, 2);
    assert_eq!(acts, vec![ConsoleAction::Print(String::from("\x08 \x08"))]);
    let mut empty = LineInput::new();
    assert!(backspace(&mut empty.buffer, &mut empty.cursor).is_empty());
}

#[test]
fn cursor_stays_in_the_line() {
    let mut cursor: usize = 0;
    assert!(move_left(&mut cursor).is_empty());
    assert_eq!(cursor, 0);
    assert_eq!(move_right(&mut cursor, 1), vec![ConsoleAction::Print(String::from("\x1b[1C"))]);
    assert_eq!(cursor, 1);
    assert!(move_right(&mut cursor, 1).is_empty());
    assert_eq!(move_left(&mut cursor), vec![ConsoleAction::Print(String::from("\x1b[1D"))]);
    assert_eq!(cursor, 0);
}

#[test]
fn enter_sends_the_resolved_command() {
    let cfg = alias_config();
    let iop = nil_processor();
    let mut line = typed_line("  ll   /tmp ");
    let acts = handle_input_event(&mut line, InputEvent::Enter, ShellState::Idle, &cfg, &iop);
    assert_eq!(
        acts,
        vec![ConsoleAction::PrintLine(String::new()), ConsoleAction::WriteToShell(String::from("ls -l /tmp\n"))]
    );
    assert!(line.buffer.is_empty());
    assert_eq!(line.cursor, 0);
}

#[test]
fn enter_on_blank_line_prints_prompt() {
    let cfg = alias_config();
    let iop = nil_processor();
    let mut line = typed_line("   ");
    let acts = handle_input_event(&mut line, InputEvent::Enter, ShellState::Idle, &cfg, &iop);
    assert_eq!(acts, vec![ConsoleAction::PrintLine(String::new()), ConsoleAction::PrintPrompt]);
    let acts = handle_input_event(&mut line, InputEvent::Enter, ShellState::SubprocessRunning, &cfg, &iop);
    assert_eq!(acts, vec![ConsoleAction::PrintLine(String::new())]);
}

#[test]
fn enter_clear_and_history() {
    let cfg = alias_config();
    let iop = nil_processor();
    let mut line = typed_line("clear");
    let acts = handle_input_event(&mut line, InputEvent::Enter, ShellState::Idle, &cfg, &iop);
    assert_eq!(
        acts,
        vec![
            ConsoleAction::PrintLine(String::new()),
            ConsoleAction::Print(String::from("\x1b[H\x1b[2J")),
            ConsoleAction::PrintPrompt
        ]
    );
    let mut line = typed_line("history");
    let acts = handle_input_event(&mut line, InputEvent::Enter, ShellState::Idle, &cfg, &iop);
    assert_eq!(acts, vec![ConsoleAction::PrintLine(String::new())]);
}

#[test]
fn enter_reports_unbalanced_expression() {
    let cfg = alias_config();
    let iop = nil_processor();
    let mut line = typed_line("echo \"hi");
    let acts = handle_input_event(&mut line, InputEvent::Enter, ShellState::Idle, &cfg, &iop);
    assert_eq!(
        acts,
        vec![ConsoleAction::PrintLine(String::new()), ConsoleAction::ReportError(String::from("Input error: MissingToken"))]
    );
    assert!(line.buffer.is_empty());
}

#[test]
fn enter_while_running_sends_text() {
    let cfg = alias_config();
    let iop = IOProcessor::new(Language::Serbian, new_translator(Language::Serbian));
    let mut line = typed_line("да");
    let acts = handle_input_event(&mut line, InputEvent::Enter, ShellState::SubprocessRunning, &cfg, &iop);
    assert_eq!(acts, vec![ConsoleAction::PrintLine(String::new()), ConsoleAction::WriteToShell(String::from("da"))]);
    let mut line = typed_line("x");
    let acts = handle_input_event(&mut line, InputEvent::Enter, ShellState::Terminated, &cfg, &iop);
    assert_eq!(acts, vec![ConsoleAction::PrintLine(String::new())]);
    assert_eq!(line.buffer, vec!['x']);
}

#[test]
fn control_keys_edit_the_line() {
    let cfg = alias_config();
    let iop = nil_processor();
    let mut line = typed_line("abc");
    // CTRL+A goes to the start
    let acts = handle_input_event(&mut line, InputEvent::Ctrl(1), ShellState::Idle, &cfg, &iop);
    assert_eq!(acts.len(), 3);
    assert_eq!(line.cursor, 0);
    // CTRL+E goes to the end
    let acts = handle_input_event(&mut line, InputEvent::Ctrl(5), ShellState::Idle, &cfg, &iop);
    assert_eq!(acts.len(), 3);
    assert_eq!(line.cursor, 3);
    // CTRL+B, then CTRL+K deletes after the cursor
    let _ = handle_input_event(&mut line, InputEvent::Ctrl(2), ShellState::Idle, &cfg, &iop);
    let acts = handle_input_event(&mut line, InputEvent::Ctrl(11), ShellState::Idle, &cfg, &iop);
    assert!(acts.is_empty());
    assert_eq!(line.buffer, vec!['a', 'b']);
    // CTRL+L clears the screen and prints the line again
    let acts = handle_input_event(&mut line, InputEvent::Ctrl(12), ShellState::Idle, &cfg, &iop);
    assert_eq!(
        acts,
        vec![
            ConsoleAction::Print(String::from("\x1b[H\x1b[2J")),
            ConsoleAction::PrintPrompt,
            ConsoleAction::Print(String::from("ab"))
        ]
    );
    // CTRL+C aborts the line
    let acts = handle_input_event(&mut line, InputEvent::Ctrl(3), ShellState::Idle, &cfg, &iop);
    assert_eq!(acts, vec![ConsoleAction::PrintLine(String::new()), ConsoleAction::PrintPrompt]);
    assert!(line.buffer.is_empty());
    // while a command runs, control keys go to the shell
    let acts = handle_input_event(&mut line, InputEvent::Ctrl(3), ShellState::SubprocessRunning, &cfg, &iop);
    assert_eq!(acts, vec![ConsoleAction::PassToShell(String::from("\x03"))]);
}

#[test]
fn key_event_prints_the_key() {
    let cfg = alias_config();
    let iop = nil_processor();
    let mut line = LineInput::new();
    let acts = handle_input_event(&mut line, InputEvent::Key(String::from("п")), ShellState::Idle, &cfg, &iop);
    assert_eq!(acts, vec![ConsoleAction::Print(String::from("п"))]);
    assert_eq!(line.buffer, vec!['п']);
    let acts = handle_input_event(&mut line, InputEvent::CarriageReturn, ShellState::Idle, &cfg, &iop);
    assert_eq!(acts, vec![ConsoleAction::Print(String::from("\r"))]);
    assert!(handle_input_event(&mut line, InputEvent::ArrowUp, ShellState::Idle, &cfg, &iop).is_empty());
}

#[test]
fn command_mode_events() {
    let iop = nil_processor();
    let mut buffer: Vec<char> = Vec::new();
    let acts = handle_command_event(&mut buffer, InputEvent::Key(String::from("y")), &iop);
    assert_eq!(acts, vec![ConsoleAction::Print(String::from("y"))]);
    let acts = handle_command_event(&mut buffer, InputEvent::Backspace, &iop);
    assert_eq!(acts, vec![ConsoleAction::Print(String::from("\x08 \x08"))]);
    assert!(buffer.is_empty());
    let _ = handle_command_event(&mut buffer, InputEvent::Key(String::from("n")), &iop);
    let acts = handle_command_event(&mut buffer, InputEvent::Enter, &iop);
    assert_eq!(acts, vec![ConsoleAction::WriteToShell(String::from("n"))]);
    assert!(buffer.is_empty());
    let acts = handle_command_event(&mut buffer, InputEvent::Ctrl(2), &iop);
    assert_eq!(acts, vec![ConsoleAction::Raise(UnixSignal::Sigint)]);
    assert!(handle_command_event(&mut buffer, InputEvent::Enter, &iop).is_empty());
}

#[test]
fn command_input_resolves_alias() {
    let cfg = alias_config();
    assert_eq!(command_line_input(&vec!['l', 'l', ' ', 'x'], &cfg), String::from("ls -l x\n"));
    assert_eq!(command_line_input(&vec!['d', 'u'], &cfg), String::from("du\n"));
}

#[test]
fn prompt_is_due_once_per_idle_state() {
    let mut props = RuntimeProps::new(Config::default(), Language::Nil);
    assert_eq!(props.get_last_state(), ShellState::Unknown);
    assert!(props.get_state_changed());
    assert!(props.prompt_due(ShellState::Idle));
    assert!(!props.prompt_due(ShellState::Idle));
    assert!(!props.prompt_due(ShellState::SubprocessRunning));
    assert!(props.prompt_due(ShellState::Idle));
    props.update_state(ShellState::Terminated);
    assert!(props.get_state_changed());
    props.report_state_changed_notified();
    assert!(!props.get_state_changed());
    props.track_state(ShellState::Terminated);
    assert!(!props.get_state_changed());
}

fn new_runtime_props() -> RuntimeProps {
    RuntimeProps::new(Config::default(), Language::Russian)
}

#[test]
fn props_test_runtimeprops_new() {
    let props: RuntimeProps = new_runtime_props();
    assert!(props.config.get_alias(&String::from("ll")).is_none());
    assert_eq!(props.language, Language::Russian);
    assert_eq!(props.last_state, ShellState::Unknown);
    assert_eq!(props.state_changed, true);
}

#[test]
fn test_runtimeprops_update_state() {
    let mut props: RuntimeProps = new_runtime_props();
    assert_eq!(props.get_last_state(), ShellState::Unknown);
    assert_eq!(props.get_state_changed(), true);
    props.report_state_changed_notified();
    assert_eq!(props.get_state_changed(), false);
    props.update_state(ShellState::Idle);
    assert_eq!(props.get_last_state(), ShellState::Idle);
    assert_eq!(props.get_state_changed(), true);
}

fn new_subprociop() -> SubProcIop {
    SubProcIop::new(Config::default(), IOProcessor::new(Language::Russian, new_translator(Language::Russian)))
}

#[test]
fn subprociop_test_runtimeprops_new() {
    let processor = new_subprociop();
    assert!(processor.config.get_alias(&String::from("ll")).is_none());
    assert_eq!(processor.processor.language, Language::Russian);
    assert_eq!(processor.input_buffer.capacity(), 2048);
    assert_eq!(processor.input_buffer_cursor, 0);
}

#[test]
fn test_runtimeprops_backspace() {
    let mut processor = new_subprociop();
    processor.input_buffer = vec!['a', 'b', 'c'];
    //If cursor is 0, cursor and input buffer won't change
    let _ = processor.backspace();
    assert_eq!(processor.input_buffer_cursor, 0);
    assert_eq!(processor.input_buffer.len(), 3);
    processor.input_buffer_cursor = 3;
    //Backspace from end of buffer
    let _ = processor.backspace();
    assert_eq!(processor.input_buffer_cursor, 2);
    assert_eq!(processor.input_buffer, vec!['a', 'b']);
    //Set cursor to 1 and backspace from the middle
    processor.input_buffer_cursor = 1;
    let _ = processor.backspace();
    assert_eq!(processor.input_buffer_cursor, 0);
    assert_eq!(processor.input_buffer, vec!['b']);
    //Try to delete with cursor out of range
    processor.input_buffer = vec!['a', 'b', 'c'];
    processor.input_buffer_cursor = 4;
    let _ = processor.backspace();
    assert_eq!(processor.input_buffer_cursor, 3);
    assert_eq!(processor.input_buffer.len(), 3);
}

#[test]
fn line_backspace_with_cursor_past_the_end() {
    let mut input_buffer: Vec<char> = vec!['a', 'b', 'c'];
    let mut cursor: usize = 4;
    let acts = backspace(&mut input_buffer, &mut cursor);
    assert_eq!(cursor, 3);
    assert_eq!(input_buffer, vec!['a', 'b', 'c']);
    assert_eq!(acts, vec![ConsoleAction::Print(String::from("\x08 \x08"))]);
}

#[test]
fn subprociop_handle_input_event_not_interactive() {
    let mut processor = SubProcIop::new(Config::default(), IOProcessor::new(Language::Serbian, new_translator(Language::Serbian)));
    processor.input_buffer = vec!['л', 'с'];
    processor.input_buffer_cursor = 2;
    let acts = processor.handle_input_event(InputEvent::Enter);
    assert_eq!(acts, vec![ConsoleAction::WriteToShell(String::from("ls"))]);
    assert_eq!(processor.input_buffer.len(), 0);
    assert_eq!(processor.input_buffer_cursor, 0);
    //Enter with empty buffer
    assert!(processor.handle_input_event(InputEvent::Enter).is_empty());
    //Arrows, carriage return and control keys go on to the program
    assert_eq!(processor.handle_input_event(InputEvent::ArrowDown), vec![ConsoleAction::PassToShell(String::from("\x1b[B"))]);
    assert_eq!(processor.handle_input_event(InputEvent::ArrowLeft), vec![ConsoleAction::PassToShell(String::from("\x1b[D"))]);
    assert_eq!(processor.handle_input_event(InputEvent::ArrowRight), vec![ConsoleAction::PassToShell(String::from("\x1b[C"))]);
    assert_eq!(processor.handle_input_event(InputEvent::ArrowUp), vec![ConsoleAction::PassToShell(String::from("\x1b[A"))]);
    assert_eq!(processor.handle_input_event(InputEvent::CarriageReturn), vec![ConsoleAction::PassToShell(String::from("\r"))]);
    assert_eq!(processor.handle_input_event(InputEvent::Ctrl(3)), vec![ConsoleAction::PassToShell(String::from("\x03"))]);
    //Keys are typed at the cursor
    let _ = processor.handle_input_event(InputEvent::Key(String::from("a")));
    let _ = processor.handle_input_event(InputEvent::Key(String::from("c")));
    processor.input_buffer_cursor = 1;
    let acts = processor.handle_input_event(InputEvent::Key(String::from("б")));
    assert_eq!(acts, vec![ConsoleAction::Print(String::from("б"))]);
    assert_eq!(processor.input_buffer, vec!['a', 'б', 'c']);
    assert_eq!(processor.input_buffer_cursor, 2);
}

#[test]
fn configuration_keeps_default_shell() {
    let config = Config::parse_config_str(&String::from("language: bg\n")).unwrap().ok().unwrap();
    assert_eq!(config.shell_config.executable, String::from("bash"));
    assert!(config.shell_config.args.is_empty());
}

#[test]
fn prompt_printed_when_shell_becomes_idle() {
    let states = [
        ShellState::Idle,
        ShellState::Idle,
        ShellState::SubprocessRunning,
        ShellState::Idle,
        ShellState::Idle,
        ShellState::Terminated,
    ];
    let mut props = RuntimeProps::new(Config::default(), Language::Nil);
    let printed: Vec<bool> = states.iter().map(|s| props.prompt_due(*s)).collect();
    assert_eq!(printed, vec![true, false, false, true, false, false]);
}
