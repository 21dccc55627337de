use pyc_shell::config::PromptConfig;
use pyc_shell::shell::history::ShellHistory;
use pyc_shell::shell::proc::{parse_u8, ShellError, ShellProc, ShellState};
use pyc_shell::shell::prompt::modules::colors::PromptColor;
use pyc_shell::shell::prompt::modules::language::language_to_str;
use pyc_shell::shell::prompt::{ShellPrompt, ShellProps};
use pyc_shell::shell::unixsignal::UnixSignal;
use pyc_shell::shellenv::process::ProcessError;
use pyc_shell::translator::ioprocessor::IOProcessor;
use pyc_shell::translator::{new_translator, Language};

#[test]
fn test_shell_history() {
    let mut history: ShellHistory = ShellHistory::new();
    //Load history
    history.load(vec![String::from("ls"), String::from("cd /tmp/")]);
    assert_eq!(history.len(), 2);
    //History at
    assert_eq!(history.at(0).unwrap(), String::from("cd /tmp/"));
    assert_eq!(history.at(1).unwrap(), String::from("ls"));
    assert!(history.at(2).is_none());
    //Push element
    history.push(String::from("pwd"));
    assert_eq!(history.len(), 3);
    assert_eq!(history.at(0).unwrap(), String::from("pwd"));
    //Fill history with 2048 elements
    let mut history_vec: Vec<String> = Vec::with_capacity(2048);
    for i in 0..2048 {
        history_vec.push(format!("echo {}", i));
    }
    history.load(history_vec);
    assert_eq!(history.len(), 2048);
    assert_eq!(history.at(0).unwrap(), String::from("echo 2047"));
    assert_eq!(history.at(2047).unwrap(), String::from("echo 0"));
    //Push element
    history.push(String::from("echo 2048"));
    assert_eq!(history.len(), 2048);
    assert_eq!(history.at(0).unwrap(), String::from("echo 2048"));
    assert_eq!(history.at(2047).unwrap(), String::from("echo 1"));
    //Clear
    history.clear();
    assert_eq!(history.len(), 0);
    //Push element
    history.push(String::from("ls -l"));
    history.push(String::from("cd /tmp/"));
    //Dump history
    let dump: Vec<String> = history.dump();
    assert_eq!(dump.len(), 2);
    assert_eq!(*dump.get(0).unwrap(), String::from("cd /tmp/"));
    assert_eq!(*dump.get(1).unwrap(), String::from("ls -l"));
}

#[test]
fn history_load_keeps_newest_lines() {
    let mut history = ShellHistory::new();
    let lines: Vec<String> = (0..3000).map(|i| format!("l{}", i)).collect();
    history.load(lines);
    assert_eq!(history.len(), 2048);
    assert_eq!(history.at(0).unwrap(), String::from("l2999"));
    assert_eq!(history.at(2047).unwrap(), String::from("l952"));
    let dump = history.dump();
    assert_eq!(dump[0], String::from("l2999"));
    assert_eq!(dump[2047], String::from("l952"));
}

#[test]
fn test_unixsignal_from_u8() {
    let expected = [
        UnixSignal::Sighup, UnixSignal::Sigint, UnixSignal::Sigquit, UnixSignal::Sigill, UnixSignal::Sigtrap,
        UnixSignal::Sigabrt, UnixSignal::Sigbus, UnixSignal::Sigfpe, UnixSignal::Sigkill, UnixSignal::Sigusr1,
        UnixSignal::Sigsegv, UnixSignal::Sigusr2, UnixSignal::Sigpipe, UnixSignal::Sigalrm, UnixSignal::Sigterm,
        UnixSignal::Sigstkflt, UnixSignal::Sigchld, UnixSignal::Sigcont, UnixSignal::Sigstop, UnixSignal::Sigtstp,
        UnixSignal::Sigttin, UnixSignal::Sigttou, UnixSignal::Sigurg, UnixSignal::Sigxcpu, UnixSignal::Sigxfsz,
        UnixSignal::Sigvtalrm, UnixSignal::Sigprof, UnixSignal::Sigwinch, UnixSignal::Sigio, UnixSignal::Sigpwr,
        UnixSignal::Sigsys,
    ];
    for (i, sig) in expected.iter().enumerate() {
        assert_eq!(UnixSignal::from_u8((i + 1) as u8).unwrap(), *sig);
    }
    assert!(UnixSignal::from_u8(255).is_none());
}

#[test]
fn unixsignal_number_round_trip() {
    for n in 0..=255u8 {
        if let Some(sig) = UnixSignal::from_u8(n) {
            assert_eq!(sig.to_u8(), n);
        }
    }
    assert_eq!(UnixSignal::Sigkill.to_u8(), 9);
    assert!(UnixSignal::from_u8(0).is_none());
    assert!(UnixSignal::from_u8(32).is_none());
}

#[test]
fn test_prompt_color_from_str() {
    assert_eq!(PromptColor::from_key("${KRED}"), PromptColor::Red);
    assert_eq!(PromptColor::from_key("${KYEL}"), PromptColor::Yellow);
    assert_eq!(PromptColor::from_key("${KGRN}"), PromptColor::Green);
    assert_eq!(PromptColor::from_key("${KBLU}"), PromptColor::Blue);
    assert_eq!(PromptColor::from_key("${KCYN}"), PromptColor::Cyan);
    assert_eq!(PromptColor::from_key("${KMAG}"), PromptColor::Magenta);
    assert_eq!(PromptColor::from_key("${KGRY}"), PromptColor::Gray);
    assert_eq!(PromptColor::from_key("${KWHT}"), PromptColor::White);
    assert_eq!(PromptColor::from_key("${KBLK}"), PromptColor::Black);
    assert_eq!(PromptColor::from_key("${KBOLD}"), PromptColor::Bold);
    assert_eq!(PromptColor::from_key("${KBLINK}"), PromptColor::Blink);
    assert_eq!(PromptColor::from_key("${KSELECT}"), PromptColor::Select);
    assert_eq!(PromptColor::from_key("${KRST}"), PromptColor::Reset);
    assert_eq!(PromptColor::from_key("UnknownColor"), PromptColor::Reset);
}

#[test]
fn test_prompt_color_print() {
    assert_eq!(PromptColor::Red.to_string(), "\x1b[31m");
    println!("{}Red", PromptColor::Red.to_string());
    assert_eq!(PromptColor::Yellow.to_string(), "\x1b[33m");
    println!("{}Yellow", PromptColor::Yellow.to_string());
    assert_eq!(PromptColor::Green.to_string(), "\x1b[32m");
    println!("{}Green", PromptColor::Green.to_string());
    assert_eq!(PromptColor::Blue.to_string(), "\x1b[34m");
    println!("{}Blue", PromptColor::Blue.to_string());
    assert_eq!(PromptColor::Cyan.to_string(), "\x1b[36m");
    println!("{}Cyan", PromptColor::Cyan.to_string());
    assert_eq!(PromptColor::Magenta.to_string(), "\x1b[35m");
    println!("{}Magenta", PromptColor::Magenta.to_string());
    assert_eq!(PromptColor::Gray.to_string(), "\x1b[90m");
    println!("{}Gray", PromptColor::Gray.to_string());
    assert_eq!(PromptColor::White.to_string(), "\x1b[37m");
    println!("{}White", PromptColor::White.to_string());
    assert_eq!(PromptColor::Black.to_string(), "\x1b[30m");
    println!("{}Black", PromptColor::Black.to_string());
    assert_eq!(PromptColor::Bold.to_string(), "\x1b[1m");
    println!("{}Bold", PromptColor::Bold.to_string());
    assert_eq!(PromptColor::Blink.to_string(), "\x1b[5m");
    println!("{}Blink", PromptColor::Blink.to_string());
    assert_eq!(PromptColor::Select.to_string(), "\x1b[7m");
    println!("{}Selected", PromptColor::Select.to_string());
    assert_eq!(PromptColor::Reset.to_string(), "\x1b[0m");
    println!("{}Reset", PromptColor::Reset.to_string());
}

#[test]
fn test_prompt_lang_flag() {
    assert_eq!(language_to_str(Language::Belarusian), String::from("\x1b[31mб\x1b[32mе\x1b[37mл\x1b[0m"));
    assert_eq!(language_to_str(Language::Bulgarian), String::from("\x1b[37mб\x1b[32mл\x1b[31mг\x1b[0m"));
    assert_eq!(language_to_str(Language::Russian), String::from("\x1b[37mр\x1b[34mу\x1b[31mс\x1b[0m"));
    assert_eq!(language_to_str(Language::Serbian), String::from("\x1b[31mр\x1b[34mу\x1b[37mс\x1b[0m"));
    assert_eq!(language_to_str(Language::Ukrainian), String::from("\x1b[36mу\x1b[33mк\x1b[36mр\x1b[0m"));
}

#[test]
fn test_display_error() {
    println!("{}; {}", ProcessError::CouldNotStartProcess.to_string(), ProcessError::NoArgs.to_string());
    assert_eq!(ProcessError::CouldNotStartProcess.to_string(), String::from("Could not start process"));
    assert_eq!(ProcessError::NoArgs.to_string(), String::from("Process was not provided of enough process"));
}

#[test]
fn test_proc_fmt_shell_error() {
    assert_eq!(ShellError::CouldNotStartProcess.to_string(), String::from("Could not start process"));
    assert_eq!(ShellError::InvalidData.to_string(), String::from("Invalid data from process"));
    assert_eq!(ShellError::IoTimeout.to_string(), String::from("I/O timeout"));
    assert_eq!(ShellError::ShellTerminated.to_string(), String::from("Shell has terminated"));
    assert_eq!(ShellError::ShellRunning.to_string(), String::from("Tried to clean shell up while still running"));
    assert_eq!(ShellError::CouldNotKill.to_string(), String::from("Could not send signal to shell process"));
    assert_eq!(
        ShellError::PipeError(nix::errno::Errno::EACCES as i32).to_string(),
        format!("Pipe error: {}", nix::errno::Errno::EACCES)
    );
}

fn marker(p: &ShellProc, status: &str, wrkdir: &str) -> String {
    format!("\x02{};{};{}\x03", status, wrkdir, p.uuid)
}

#[test]
fn test_pipe_io() {
    // what goes into the shell's input and how its output comes back
    let mut p = ShellProc::new(1234, String::from("/"));
    let written = p.write(String::from("ls\n")).unwrap();
    assert_eq!(written, format!("ls\necho \"\x02$?;`pwd`;{}\x03\"", p.uuid));
    assert_eq!(p.state, ShellState::SubprocessRunning);
    let out = format!("a b\n{}", marker(&p, "0", "/tmp"));
    assert!(p.splittable_read(&out));
    assert_eq!(p.parse_stdout(Some(out)), Some(String::from("a b\n")));
    assert_eq!(p.state, ShellState::Idle);
    assert_eq!(p.exit_status, 0);
    assert_eq!(p.wrkdir, String::from("/tmp"));
}

#[test]
fn shell_proc_starts_idle_with_uuid() {
    let p = ShellProc::new(42, String::from("/home"));
    assert_eq!(p.state, ShellState::Idle);
    assert_eq!(p.pid, 42);
    assert_eq!(p.exit_status, 0);
    assert_eq!(p.rc, 255);
    assert_eq!(p.uuid.len(), 36);
    assert!(p.uuid.chars().all(|c| c.is_ascii_hexdigit() || c == '-'));
    let q = ShellProc::new(42, String::from("/home"));
    assert_ne!(p.uuid, q.uuid);
}

#[test]
fn output_split_over_two_reads() {
    let mut p = ShellProc::new(1, String::from("/"));
    let _ = p.write(String::from("false\n")).unwrap();
    // a read that does not end a command comes back as it is, and is kept
    assert_eq!(p.parse_stdout(Some(String::from("part"))), Some(String::from("part")));
    assert_eq!(p.state, ShellState::SubprocessRunning);
    let rest = marker(&p, "1", "/var");
    assert!(p.splittable_read(&rest));
    assert_eq!(p.parse_stdout(Some(rest)), Some(String::new()));
    assert_eq!(p.state, ShellState::Idle);
    assert_eq!(p.exit_status, 1);
    assert_eq!(p.wrkdir, String::from("/var"));
    assert_eq!(p.parse_stdout(None), None);
}

#[test]
fn marker_split_across_reads_is_not_splittable() {
    let mut p = ShellProc::new(1, String::from("/"));
    let _ = p.write(String::from("true\n")).unwrap();
    let m = marker(&p, "0", "/");
    let (first, second) = m.split_at(3);
    assert_eq!(p.parse_stdout(Some(String::from(first))), Some(String::from(first)));
    assert!(!p.splittable_read(&String::from(second)));
}

#[test]
fn bad_status_reads_as_255() {
    let mut p = ShellProc::new(1, String::from("/"));
    let _ = p.write(String::from("x\n")).unwrap();
    let out = marker(&p, "300", "/opt");
    assert_eq!(p.parse_stdout(Some(out)), Some(String::new()));
    assert_eq!(p.exit_status, 255);
    assert_eq!(p.wrkdir, String::from("/opt"));
}

#[test]
fn parse_u8_as_std() {
    let digits = |s: &str| -> Vec<char> { s.chars().collect() };
    assert_eq!(parse_u8(&digits("0")), Some(0));
    assert_eq!(parse_u8(&digits("+7")), Some(7));
    assert_eq!(parse_u8(&digits("255")), Some(255));
    assert_eq!(parse_u8(&digits("256")), None);
    assert_eq!(parse_u8(&digits("")), None);
    assert_eq!(parse_u8(&digits("+")), None);
    assert_eq!(parse_u8(&digits("-1")), None);
    assert_eq!(parse_u8(&digits("1a")), None);
    for n in 0..=255u8 {
        assert_eq!(parse_u8(&digits(&n.to_string())), Some(n));
        assert_eq!(parse_u8(&digits(&n.to_string())), n.to_string().parse::<u8>().ok());
    }
}

#[test]
fn terminated_shell_refuses_input() {
    let mut p = ShellProc::new(1, String::from("/"));
    assert_eq!(p.cleanup(), Err(ShellError::ShellRunning));
    assert_eq!(p.update_state(None), ShellState::Idle);
    assert_eq!(p.update_state(Some(5)), ShellState::Terminated);
    assert_eq!(p.write(String::from("ls\n")), Err(ShellError::ShellTerminated));
    assert_eq!(p.cleanup(), Ok(5));
}

fn props(exit_status: u8) -> ShellProps {
    let mut p = ShellProps::new(String::from("computer"), String::from("root"), String::from("/"));
    p.exit_status = exit_status;
    p.elapsed_ms = 5100;
    p.elapsed_secs = String::from("5.1");
    p
}

fn russian() -> IOProcessor {
    IOProcessor::new(Language::Russian, new_translator(Language::Russian))
}

#[test]
fn test_shell_props_new() {
    let p = ShellProps::new(String::from("computer"), String::from("root"), String::from("/tmp/"));
    assert_eq!(p.username, String::from("root"));
    assert_eq!(p.hostname, String::from("computer"));
    assert_eq!(p.wrkdir, String::from("/tmp/"));
    assert_eq!(p.elapsed_ms, 0);
    assert_eq!(p.exit_status, 0);
}

#[test]
fn test_prompt_simple() {
    let prompt = ShellPrompt::new(&PromptConfig::default());
    let line = prompt.process_prompt(&props(0), Language::Russian);
    assert_eq!(line, String::from("root@computer:/$"));
    assert_eq!(prompt.get_line(&props(0), &russian()), line);
}

#[test]
fn test_prompt_colors() {
    let mut cfg = PromptConfig::default();
    cfg.prompt_line = String::from("${KRED}RED${KYEL}YEL${KBLU}BLU${KGRN}GRN${KWHT}WHT${KGRY}GRY${KBLK}BLK${KMAG}MAG${KCYN}CYN${KRST}");
    let prompt = ShellPrompt::new(&cfg);
    let expected = format!(
        "{}RED{}YEL{}BLU{}GRN{}WHT{}GRY{}BLK{}MAG{}CYN{}",
        PromptColor::Red.to_string(),
        PromptColor::Yellow.to_string(),
        PromptColor::Blue.to_string(),
        PromptColor::Green.to_string(),
        PromptColor::White.to_string(),
        PromptColor::Gray.to_string(),
        PromptColor::Black.to_string(),
        PromptColor::Magenta.to_string(),
        PromptColor::Cyan.to_string(),
        PromptColor::Reset.to_string()
    );
    assert_eq!(prompt.process_prompt(&props(0), Language::Russian), expected);
}

#[test]
fn test_prompt_lang_time_with_break() {
    let mut cfg = PromptConfig::default();
    cfg.prompt_line = String::from("${LANG} ~ ${KYEL}${USER}${KRST} on ${KGRN}${HOSTNAME}${KRST} in ${KCYN}${WRKDIR}${KRST} ${KYEL}${CMD_TIME}${KRST}");
    cfg.break_enabled = true;
    let prompt = ShellPrompt::new(&cfg);
    let mut env = props(0);
    env.wrkdir = String::from("/tmp/");
    let expected = format!(
        "{} ~ {}{}{} on {}{}{} in {}{}{} {}took 5.1s{}\n❯",
        language_to_str(Language::Russian),
        PromptColor::Yellow.to_string(),
        "root",
        PromptColor::Reset.to_string(),
        PromptColor::Green.to_string(),
        "computer",
        PromptColor::Reset.to_string(),
        PromptColor::Cyan.to_string(),
        "/tmp/",
        PromptColor::Reset.to_string(),
        PromptColor::Yellow.to_string(),
        PromptColor::Reset.to_string()
    );
    assert_eq!(prompt.process_prompt(&env, Language::Russian), expected);
}

#[test]
fn test_prompt_git() {
    let mut cfg = PromptConfig::default();
    cfg.prompt_line = String::from("${USER}@${HOSTNAME}:${WRKDIR} ${GIT_BRANCH}:${GIT_COMMIT}");
    let prompt = ShellPrompt::new(&cfg);
    assert!(prompt.needs_git());
    let mut env = props(0);
    env.wrkdir = String::from("./");
    env.git_branch = Some(String::from("master"));
    env.git_commit = Some(String::from("1a2b3c4d"));
    assert_eq!(prompt.process_prompt(&env, Language::Russian), String::from("root@computer:./ on master:1a2b3c4d"));
}

#[test]
fn test_prompt_git_not_in_repo() {
    let mut cfg = PromptConfig::default();
    cfg.prompt_line = String::from("${USER}@${HOSTNAME}:${WRKDIR} ${GIT_BRANCH} ${GIT_COMMIT}");
    let prompt = ShellPrompt::new(&cfg);
    assert_eq!(prompt.process_prompt(&props(0), Language::Russian), String::from("root@computer:/"));
}

#[test]
fn test_prompt_rc_ok() {
    let mut cfg = PromptConfig::default();
    cfg.prompt_line = String::from("${RC} ${USER}@${HOSTNAME}:${WRKDIR}");
    let prompt = ShellPrompt::new(&cfg);
    assert_eq!(prompt.process_prompt(&props(0), Language::Russian), String::from("✔ root@computer:/"));
}

#[test]
fn test_prompt_rc_error() {
    let mut cfg = PromptConfig::default();
    cfg.prompt_line = String::from("${RC} ${USER}@${HOSTNAME}:${WRKDIR}");
    let prompt = ShellPrompt::new(&cfg);
    assert_eq!(prompt.process_prompt(&props(255), Language::Russian), String::from("✖ root@computer:/"));
}

#[test]
fn test_prompt_unresolved() {
    let mut cfg = PromptConfig::default();
    cfg.prompt_line = String::from("${USER}@${HOSTNAME}:${WRKDIR} ${FOOBAR}");
    let prompt = ShellPrompt::new(&cfg);
    assert_eq!(prompt.process_prompt(&props(255), Language::Russian), String::from("root@computer:/ ${FOOBAR}"));
}

#[test]
fn prompt_short_command_shows_no_time() {
    let mut cfg = PromptConfig::default();
    cfg.prompt_line = String::from("${USER} ${CMD_TIME}");
    let prompt = ShellPrompt::new(&cfg);
    let mut env = props(0);
    env.elapsed_ms = 1999;
    assert_eq!(prompt.process_prompt(&env, Language::Russian), String::from("root"));
}

#[test]
fn prompt_translated_in_serbian() {
    let mut cfg = PromptConfig::default();
    cfg.translate = true;
    let prompt = ShellPrompt::new(&cfg);
    let iop = IOProcessor::new(Language::Serbian, new_translator(Language::Serbian));
    assert_eq!(prompt.get_line(&props(0), &iop), String::from("роот@компутер:/$"));
}
