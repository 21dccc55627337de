//! The decisions of the runtime: which shell to start, how a script or a
//! command line becomes shell input, and how each key press changes the
//! line being typed. The loops that read the terminal and the shell, and
//! perform the resulting actions, live outside the library.
pub mod imiop;
pub mod input;
pub mod props;

use vstd::prelude::*;
use crate::config::{Config, alias_view, alias_lookup};
use crate::shell::unixsignal::UnixSignal;
use crate::translator::ioprocessor::{IOProcessor, cyrillic_output};
use crate::translator::latin_in;
use crate::utils::text::{string_push, string_chars, starts_with, str_starts_with};

verus! {

/// The shell to start and its arguments: the one given on the command line
/// (without arguments), or else the configured one.
pub fn resolve_shell(config: &Config, shellopt: Option<String>) -> (r: (String, Vec<String>))
    ensures
        match shellopt {
            Some(sh) => r.0@ == sh@ && r.1@.len() == 0,
            None => r.0@ == config.shell_config.executable@ && r.1@ == config.shell_config.args@,
        },
{
    match shellopt {
        Some(sh) => (sh, Vec::new()),
        None => {
            let mut args: Vec<String> = Vec::new();
            let mut i: usize = 0;
            while i < config.shell_config.args.len()
                invariant
                    i <= config.shell_config.args.len(),
                    args@ == config.shell_config.args@.take(i as int),
                decreases config.shell_config.args.len() - i,
            {
                args.push(config.shell_config.args[i].clone());
                assert(config.shell_config.args@.take(i + 1) =~= config.shell_config.args@.take(i as int).push(config.shell_config.args@[i as int]));
                i += 1;
            }
            assert(config.shell_config.args@.take(i as int) =~= config.shell_config.args@);
            (config.shell_config.executable.clone(), args)
        },
    }
}

/// Whether a script line is run: comments (`#...`) and empty lines are not.
pub open spec fn is_script_command(line: Seq<char>) -> bool {
    line.len() > 0 && line[0] != '#'
}

/// The single command that runs the lines of a script: each command line
/// followed by `;`, unless it already ends with one.
pub open spec fn script_command(lines: Seq<Seq<char>>) -> Seq<char>
    decreases lines.len(),
{
    if lines.len() == 0 {
        Seq::empty()
    } else {
        let line = lines.last();
        let before = script_command(lines.drop_last());
        if !is_script_command(line) {
            before
        } else if line.last() == ';' {
            before + line
        } else {
            before + line + seq![';']
        }
    }
}

/// Converts script lines to a single command as string
pub fn script_lines_to_string(lines: &Vec<String>) -> (command: String)
    ensures
        command@ == script_command(lines@.map_values(|l: String| l@)),
{
    let ghost all = lines@.map_values(|l: String| l@);
    let mut command = String::new();
    let mut i: usize = 0;
    while i < lines.len()
        invariant
            i <= lines.len(),
            all == lines@.map_values(|l: String| l@),
            command@ == script_command(all.take(i as int)),
        decreases lines.len() - i,
    {
        let line = &lines[i];
        let chars = string_chars(line.as_str());
        assert(all.take(i + 1).drop_last() =~= all.take(i as int));
        assert(all.take(i + 1).last() == line@);
        if chars.len() > 0 && chars[0] != '#' {
            command.append(line.as_str());
            if chars[chars.len() - 1] != ';' {
                string_push(&mut command, ';');
            }
        }
        i += 1;
    }
    assert(all.take(lines.len() as int) =~= all);
    command
}

/// Resolve command according to configured alias: the first argument is
/// replaced by the command of its alias, if it has one.
pub fn resolve_command(argv: &mut Vec<String>, config: &Config)
    requires
        old(argv)@.len() > 0,
    ensures
        final(argv)@.len() == old(argv)@.len(),
        forall|i: int| 1 <= i < old(argv)@.len() ==> final(argv)@[i] == old(argv)@[i],
        match alias_lookup(alias_view(config.alias@), old(argv)@[0]@) {
            Some(cmd) => final(argv)@[0]@ == cmd,
            None => final(argv)@[0] == old(argv)@[0],
        },
{
    match config.get_alias(&argv[0]) {
        Some(resolved) => {
            argv.set(0, resolved);
        },
        None => {},
    }
}

/// Converts a signal received on prompt to a UnixSignal
pub fn shellsignal_to_signal(sig: u8) -> (r: Option<UnixSignal>)
    ensures
        r == if sig == 3 {
            Some(UnixSignal::Sigint)
        } else if sig == 26 {
            Some(UnixSignal::Sigstop)
        } else {
            None
        },
{
    match sig {
        3 => Some(UnixSignal::Sigint),
        26 => Some(UnixSignal::Sigstop),
        _ => None,
    }
}

/// `s` without the trailing characters `c`.
pub open spec fn without_trailing(s: Seq<char>, c: char) -> Seq<char>
    decreases s.len(),
{
    if s.len() > 0 && s.last() == c {
        without_trailing(s.drop_last(), c)
    } else {
        s
    }
}

/// The text written to the shell for a one-shot command: trailing newlines,
/// then trailing semicolons removed, and `; exit $?` and a newline appended,
/// so that the shell exits with the command's status.
pub open spec fn oneshot_command(command: Seq<char>) -> Seq<char> {
    without_trailing(without_trailing(command, '\n'), ';') + "; exit $?\n"@
}

fn strip_trailing(v: &mut Vec<char>, c: char)
    ensures
        final(v)@ == without_trailing(old(v)@, c),
{
    while v.len() > 0 && v[v.len() - 1] == c
        invariant
            without_trailing(v@, c) == without_trailing(old(v)@, c),
        decreases v.len(),
    {
        v.pop();
    }
}

/// Prepares a one-shot command to be written to the shell.
pub fn prepare_command(command: &String) -> (r: String)
    ensures
        r@ == oneshot_command(command@),
{
    let mut chars = string_chars(command.as_str());
    strip_trailing(&mut chars, '\n');
    strip_trailing(&mut chars, ';');
    let mut r = crate::utils::buffer::chars_to_string(&chars);
    r.append("; exit $?\n");
    r
}

/// A message for the console: translated to the processor's script when
/// output is translated.
pub fn console_fmt(out: &String, to_cyrillic: bool, processor: &IOProcessor) -> (s: String)
    ensures
        to_cyrillic ==> s@ == cyrillic_output(processor.translator_language(), processor.escape_pattern(), out@),
        !to_cyrillic ==> s@ == out@,
{
    if to_cyrillic {
        processor.text_to_cyrillic(out)
    } else {
        out.clone()
    }
}


/// The command of a script made of two parts is the command of the first
/// part followed by the command of the second: lines are turned into
/// commands one by one.
pub proof fn law_script_command_of_parts(a: Seq<Seq<char>>, b: Seq<Seq<char>>)
    ensures
        script_command(a + b) == script_command(a) + script_command(b),
    decreases b.len(),
{
    if b.len() == 0 {
        assert(a + b =~= a);
        assert(script_command(a) + Seq::<char>::empty() =~= script_command(a));
    } else {
        law_script_command_of_parts(a, b.drop_last());
        assert((a + b).drop_last() =~= a + b.drop_last());
        assert((a + b).last() == b.last());
        let x = script_command(a);
        let y = script_command(b.drop_last());
        let line = b.last();
        assert(x + y + line =~= x + (y + line));
        assert(x + y + line + seq![';'] =~= x + (y + line + seq![';']));
    }
}

/// A script line that is run always ends up terminated by `;`, and comment
/// and empty lines run nothing.
pub proof fn law_script_line_is_terminated(line: Seq<char>)
    ensures
        is_script_command(line) ==> script_command(seq![line]).len() > 0 && script_command(seq![line]).last() == ';',
        !is_script_command(line) ==> script_command(seq![line]).len() == 0,
{
    assert(seq![line].drop_last() =~= Seq::<Seq<char>>::empty());
    assert(seq![line].last() == line);
    assert(script_command(Seq::<Seq<char>>::empty()) == Seq::<char>::empty());
    assert(Seq::<char>::empty() + line =~= line);
    assert(Seq::<char>::empty() + line + seq![';'] =~= line.push(';'));
}

/// A one-shot command is written the same whether or not it ends with a
/// newline, or (before any newline) with a semicolon: the shell always gets
/// the bare command followed by `; exit $?`.
pub proof fn law_oneshot_ignores_trailing_separators(command: Seq<char>)
    ensures
        oneshot_command(command.push('\n')) == oneshot_command(command),
        (command.len() == 0 || command.last() != '\n') ==> oneshot_command(command.push(';')) == oneshot_command(command),
{
    assert(command.push('\n').drop_last() =~= command);
    assert(command.push(';').drop_last() =~= command);
    assert(without_trailing(command.push(';'), '\n') == command.push(';'));
}

} // verus!
