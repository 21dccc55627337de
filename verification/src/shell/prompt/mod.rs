//! The prompt line: its configuration and the resolution of the `${KEY}` keys
//! in it.
//!
//! Looking up the user, the host, the working directory and the git
//! repository happens outside the library; their values reach the prompt
//! as a `ShellProps`.
pub mod modules;

use vstd::prelude::*;
use crate::config::PromptConfig;
use crate::translator::ioprocessor::{IOProcessor, cyrillic_output};
use crate::translator::Language;
use crate::utils::text::{string_push, string_chars, str_contains, contains_seq, replace_all, replaced,
    trim, trimmed, find_all_matches, regex_find_all};
use modules::colors::{PromptColor, key_seq, is_key, color_code, color_of_key};
use modules::language::{language_to_str, language_flag};

verus! {

/// Instantiate a new BreakOptions with the provided parameters
pub struct BreakOptions {
    pub break_with: String,
}

/// DurationOptions is the struct which contains the current duration configuration
pub struct DurationOptions {
    /// Shortest command time, in milliseconds, that the prompt reports.
    pub minimum: u64,
}

/// RcOptions is the struct which contains the return code configuration
pub struct RcOptions {
    pub ok: String,
    pub err: String,
}

/// GitOptions is the struct which contains the current git module configuration
pub struct GitOptions {
    pub branch: String,
    pub commit_ref_len: usize,
}

/// `${CMD_TIME}`
pub open spec fn cmd_time_key() -> Seq<char> {
    key_seq(seq!['C', 'M', 'D', '_', 'T', 'I', 'M', 'E'])
}

/// `${RC}`
pub open spec fn rc_key() -> Seq<char> {
    key_seq(seq!['R', 'C'])
}

/// `${GIT_BRANCH}`
pub open spec fn git_branch_key() -> Seq<char> {
    key_seq(seq!['G', 'I', 'T', '_', 'B', 'R', 'A', 'N', 'C', 'H'])
}

/// `${GIT_COMMIT}`
pub open spec fn git_commit_key() -> Seq<char> {
    key_seq(seq!['G', 'I', 'T', '_', 'C', 'O', 'M', 'M', 'I', 'T'])
}

/// `${USER}`
pub open spec fn user_key() -> Seq<char> {
    key_seq(seq!['U', 'S', 'E', 'R'])
}

/// `${HOSTNAME}`
pub open spec fn hostname_key() -> Seq<char> {
    key_seq(seq!['H', 'O', 'S', 'T', 'N', 'A', 'M', 'E'])
}

/// `${WRKDIR}`
pub open spec fn wrkdir_key() -> Seq<char> {
    key_seq(seq!['W', 'R', 'K', 'D', 'I', 'R'])
}

/// `${LANG}`
pub open spec fn lang_key() -> Seq<char> {
    key_seq(seq!['L', 'A', 'N', 'G'])
}

/// The colour keys that the prompt resolves (not the text attributes).
pub open spec fn is_prompt_color_key(key: Seq<char>) -> bool {
    ||| key == key_seq(seq!['K', 'B', 'L', 'K'])
    ||| key == key_seq(seq!['K', 'B', 'L', 'U'])
    ||| key == key_seq(seq!['K', 'C', 'Y', 'N'])
    ||| key == key_seq(seq!['K', 'G', 'R', 'N'])
    ||| key == key_seq(seq!['K', 'G', 'R', 'Y'])
    ||| key == key_seq(seq!['K', 'M', 'A', 'G'])
    ||| key == key_seq(seq!['K', 'R', 'E', 'D'])
    ||| key == key_seq(seq!['K', 'R', 'S', 'T'])
    ||| key == key_seq(seq!['K', 'W', 'H', 'T'])
    ||| key == key_seq(seq!['K', 'Y', 'E', 'L'])
}

/// The regular expression of a prompt key: `\$\{(.*?)\}`.
pub open spec fn prompt_key_pattern() -> Seq<char> {
    seq!['\\', '$', '\\', '{', '(', '.', '*', '?', ')', '\\', '}']
}

/// What the prompt knows of the shell when it is drawn: the runtime
/// properties of the shell.
pub struct ShellProps {
    pub username: String,
    pub hostname: String,
    /// The working directory, as it is displayed.
    pub wrkdir: String,
    /// How long the last command took, in milliseconds.
    pub elapsed_ms: u128,
    /// The same time in seconds, with one decimal.
    pub elapsed_secs: String,
    /// Exit status of the last command.
    pub exit_status: u8,
    /// The branch of the git repository of the working directory, if any.
    pub git_branch: Option<String>,
    /// The first characters of the current commit, if any.
    pub git_commit: Option<String>,
}

impl ShellProps {
    /// The properties of a shell just started: no command has run yet, so
    /// the exit status is 0 and no time has elapsed; no repository is known.
    pub fn new(hostname: String, username: String, wrkdir: String) -> (p: ShellProps)
        ensures
            p.hostname == hostname,
            p.username == username,
            p.wrkdir == wrkdir,
            p.elapsed_ms == 0,
            p.elapsed_secs@ == "0.0"@,
            p.exit_status == 0,
            p.git_branch is None,
            p.git_commit is None,
    {
        ShellProps {
            hostname,
            username,
            wrkdir,
            elapsed_ms: 0,
            elapsed_secs: String::from_str("0.0"),
            exit_status: 0,
            git_branch: None,
            git_commit: None,
        }
    }
}

/// The view of an optional string.
pub open spec fn opt_view(s: Option<String>) -> Option<Seq<char>> {
    match s {
        Some(v) => Some(v@),
        None => None,
    }
}

/// ShellPrompt is the struct which contains the current shell prompt configuration
pub struct ShellPrompt {
    pub prompt_line: String,
    pub translate: bool,
    pub break_opt: Option<BreakOptions>,
    pub duration_opt: Option<DurationOptions>,
    pub rc_opt: Option<RcOptions>,
    pub git_opt: Option<GitOptions>,
}

/// The text that replaces a prompt key; unknown keys stay as they are.
pub open spec fn key_value(prompt: ShellPrompt, env: ShellProps, language: Language, key: Seq<char>) -> Seq<char> {
    if key == cmd_time_key() {
        match prompt.duration_opt {
            Some(opt) => if env.elapsed_ms >= opt.minimum {
                "took "@ + env.elapsed_secs@ + seq!['s']
            } else {
                Seq::empty()
            },
            None => Seq::empty(),
        }
    } else if key == git_branch_key() {
        match (prompt.git_opt, opt_view(env.git_branch)) {
            (Some(opt), Some(branch)) => opt.branch@ + branch,
            _ => Seq::empty(),
        }
    } else if key == git_commit_key() {
        match (prompt.git_opt, opt_view(env.git_commit)) {
            (Some(_), Some(commit)) => commit,
            _ => Seq::empty(),
        }
    } else if key == hostname_key() {
        env.hostname@
    } else if is_prompt_color_key(key) {
        color_code(color_of_key(key))
    } else if key == lang_key() {
        language_flag(language)
    } else if key == rc_key() {
        match prompt.rc_opt {
            Some(opt) => if env.exit_status == 0 { opt.ok@ } else { opt.err@ },
            None => Seq::empty(),
        }
    } else if key == user_key() {
        env.username@
    } else if key == wrkdir_key() {
        env.wrkdir@
    } else {
        key
    }
}

/// `line` after each of `keys`, in turn, is replaced wherever it occurs by
/// its value.
pub open spec fn resolved_with(
    prompt: ShellPrompt,
    env: ShellProps,
    language: Language,
    line: Seq<char>,
    keys: Seq<Seq<char>>,
) -> Seq<char>
    decreases keys.len(),
{
    if keys.len() == 0 {
        line
    } else {
        resolved_with(
            prompt,
            env,
            language,
            replaced(line, keys[0], key_value(prompt, env, language, keys[0])),
            keys.skip(1),
        )
    }
}

/// The prompt line: every key found in the configured line replaced by its
/// value, white space trimmed, and, if the line breaks, a newline and the
/// trimmed break text after it.
pub open spec fn prompt_text(prompt: ShellPrompt, env: ShellProps, language: Language) -> Seq<char> {
    let line = prompt.prompt_line@;
    let resolved = match regex_find_all(prompt_key_pattern(), line) {
        Some(keys) => resolved_with(prompt, env, language, line, keys),
        None => line,
    };
    match prompt.break_opt {
        Some(b) => trimmed(resolved) + seq!['\n'] + trimmed(b.break_with@),
        None => trimmed(resolved),
    }
}

fn key_string(name: &[char]) -> (s: String)
    ensures
        s@ == key_seq(name@),
{
    let mut s = String::new();
    string_push(&mut s, '$');
    string_push(&mut s, '{');
    let mut i: usize = 0;
    while i < name.len()
        invariant
            i <= name.len(),
            s@ == seq!['$', '{'] + name@.take(i as int),
        decreases name.len() - i,
    {
        string_push(&mut s, name[i]);
        assert(name@.take(i + 1) =~= name@.take(i as int).push(name@[i as int]));
        i += 1;
    }
    string_push(&mut s, '}');
    assert(name@.take(name.len() as int) =~= name@);
    assert(s@ =~= key_seq(name@));
    s
}

impl BreakOptions {
    /// Instantiate a new BreakOptions with the provided parameters
    pub fn new(break_with: &String) -> (b: BreakOptions)
        ensures
            b.break_with@ == break_with@,
    {
        BreakOptions { break_with: break_with.clone() }
    }
}

impl DurationOptions {
    /// helper which says if duration module should be enabled
    pub fn should_enable(prompt_line: &String) -> (r: bool)
        ensures
            r == contains_seq(prompt_line@, cmd_time_key()),
    {
        let k = ['C', 'M', 'D', '_', 'T', 'I', 'M', 'E'];
        assert(k@ =~= seq!['C', 'M', 'D', '_', 'T', 'I', 'M', 'E']);
        str_contains(prompt_line.as_str(), key_string(k.as_slice()).as_str())
    }

    /// Instantiate a new DurationOptions with the provided parameters
    pub fn new(min_duration: usize) -> (d: DurationOptions)
        ensures
            d.minimum == min_duration as u64,
    {
        DurationOptions { minimum: min_duration as u64 }
    }
}

impl RcOptions {
    /// helper which says if rc module should be enabled
    pub fn should_enable(prompt_line: &String) -> (r: bool)
        ensures
            r == contains_seq(prompt_line@, rc_key()),
    {
        let k = ['R', 'C'];
        assert(k@ =~= seq!['R', 'C']);
        str_contains(prompt_line.as_str(), key_string(k.as_slice()).as_str())
    }

    /// Instantiate a new RcOptions with the provided parameters
    pub fn new(ok_str: &String, err_str: &String) -> (r: RcOptions)
        ensures
            r.ok@ == ok_str@,
            r.err@ == err_str@,
    {
        RcOptions { ok: ok_str.clone(), err: err_str.clone() }
    }
}

impl GitOptions {
    /// helper which says if git module should be enabled
    pub fn should_enable(prompt_line: &String) -> (r: bool)
        ensures
            r == (contains_seq(prompt_line@, git_branch_key()) || contains_seq(prompt_line@, git_commit_key())),
    {
        let b = ['G', 'I', 'T', '_', 'B', 'R', 'A', 'N', 'C', 'H'];
        assert(b@ =~= seq!['G', 'I', 'T', '_', 'B', 'R', 'A', 'N', 'C', 'H']);
        let c = ['G', 'I', 'T', '_', 'C', 'O', 'M', 'M', 'I', 'T'];
        assert(c@ =~= seq!['G', 'I', 'T', '_', 'C', 'O', 'M', 'M', 'I', 'T']);
        str_contains(prompt_line.as_str(), key_string(b.as_slice()).as_str()) || str_contains(
            prompt_line.as_str(),
            key_string(c.as_slice()).as_str(),
        )
    }

    /// Instantiate a new GitOptions with the provided parameters
    pub fn new(branch: &String, commit: usize) -> (g: GitOptions)
        ensures
            g.branch@ == branch@,
            g.commit_ref_len == commit,
    {
        GitOptions { branch: branch.clone(), commit_ref_len: commit }
    }
}

} // verus!

verus! {

fn key_is(v: &Vec<char>, name: [char; 2]) -> (r: bool)
    ensures
        r == (v@ == key_seq(name@)),
{
    is_key(v, name.as_slice())
}

impl ShellPrompt {
    /// Instantiate a new ShellPrompt with the provided parameters: each module
    /// is enabled when the configuration asks for it (the break) or when the
    /// prompt line holds one of its keys.
    pub fn new(prompt_opt: &PromptConfig) -> (p: ShellPrompt)
        ensures
            p.prompt_line@ == prompt_opt.prompt_line@,
            p.translate == prompt_opt.translate,
            match p.break_opt {
                Some(b) => prompt_opt.break_enabled && b.break_with@ == prompt_opt.break_str@,
                None => !prompt_opt.break_enabled,
            },
            match p.duration_opt {
                Some(d) => contains_seq(prompt_opt.prompt_line@, cmd_time_key()) && d.minimum == prompt_opt.min_duration as u64,
                None => !contains_seq(prompt_opt.prompt_line@, cmd_time_key()),
            },
            match p.rc_opt {
                Some(r) => contains_seq(prompt_opt.prompt_line@, rc_key()) && r.ok@ == prompt_opt.rc_ok@ && r.err@ == prompt_opt.rc_err@,
                None => !contains_seq(prompt_opt.prompt_line@, rc_key()),
            },
            match p.git_opt {
                Some(g) => (contains_seq(prompt_opt.prompt_line@, git_branch_key()) || contains_seq(prompt_opt.prompt_line@, git_commit_key()))
                    && g.branch@ == prompt_opt.git_branch@ && g.commit_ref_len == prompt_opt.git_commit_ref,
                None => !(contains_seq(prompt_opt.prompt_line@, git_branch_key()) || contains_seq(prompt_opt.prompt_line@, git_commit_key())),
            },
    {
        let break_opt = if prompt_opt.break_enabled {
            Some(BreakOptions::new(&prompt_opt.break_str))
        } else {
            None
        };
        let duration_opt = if DurationOptions::should_enable(&prompt_opt.prompt_line) {
            Some(DurationOptions::new(prompt_opt.min_duration))
        } else {
            None
        };
        let rc_opt = if RcOptions::should_enable(&prompt_opt.prompt_line) {
            Some(RcOptions::new(&prompt_opt.rc_ok, &prompt_opt.rc_err))
        } else {
            None
        };
        let git_opt = if GitOptions::should_enable(&prompt_opt.prompt_line) {
            Some(GitOptions::new(&prompt_opt.git_branch, prompt_opt.git_commit_ref))
        } else {
            None
        };
        ShellPrompt {
            prompt_line: prompt_opt.prompt_line.clone(),
            translate: prompt_opt.translate,
            break_opt,
            duration_opt,
            rc_opt,
            git_opt,
        }
    }

    /// Whether the prompt shows git information, so that the caller has to
    /// look the repository up.
    pub fn needs_git(&self) -> (r: bool)
        ensures
            r == (self.git_opt is Some),
    {
        self.git_opt.is_some()
    }

    /// Replace the provided key with the resolved value
    pub fn resolve_key(&self, env: &ShellProps, language: Language, key: &String) -> (s: String)
        ensures
            s@ == key_value(*self, *env, language, key@),
    {
        let v = string_chars(key.as_str());
        let is_cmd_time = {
            let k = ['C', 'M', 'D', '_', 'T', 'I', 'M', 'E'];
            assert(k@ =~= seq!['C', 'M', 'D', '_', 'T', 'I', 'M', 'E']);
            is_key(&v, k.as_slice())
        };
        let is_git_branch = {
            let k = ['G', 'I', 'T', '_', 'B', 'R', 'A', 'N', 'C', 'H'];
            assert(k@ =~= seq!['G', 'I', 'T', '_', 'B', 'R', 'A', 'N', 'C', 'H']);
            is_key(&v, k.as_slice())
        };
        let is_git_commit = {
            let k = ['G', 'I', 'T', '_', 'C', 'O', 'M', 'M', 'I', 'T'];
            assert(k@ =~= seq!['G', 'I', 'T', '_', 'C', 'O', 'M', 'M', 'I', 'T']);
            is_key(&v, k.as_slice())
        };
        let is_hostname = {
            let k = ['H', 'O', 'S', 'T', 'N', 'A', 'M', 'E'];
            assert(k@ =~= seq!['H', 'O', 'S', 'T', 'N', 'A', 'M', 'E']);
            is_key(&v, k.as_slice())
        };
        let is_color = {
            let k1 = ['K', 'B', 'L', 'K'];
            assert(k1@ =~= seq!['K', 'B', 'L', 'K']);
            let k2 = ['K', 'B', 'L', 'U'];
            assert(k2@ =~= seq!['K', 'B', 'L', 'U']);
            let k3 = ['K', 'C', 'Y', 'N'];
            assert(k3@ =~= seq!['K', 'C', 'Y', 'N']);
            let k4 = ['K', 'G', 'R', 'N'];
            assert(k4@ =~= seq!['K', 'G', 'R', 'N']);
            let k5 = ['K', 'G', 'R', 'Y'];
            assert(k5@ =~= seq!['K', 'G', 'R', 'Y']);
            let k6 = ['K', 'M', 'A', 'G'];
            assert(k6@ =~= seq!['K', 'M', 'A', 'G']);
            let k7 = ['K', 'R', 'E', 'D'];
            assert(k7@ =~= seq!['K', 'R', 'E', 'D']);
            let k8 = ['K', 'R', 'S', 'T'];
            assert(k8@ =~= seq!['K', 'R', 'S', 'T']);
            let k9 = ['K', 'W', 'H', 'T'];
            assert(k9@ =~= seq!['K', 'W', 'H', 'T']);
            let k10 = ['K', 'Y', 'E', 'L'];
            assert(k10@ =~= seq!['K', 'Y', 'E', 'L']);
            is_key(&v, k1.as_slice()) || is_key(&v, k2.as_slice()) || is_key(&v, k3.as_slice()) || is_key(
                &v,
                k4.as_slice(),
            ) || is_key(&v, k5.as_slice()) || is_key(&v, k6.as_slice()) || is_key(&v, k7.as_slice())
                || is_key(&v, k8.as_slice()) || is_key(&v, k9.as_slice()) || is_key(&v, k10.as_slice())
        };
        let is_lang = {
            let k = ['L', 'A', 'N', 'G'];
            assert(k@ =~= seq!['L', 'A', 'N', 'G']);
            is_key(&v, k.as_slice())
        };
        let is_rc = {
            let k = ['R', 'C'];
            assert(k@ =~= seq!['R', 'C']);
            is_key(&v, k.as_slice())
        };
        let is_user = {
            let k = ['U', 'S', 'E', 'R'];
            assert(k@ =~= seq!['U', 'S', 'E', 'R']);
            is_key(&v, k.as_slice())
        };
        let is_wrkdir = {
            let k = ['W', 'R', 'K', 'D', 'I', 'R'];
            assert(k@ =~= seq!['W', 'R', 'K', 'D', 'I', 'R']);
            is_key(&v, k.as_slice())
        };
        if is_cmd_time {
            match &self.duration_opt {
                Some(opt) => {
                    if env.elapsed_ms >= opt.minimum as u128 {
                        let mut s = String::from_str("took ");
                        s.append(env.elapsed_secs.as_str());
                        string_push(&mut s, 's');
                        s
                    } else {
                        String::new()
                    }
                },
                None => String::new(),
            }
        } else if is_git_branch {
            match (&self.git_opt, &env.git_branch) {
                (Some(opt), Some(branch)) => {
                    let mut s = opt.branch.clone();
                    s.append(branch.as_str());
                    s
                },
                _ => String::new(),
            }
        } else if is_git_commit {
            match (&self.git_opt, &env.git_commit) {
                (Some(_), Some(commit)) => commit.clone(),
                _ => String::new(),
            }
        } else if is_hostname {
            env.hostname.clone()
        } else if is_color {
            PromptColor::from_key(key.as_str()).to_string()
        } else if is_lang {
            language_to_str(language)
        } else if is_rc {
            match &self.rc_opt {
                Some(opt) => if env.exit_status == 0 {
                    opt.ok.clone()
                } else {
                    opt.err.clone()
                },
                None => String::new(),
            }
        } else if is_user {
            env.username.clone()
        } else if is_wrkdir {
            env.wrkdir.clone()
        } else {
            key.clone()
        }
    }

    /// `line` with each of `keys`, in turn, replaced wherever it occurs by
    /// its value.
    pub fn resolve_keys(&self, env: &ShellProps, language: Language, line: &String, keys: &Vec<String>) -> (s: String)
        ensures
            s@ == resolved_with(*self, *env, language, line@, keys@.map_values(|k: String| k@)),
    {
        let ghost all = keys@.map_values(|k: String| k@);
        let mut prompt_line = line.clone();
        let mut i: usize = 0;
        assert(all.skip(0) =~= all);
        while i < keys.len()
            invariant
                i <= keys.len(),
                all == keys@.map_values(|k: String| k@),
                resolved_with(*self, *env, language, prompt_line@, all.skip(i as int))
                    == resolved_with(*self, *env, language, line@, all),
            decreases keys.len() - i,
        {
            let mtch = &keys[i];
            let replace_with = self.resolve_key(env, language, mtch);
            let next = replace_all(prompt_line.as_str(), mtch.as_str(), replace_with.as_str());
            assert(all.skip(i as int).skip(1) =~= all.skip(i + 1));
            assert(all.skip(i as int)[0] == mtch@);
            prompt_line = next;
            i += 1;
        }
        prompt_line
    }

    /// Process prompt keys and resolve prompt line
    /// Returns the processed prompt line
    pub fn process_prompt(&self, env: &ShellProps, language: Language) -> (s: String)
        ensures
            s@ == prompt_text(*self, *env, language),
    {
        let mut pattern = String::new();
        string_push(&mut pattern, '\\');
        string_push(&mut pattern, '$');
        string_push(&mut pattern, '\\');
        string_push(&mut pattern, '{');
        string_push(&mut pattern, '(');
        string_push(&mut pattern, '.');
        string_push(&mut pattern, '*');
        string_push(&mut pattern, '?');
        string_push(&mut pattern, ')');
        string_push(&mut pattern, '\\');
        string_push(&mut pattern, '}');
        assert(pattern@ =~= prompt_key_pattern());
        let resolved = match find_all_matches(pattern.as_str(), self.prompt_line.as_str()) {
            Some(keys) => self.resolve_keys(env, language, &self.prompt_line, &keys),
            None => self.prompt_line.clone(),
        };
        let mut prompt_line = trim(resolved.as_str());
        match &self.break_opt {
            Some(brkopt) => {
                string_push(&mut prompt_line, '\n');
                prompt_line.append(trim(brkopt.break_with.as_str()).as_str());
            },
            None => {},
        }
        prompt_line
    }

    /// The prompt line, translated to the processor's script when the prompt
    /// is configured to be.
    pub fn get_line(&self, env: &ShellProps, processor: &IOProcessor) -> (s: String)
        ensures
            !self.translate ==> s@ == prompt_text(*self, *env, processor.language_of()),
            self.translate ==> s@ == cyrillic_output(
                processor.translator_language(),
                processor.escape_pattern(),
                prompt_text(*self, *env, processor.language_of()),
            ),
    {
        let line = self.process_prompt(env, processor.get_language());
        if self.translate {
            processor.text_to_cyrillic(&line)
        } else {
            line
        }
    }
}


/// With the return-code module on, `${RC}` shows the success text exactly
/// when the last command exited with status 0, and the error text for every
/// other status.
pub proof fn law_rc_key_follows_exit_status(prompt: ShellPrompt, env: ShellProps, language: Language)
    requires
        prompt.rc_opt is Some,
    ensures
        env.exit_status == 0 ==> key_value(prompt, env, language, rc_key()) == prompt.rc_opt.unwrap().ok@,
        env.exit_status != 0 ==> key_value(prompt, env, language, rc_key()) == prompt.rc_opt.unwrap().err@,
{
    assert(rc_key().len() == 5);
    assert(cmd_time_key().len() == 11);
    assert(git_branch_key().len() == 13);
    assert(git_commit_key().len() == 13);
    assert(hostname_key().len() == 11);
    assert(lang_key().len() == 7);
    assert(!is_prompt_color_key(rc_key()));
}

/// Two commands that both fail show the same `${RC}`, whatever their exit
/// statuses.
pub proof fn law_rc_key_same_for_all_failures(prompt: ShellPrompt, a: ShellProps, b: ShellProps, language: Language)
    requires
        prompt.rc_opt is Some,
        a.exit_status != 0,
        b.exit_status != 0,
    ensures
        key_value(prompt, a, language, rc_key()) == key_value(prompt, b, language, rc_key()),
{
    law_rc_key_follows_exit_status(prompt, a, language);
    law_rc_key_follows_exit_status(prompt, b, language);
}


/// `${USER}`, `${HOSTNAME}` and `${WRKDIR}` show the user, the host and the
/// working directory of the shell; with the duration module on, `${CMD_TIME}`
/// shows how long the last command took exactly when it took at least the
/// configured time, and nothing otherwise.
pub proof fn law_keys_show_shell_properties(prompt: ShellPrompt, env: ShellProps, language: Language)
    ensures
        key_value(prompt, env, language, user_key()) == env.username@,
        key_value(prompt, env, language, hostname_key()) == env.hostname@,
        key_value(prompt, env, language, wrkdir_key()) == env.wrkdir@,
        prompt.duration_opt matches Some(d) ==> (
            env.elapsed_ms >= d.minimum ==> key_value(prompt, env, language, cmd_time_key())
                == "took "@ + env.elapsed_secs@ + seq!['s']),
        prompt.duration_opt matches Some(d) ==> (
            env.elapsed_ms < d.minimum ==> key_value(prompt, env, language, cmd_time_key()) == Seq::<char>::empty()),
        prompt.duration_opt is None ==> key_value(prompt, env, language, cmd_time_key()) == Seq::<char>::empty(),
{
    assert(user_key().len() == 7);
    assert(hostname_key().len() == 11);
    assert(wrkdir_key().len() == 9);
    assert(cmd_time_key().len() == 11);
    assert(git_branch_key().len() == 13);
    assert(git_commit_key().len() == 13);
    assert(lang_key().len() == 7);
    assert(rc_key().len() == 5);
    assert(hostname_key() != cmd_time_key()) by {
        assert(hostname_key()[2] != cmd_time_key()[2]);
    }
    assert(user_key() != lang_key()) by {
        assert(user_key()[2] != lang_key()[2]);
    }
    assert(!is_prompt_color_key(user_key())) by {
        assert(user_key()[2] == 'U');
    }
    assert(!is_prompt_color_key(hostname_key()));
    assert(!is_prompt_color_key(wrkdir_key()));
}

} // verus!
