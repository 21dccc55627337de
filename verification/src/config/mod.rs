//! The configuration of the shell, read from a YAML file.
pub mod configparser;
pub mod yaml;

use vstd::prelude::*;
use configparser::{ConfigParser, child_of, bool_of, usize_of, string_of, syntax_error};
use yaml::{YamlNode, load_yaml_documents, yaml_documents};
use crate::utils::text::string_push;

verus! {

/// Kind of configuration error.
#[derive(Copy, Clone, PartialEq, Eq, Debug, Structural)]
pub enum ConfigErrorCode {
    NoSuchFileOrDirectory,
    CouldNotReadFile,
    YamlSyntaxError,
}

/// A configuration error: its kind and a message for the user.
#[derive(Clone, Debug)]
pub struct ConfigError {
    pub code: ConfigErrorCode,
    pub message: String,
}

/// A configuration error by its kind and the characters of its message.
pub type ConfigErrorView = (ConfigErrorCode, Seq<char>);

impl View for ConfigError {
    type V = ConfigErrorView;

    open spec fn view(&self) -> ConfigErrorView {
        (self.code, self.message@)
    }
}

impl ConfigErrorCode {
    /// The name of the error kind.
    pub fn to_string(&self) -> (s: String)
        ensures
            s@ == match *self {
                ConfigErrorCode::NoSuchFileOrDirectory => "NoSuchFileOrDirectory"@,
                ConfigErrorCode::CouldNotReadFile => "CouldNotReadFile"@,
                ConfigErrorCode::YamlSyntaxError => "YamlSyntaxError"@,
            },
    {
        match self {
            ConfigErrorCode::NoSuchFileOrDirectory => String::from_str("NoSuchFileOrDirectory"),
            ConfigErrorCode::CouldNotReadFile => String::from_str("CouldNotReadFile"),
            ConfigErrorCode::YamlSyntaxError => String::from_str("YamlSyntaxError"),
        }
    }
}

impl ConfigError {
    /// `<message> (<kind>)`
    pub fn to_string(&self) -> (s: String)
        ensures
            s@ == self.message@ + " ("@ + match self.code {
                ConfigErrorCode::NoSuchFileOrDirectory => "NoSuchFileOrDirectory"@,
                ConfigErrorCode::CouldNotReadFile => "CouldNotReadFile"@,
                ConfigErrorCode::YamlSyntaxError => "YamlSyntaxError"@,
            } + seq![')'],
    {
        let mut s = self.message.clone();
        s.append(" (");
        s.append(self.code.to_string().as_str());
        string_push(&mut s, ')');
        s
    }

    /// The error for a configuration file that could not be read: whether it
    /// does not exist, or could not be read for another reason.
    pub fn file_error(not_found: bool, config_file: &String) -> (e: ConfigError)
        ensures
            not_found ==> e@ == (ConfigErrorCode::NoSuchFileOrDirectory, "No such file or directory: "@ + seq![' '] + config_file@),
            !not_found ==> e@ == (ConfigErrorCode::CouldNotReadFile, "Could not read file "@ + seq![' '] + config_file@),
    {
        if not_found {
            let mut message = String::from_str("No such file or directory: ");
            string_push(&mut message, ' ');
            message.append(config_file.as_str());
            ConfigError { code: ConfigErrorCode::NoSuchFileOrDirectory, message }
        } else {
            let mut message = String::from_str("Could not read file ");
            string_push(&mut message, ' ');
            message.append(config_file.as_str());
            ConfigError { code: ConfigErrorCode::CouldNotReadFile, message }
        }
    }
}

} // verus!

verus! {

/// Output configuration: whether shell output is translated.
#[derive(Clone, Debug)]
pub struct OutputConfig {
    pub translate_output: bool,
}

/// Prompt configuration.
#[derive(Clone, Debug)]
pub struct PromptConfig {
    pub prompt_line: String,
    pub history_size: usize,
    pub translate: bool,
    pub break_enabled: bool,
    pub break_str: String,
    pub min_duration: usize,
    pub rc_ok: String,
    pub rc_err: String,
    pub git_branch: String,
    pub git_commit_ref: usize,
}

/// The prompt configuration with its texts by their characters.
pub struct PromptConfigView {
    pub prompt_line: Seq<char>,
    pub history_size: usize,
    pub translate: bool,
    pub break_enabled: bool,
    pub break_str: Seq<char>,
    pub min_duration: usize,
    pub rc_ok: Seq<char>,
    pub rc_err: Seq<char>,
    pub git_branch: Seq<char>,
    pub git_commit_ref: usize,
}

impl View for PromptConfig {
    type V = PromptConfigView;

    open spec fn view(&self) -> PromptConfigView {
        PromptConfigView {
            prompt_line: self.prompt_line@,
            history_size: self.history_size,
            translate: self.translate,
            break_enabled: self.break_enabled,
            break_str: self.break_str@,
            min_duration: self.min_duration,
            rc_ok: self.rc_ok@,
            rc_err: self.rc_err@,
            git_branch: self.git_branch@,
            git_commit_ref: self.git_commit_ref,
        }
    }
}

/// The shell to run, and its arguments.
#[derive(Clone, Debug)]
pub struct ShellConfig {
    pub executable: String,
    pub args: Vec<String>,
}

/// The configuration of pyc.
#[derive(Clone, Debug)]
pub struct Config {
    pub language: String,
    /// The aliases, in the order they were configured; a later alias of the
    /// same name overrides an earlier one.
    pub alias: Vec<(String, String)>,
    pub output_config: OutputConfig,
    pub prompt_config: PromptConfig,
    pub shell_config: ShellConfig,
}

/// The aliases of a configuration, by the characters of name and command.
pub open spec fn alias_view(alias: Seq<(String, String)>) -> Seq<(Seq<char>, Seq<char>)> {
    alias.map_values(|p: (String, String)| (p.0@, p.1@))
}

/// The command of the last alias called `name`, if any.
pub open spec fn alias_lookup(alias: Seq<(Seq<char>, Seq<char>)>, name: Seq<char>) -> Option<Seq<char>>
    decreases alias.len(),
{
    if alias.len() == 0 {
        None
    } else if alias.last().0 == name {
        Some(alias.last().1)
    } else {
        alias_lookup(alias.drop_last(), name)
    }
}

/// The default prompt configuration.
pub open spec fn default_prompt_view() -> PromptConfigView {
    PromptConfigView {
        prompt_line: "${USER}@${HOSTNAME}:${WRKDIR}$"@,
        history_size: 256,
        translate: false,
        break_enabled: false,
        break_str: seq!['❯'],
        min_duration: 2000,
        rc_ok: seq!['✔'],
        rc_err: seq!['✖'],
        git_branch: "on "@,
        git_commit_ref: 8,
    }
}

/// The prompt configuration that a `prompt` YAML mapping describes; the
/// first missing or mistyped key is the error.
pub open spec fn prompt_config_of(node: YamlNode) -> Result<PromptConfigView, ConfigErrorView> {
    match string_of(node, "prompt_line"@) {
        Err(e) => Err(e),
        Ok(prompt_line) => match usize_of(node, "history_size"@) {
            Err(e) => Err(e),
            Ok(history_size) => match bool_of(node, "translate"@) {
                Err(e) => Err(e),
                Ok(translate) => match child_of(node, "break"@) {
                    Err(e) => Err(e),
                    Ok(brk) => match bool_of(brk, "enabled"@) {
                        Err(e) => Err(e),
                        Ok(break_enabled) => match string_of(brk, "with"@) {
                            Err(e) => Err(e),
                            Ok(break_str) => match child_of(node, "duration"@) {
                                Err(e) => Err(e),
                                Ok(duration) => match usize_of(duration, "min_elapsed_time"@) {
                                    Err(e) => Err(e),
                                    Ok(min_duration) => match child_of(node, "rc"@) {
                                        Err(e) => Err(e),
                                        Ok(rc) => match string_of(rc, "ok"@) {
                                            Err(e) => Err(e),
                                            Ok(rc_ok) => match string_of(rc, "error"@) {
                                                Err(e) => Err(e),
                                                Ok(rc_err) => match child_of(node, "git"@) {
                                                    Err(e) => Err(e),
                                                    Ok(git) => match string_of(git, "branch"@) {
                                                        Err(e) => Err(e),
                                                        Ok(git_branch) => match usize_of(git, "commit_ref_len"@) {
                                                            Err(e) => Err(e),
                                                            Ok(git_commit_ref) => Ok(PromptConfigView {
                                                                prompt_line,
                                                                history_size,
                                                                translate,
                                                                break_enabled,
                                                                break_str,
                                                                min_duration,
                                                                rc_ok,
                                                                rc_err,
                                                                git_branch,
                                                                git_commit_ref,
                                                            }),
                                                        },
                                                    },
                                                },
                                            },
                                        },
                                    },
                                },
                            },
                        },
                    },
                },
            },
        },
    }
}

/// The text of a string scalar (empty for any other node).
pub open spec fn scalar_text(node: YamlNode) -> Seq<char> {
    match node {
        YamlNode::String(s) => s@,
        _ => Seq::empty(),
    }
}

/// The alias pairs of one element of the `alias` list.
pub open spec fn alias_entry_pairs(node: YamlNode) -> Seq<(Seq<char>, Seq<char>)> {
    match node {
        YamlNode::Hash(h) => h@.map_values(|e: (YamlNode, YamlNode)| (scalar_text(e.0), scalar_text(e.1))),
        _ => Seq::empty(),
    }
}

/// The alias pairs of an `alias` list, element after element.
pub open spec fn alias_pairs(elems: Seq<YamlNode>) -> Seq<(Seq<char>, Seq<char>)>
    decreases elems.len(),
{
    if elems.len() == 0 {
        Seq::empty()
    } else {
        alias_pairs(elems.drop_last()) + alias_entry_pairs(elems.last())
    }
}

/// Whether an element of the `alias` list is a mapping from strings to strings.
pub open spec fn alias_entry_well_formed(node: YamlNode) -> bool {
    match node {
        YamlNode::Hash(h) => forall|j: int| 0 <= j < h@.len() ==>
            (#[trigger] h@[j]).0 is String && h@[j].1 is String,
        _ => false,
    }
}

/// Whether the `alias` key of a document, where it is a list, holds only
/// mappings from strings to strings (other lists cannot be read).
pub open spec fn aliases_readable(doc: YamlNode) -> bool {
    match child_of(doc, "alias"@) {
        Ok(YamlNode::Array(elems)) => alias_list_readable(elems@),
        _ => true,
    }
}

/// Whether every element of an `alias` list is a mapping from strings to strings.
pub open spec fn alias_list_readable(elems: Seq<YamlNode>) -> bool {
    forall|i: int| 0 <= i < elems.len() ==> alias_entry_well_formed(#[trigger] elems[i])
}

/// The configuration as plain values.
pub struct ConfigView {
    pub language: Seq<char>,
    pub alias: Seq<(Seq<char>, Seq<char>)>,
    pub translate_output: bool,
    pub prompt: PromptConfigView,
}

/// The language of a document: the `language` string, or `ru` where the key
/// is missing.
pub open spec fn language_of(doc: YamlNode) -> Result<Seq<char>, ConfigErrorView> {
    match child_of(doc, "language"@) {
        Err(_) => Ok(seq!['r', 'u']),
        Ok(YamlNode::String(s)) => Ok(s@),
        Ok(_) => Err(syntax_error("'language' is not a string"@)),
    }
}

/// The aliases of a document: none where the key is missing.
pub open spec fn aliases_of(doc: YamlNode) -> Result<Seq<(Seq<char>, Seq<char>)>, ConfigErrorView> {
    match child_of(doc, "alias"@) {
        Err(_) => Ok(Seq::empty()),
        Ok(YamlNode::Array(elems)) => Ok(alias_pairs(elems@)),
        Ok(_) => Err(syntax_error("'alias' key is not an array"@)),
    }
}

/// Whether output is translated: the `output.translate` flag, `true` where
/// `output` is missing.
pub open spec fn translate_output_of(doc: YamlNode) -> Result<bool, ConfigErrorView> {
    match child_of(doc, "output"@) {
        Err(_) => Ok(true),
        Ok(node) => bool_of(node, "translate"@),
    }
}

/// The prompt configuration of a document, the default where `prompt` is missing.
pub open spec fn prompt_of(doc: YamlNode) -> Result<PromptConfigView, ConfigErrorView> {
    match child_of(doc, "prompt"@) {
        Err(_) => Ok(default_prompt_view()),
        Ok(node) => prompt_config_of(node),
    }
}

/// The configuration that the first of the YAML documents describes; the
/// sections are read in the order language, alias, output, prompt, and the
/// first error is the result.
pub open spec fn config_of_documents(docs: Seq<YamlNode>) -> Result<ConfigView, ConfigErrorView> {
    if docs.len() == 0 {
        Err(syntax_error("File does not contain any YAML document"@))
    } else {
        let doc = docs[0];
        match language_of(doc) {
            Err(e) => Err(e),
            Ok(language) => match aliases_of(doc) {
                Err(e) => Err(e),
                Ok(alias) => match translate_output_of(doc) {
                    Err(e) => Err(e),
                    Ok(translate_output) => match prompt_of(doc) {
                        Err(e) => Err(e),
                        Ok(prompt) => Ok(ConfigView { language, alias, translate_output, prompt }),
                    },
                },
            },
        }
    }
}

/// The configuration that a YAML text describes (see `config_of_documents`);
/// a text that is not YAML is an error.
pub open spec fn config_of_text(text: Seq<char>) -> Result<ConfigView, ConfigErrorView> {
    match yaml_documents(text) {
        None => Err(syntax_error("Configuration is not a valid YAML"@)),
        Some(docs) => config_of_documents(docs),
    }
}

/// Whether the configuration text can be read without failing on its aliases.
pub open spec fn text_aliases_readable(text: Seq<char>) -> bool {
    match yaml_documents(text) {
        Some(docs) => docs.len() > 0 ==> aliases_readable(docs[0]),
        None => true,
    }
}

impl Config {
    /// The configuration as plain values.
    pub open spec fn model(&self) -> ConfigView {
        ConfigView {
            language: self.language@,
            alias: alias_view(self.alias@),
            translate_output: self.output_config.translate_output,
            prompt: self.prompt_config@,
        }
    }
}

/// The result of reading a configuration, by plain values.
pub open spec fn config_result_model(r: Result<Config, ConfigError>) -> Result<ConfigView, ConfigErrorView> {
    match r {
        Ok(c) => Ok(c.model()),
        Err(e) => Err(e@),
    }
}

} // verus!

verus! {

/// The result of reading a prompt configuration, by plain values.
pub open spec fn prompt_result_model(r: Result<PromptConfig, ConfigError>) -> Result<PromptConfigView, ConfigErrorView> {
    match r {
        Ok(c) => Ok(c@),
        Err(e) => Err(e@),
    }
}

/// The result of reading an output configuration, by plain values.
pub open spec fn output_result_model(r: Result<OutputConfig, ConfigError>) -> Result<bool, ConfigErrorView> {
    match r {
        Ok(c) => Ok(c.translate_output),
        Err(e) => Err(e@),
    }
}

fn key(name: &str) -> (k: String)
    ensures
        k@ == name@,
{
    String::from_str(name)
}

impl OutputConfig {
    /// Output is translated by default.
    pub fn default() -> (c: OutputConfig)
        ensures
            c.translate_output,
    {
        OutputConfig { translate_output: true }
    }

    /// Reads the `translate` flag of an `output` mapping.
    pub fn parse_config(output_yaml: &YamlNode) -> (r: Result<OutputConfig, ConfigError>)
        ensures
            output_result_model(r) == bool_of(*output_yaml, "translate"@),
    {
        match ConfigParser::get_bool(output_yaml, &key("translate")) {
            Ok(t) => Ok(OutputConfig { translate_output: t }),
            Err(err) => Err(err),
        }
    }
}

impl PromptConfig {
    /// Instantiate a default PromptConfig struct
    pub fn default() -> (c: PromptConfig)
        ensures
            c@ == default_prompt_view(),
    {
        let mut break_str = String::new();
        string_push(&mut break_str, '❯');
        let mut rc_ok = String::new();
        string_push(&mut rc_ok, '✔');
        let mut rc_err = String::new();
        string_push(&mut rc_err, '✖');
        let c = PromptConfig {
            prompt_line: String::from_str("${USER}@${HOSTNAME}:${WRKDIR}$"),
            history_size: 256,
            translate: false,
            break_enabled: false,
            break_str,
            min_duration: 2000,
            rc_ok,
            rc_err,
            git_branch: String::from_str("on "),
            git_commit_ref: 8,
        };
        assert(c@ =~= default_prompt_view());
        c
    }

    /// Parse a PromptConfig from YAML configuration file
    pub fn parse_config(prompt_config_yaml: &YamlNode) -> (r: Result<PromptConfig, ConfigError>)
        ensures
            prompt_result_model(r) == prompt_config_of(*prompt_config_yaml),
    {
        let node = prompt_config_yaml;
        let prompt_line = match ConfigParser::get_string(node, &key("prompt_line")) {
            Ok(ret) => ret,
            Err(err) => return Err(err),
        };
        let history_size = match ConfigParser::get_usize(node, &key("history_size")) {
            Ok(ret) => ret,
            Err(err) => return Err(err),
        };
        let translate = match ConfigParser::get_bool(node, &key("translate")) {
            Ok(ret) => ret,
            Err(err) => return Err(err),
        };
        let brk = match ConfigParser::get_child(node, &key("break")) {
            Ok(ret) => ret,
            Err(err) => return Err(err),
        };
        let break_enabled = match ConfigParser::get_bool(brk, &key("enabled")) {
            Ok(ret) => ret,
            Err(err) => return Err(err),
        };
        let break_str = match ConfigParser::get_string(brk, &key("with")) {
            Ok(ret) => ret,
            Err(err) => return Err(err),
        };
        let duration = match ConfigParser::get_child(node, &key("duration")) {
            Ok(ret) => ret,
            Err(err) => return Err(err),
        };
        let min_duration = match ConfigParser::get_usize(duration, &key("min_elapsed_time")) {
            Ok(ret) => ret,
            Err(err) => return Err(err),
        };
        let rc = match ConfigParser::get_child(node, &key("rc")) {
            Ok(ret) => ret,
            Err(err) => return Err(err),
        };
        let rc_ok = match ConfigParser::get_string(rc, &key("ok")) {
            Ok(ret) => ret,
            Err(err) => return Err(err),
        };
        let rc_err = match ConfigParser::get_string(rc, &key("error")) {
            Ok(ret) => ret,
            Err(err) => return Err(err),
        };
        let git = match ConfigParser::get_child(node, &key("git")) {
            Ok(ret) => ret,
            Err(err) => return Err(err),
        };
        let git_branch = match ConfigParser::get_string(git, &key("branch")) {
            Ok(ret) => ret,
            Err(err) => return Err(err),
        };
        let git_commit_ref = match ConfigParser::get_usize(git, &key("commit_ref_len")) {
            Ok(ret) => ret,
            Err(err) => return Err(err),
        };
        Ok(PromptConfig {
            prompt_line,
            history_size,
            translate,
            break_enabled,
            break_str,
            min_duration,
            rc_ok,
            rc_err,
            git_branch,
            git_commit_ref,
        })
    }
}

impl ShellConfig {
    /// The shell run by default: `bash`, with no arguments.
    pub fn default() -> (c: ShellConfig)
        ensures
            c.executable@ == "bash"@,
            c.args@.len() == 0,
    {
        ShellConfig { executable: String::from_str("bash"), args: Vec::new() }
    }
}

fn syntax_error_of(message: &str) -> (e: ConfigError)
    ensures
        e@ == syntax_error(message@),
{
    ConfigError { code: ConfigErrorCode::YamlSyntaxError, message: String::from_str(message) }
}

impl Config {
    /// Instantiates a default configuration struct
    pub fn default() -> (c: Config)
        ensures
            c.model() == (ConfigView {
                language: seq!['r', 'u'],
                alias: Seq::empty(),
                translate_output: true,
                prompt: default_prompt_view(),
            }),
            c.shell_config.executable@ == "bash"@,
            c.shell_config.args@.len() == 0,
    {
        let mut language = String::new();
        string_push(&mut language, 'r');
        string_push(&mut language, 'u');
        assert(language@ =~= seq!['r', 'u']);
        let c = Config {
            language,
            alias: Vec::new(),
            output_config: OutputConfig::default(),
            prompt_config: PromptConfig::default(),
            shell_config: ShellConfig::default(),
        };
        assert(alias_view(c.alias@) =~= Seq::empty());
        c
    }

    /// Get alias from configuration: the command of the last alias with that name
    pub fn get_alias(&self, alias: &String) -> (r: Option<String>)
        ensures
            match r {
                Some(cmd) => alias_lookup(alias_view(self.alias@), alias@) == Some(cmd@),
                None => alias_lookup(alias_view(self.alias@), alias@) is None,
            },
    {
        let ghost all = alias_view(self.alias@);
        let mut i = self.alias.len();
        assert(all.take(i as int) =~= all);
        while i > 0
            invariant
                i <= self.alias.len(),
                all == alias_view(self.alias@),
                alias_lookup(all.take(i as int), alias@) == alias_lookup(all, alias@),
            decreases i,
        {
            assert(all.take(i as int).drop_last() =~= all.take(i - 1));
            if self.alias[i - 1].0 == *alias {
                return Some(self.alias[i - 1].1.clone());
            }
            i -= 1;
        }
        None
    }

    /// Parse configuration as string; `None` where the `alias` list holds
    /// something other than mappings from strings to strings. The file does
    /// not choose the shell: it is the default one.
    pub fn parse_config_str(config: &String) -> (r: Option<Result<Config, ConfigError>>)
        ensures
            match r {
                None => !text_aliases_readable(config@),
                Some(res) => text_aliases_readable(config@) && config_result_model(res) == config_of_text(config@),
            },
            r matches Some(Ok(c)) ==> c.shell_config.executable@ == "bash"@ && c.shell_config.args@.len() == 0,
    {
        match load_yaml_documents(config.as_str()) {
            None => Some(Err(syntax_error_of("Configuration is not a valid YAML"))),
            Some(docs) => {
                if docs.len() > 0 && !Config::aliases_can_be_read(&docs[0]) {
                    return None;
                }
                Some(Config::from_yaml_documents(&docs))
            },
        }
    }

    /// Whether the aliases of a document can be read.
    fn aliases_can_be_read(doc: &YamlNode) -> (r: bool)
        ensures
            r == aliases_readable(*doc),
    {
        match ConfigParser::get_child(doc, &key("alias")) {
            Ok(YamlNode::Array(elems)) => {
                let mut i: usize = 0;
                while i < elems.len()
                    invariant
                        i <= elems.len(),
                        child_of(*doc, "alias"@) == Ok::<YamlNode, ConfigErrorView>(YamlNode::Array(*elems)),
                        forall|k: int| 0 <= k < i ==> alias_entry_well_formed(#[trigger] elems@[k]),
                    decreases elems.len() - i,
                {
                    match &elems[i] {
                        YamlNode::Hash(h) => {
                            let mut j: usize = 0;
                            while j < h.len()
                                invariant
                                    j <= h.len(),
                                    i < elems.len(),
                                    elems@[i as int] == YamlNode::Hash(*h),
                                    child_of(*doc, "alias"@) == Ok::<YamlNode, ConfigErrorView>(YamlNode::Array(*elems)),
                                    forall|m: int| 0 <= m < j ==> (#[trigger] h@[m]).0 is String && h@[m].1 is String,
                                decreases h.len() - j,
                            {
                                let is_str_key = match &h[j].0 {
                                    YamlNode::String(_) => true,
                                    _ => false,
                                };
                                let is_str_value = match &h[j].1 {
                                    YamlNode::String(_) => true,
                                    _ => false,
                                };
                                if !is_str_key || !is_str_value {
                                    assert(!alias_entry_well_formed(elems@[i as int]));
                                    assert(!alias_list_readable(elems@));
                                    return false;
                                }
                                j += 1;
                            }
                        },
                        _ => {
                            assert(!alias_entry_well_formed(elems@[i as int]));
                            assert(!alias_list_readable(elems@));
                            return false;
                        },
                    }
                    i += 1;
                }
                true
            },
            _ => true,
        }
    }

    /// The configuration that the first of the YAML documents describes,
    /// with the default shell.
    pub fn from_yaml_documents(docs: &Vec<YamlNode>) -> (r: Result<Config, ConfigError>)
        requires
            docs@.len() > 0 ==> aliases_readable(docs@[0]),
        ensures
            config_result_model(r) == config_of_documents(docs@),
            r matches Ok(c) ==> c.shell_config.executable@ == "bash"@ && c.shell_config.args@.len() == 0,
    {
        if docs.len() == 0 {
            return Err(syntax_error_of("File does not contain any YAML document"));
        }
        let yaml_doc = &docs[0];
        let language = match ConfigParser::get_child(yaml_doc, &key("language")) {
            Ok(node) => match Config::parse_language(node) {
                Ok(l) => l,
                Err(err) => return Err(err),
            },
            Err(_) => {
                let mut l = String::new();
                string_push(&mut l, 'r');
                string_push(&mut l, 'u');
                assert(l@ =~= seq!['r', 'u']);
                l
            },
        };
        let alias = match ConfigParser::get_child(yaml_doc, &key("alias")) {
            Ok(node) => match Config::parse_alias(node) {
                Ok(cfg) => cfg,
                Err(err) => return Err(err),
            },
            Err(_) => Vec::new(),
        };
        let output_config = match ConfigParser::get_child(yaml_doc, &key("output")) {
            Ok(node) => match OutputConfig::parse_config(node) {
                Ok(config) => config,
                Err(err) => return Err(err),
            },
            Err(_) => OutputConfig::default(),
        };
        let prompt_config = match ConfigParser::get_child(yaml_doc, &key("prompt")) {
            Ok(node) => match PromptConfig::parse_config(node) {
                Ok(config) => config,
                Err(err) => return Err(err),
            },
            Err(_) => PromptConfig::default(),
        };
        let c = Config { language, alias, output_config, prompt_config, shell_config: ShellConfig::default() };
        proof {
            if child_of(docs@[0], "alias"@) is Err {
                assert(alias_view(c.alias@) =~= Seq::empty());
            }
        }
        Ok(c)
    }

    /// Parse alias in Pyc configuration file
    fn parse_alias(alias_yaml: &YamlNode) -> (r: Result<Vec<(String, String)>, ConfigError>)
        requires
            alias_yaml matches YamlNode::Array(elems) ==> forall|i: int| 0 <= i < elems@.len() ==> alias_entry_well_formed(#[trigger] elems@[i]),
        ensures
            match r {
                Ok(v) => alias_yaml matches YamlNode::Array(elems) && alias_view(v@) == alias_pairs(elems@),
                Err(e) => !(alias_yaml is Array) && e@ == syntax_error("'alias' key is not an array"@),
            },
    {
        let elems = match alias_yaml {
            YamlNode::Array(elems) => elems,
            _ => return Err(syntax_error_of("'alias' key is not an array")),
        };
        let mut alias_table: Vec<(String, String)> = Vec::new();
        let mut i: usize = 0;
        assert(elems@.take(0) =~= Seq::<YamlNode>::empty());
        assert(alias_view(alias_table@) =~= Seq::empty());
        while i < elems.len()
            invariant
                i <= elems.len(),
                forall|k: int| 0 <= k < elems@.len() ==> alias_entry_well_formed(#[trigger] elems@[k]),
                alias_view(alias_table@) == alias_pairs(elems@.take(i as int)),
            decreases elems.len() - i,
        {
            let pair = &elems[i];
            assert(alias_entry_well_formed(elems@[i as int]));
            let ghost before = alias_view(alias_table@);
            match pair {
                YamlNode::Hash(h) => {
                    let mut j: usize = 0;
                    assert(alias_view(alias_table@) =~= before + alias_entry_pairs(*pair).take(0));
                    while j < h.len()
                        invariant
                            j <= h.len(),
                            alias_entry_well_formed(*pair),
                            *pair == YamlNode::Hash(*h),
                            alias_view(alias_table@) == before + alias_entry_pairs(*pair).take(j as int),
                        decreases h.len() - j,
                    {
                        assert((h@[j as int]).0 is String && h@[j as int].1 is String);
                        let k = match &h[j].0 {
                            YamlNode::String(s) => s.clone(),
                            _ => String::new(),
                        };
                        let v = match &h[j].1 {
                            YamlNode::String(s) => s.clone(),
                            _ => String::new(),
                        };
                        let ghost old_table = alias_view(alias_table@);
                        alias_table.push((k, v));
                        assert(alias_view(alias_table@) =~= old_table.push((k@, v@)));
                        assert(alias_entry_pairs(*pair)[j as int] == (k@, v@));
                        assert(alias_entry_pairs(*pair).take(j + 1) =~= alias_entry_pairs(*pair).take(j as int).push(alias_entry_pairs(*pair)[j as int]));
                        assert(alias_view(alias_table@) =~= before + alias_entry_pairs(*pair).take(j + 1));
                        j += 1;
                    }
                    assert(alias_entry_pairs(*pair).take(h.len() as int) =~= alias_entry_pairs(*pair));
                },
                _ => {},
            }
            assert(elems@.take(i + 1).drop_last() =~= elems@.take(i as int));
            i += 1;
        }
        assert(elems@.take(elems.len() as int) =~= elems@);
        Ok(alias_table)
    }

    /// Parse language YAML object
    fn parse_language(language_yaml: &YamlNode) -> (r: Result<String, ConfigError>)
        ensures
            match r {
                Ok(s) => language_yaml matches YamlNode::String(l) && s@ == l@,
                Err(e) => !(language_yaml is String) && e@ == syntax_error("'language' is not a string"@),
            },
    {
        match language_yaml {
            YamlNode::String(s) => Ok(s.clone()),
            _ => Err(syntax_error_of("'language' is not a string")),
        }
    }
}


/// A prompt section is read exactly when each of its keys is there with a
/// value of its type, and then each setting is the value of its key: the
/// line, the history size, the translate flag, the line break flag and text,
/// the shortest reported duration, the two return-code texts, and the git
/// branch text and commit length.
pub proof fn law_prompt_settings_are_the_document_values(node: YamlNode)
    ensures
        prompt_config_of(node) is Ok <==> (
            string_of(node, "prompt_line"@) is Ok
            && usize_of(node, "history_size"@) is Ok
            && bool_of(node, "translate"@) is Ok
            && child_of(node, "break"@) is Ok
            && bool_of(child_of(node, "break"@)->Ok_0, "enabled"@) is Ok
            && string_of(child_of(node, "break"@)->Ok_0, "with"@) is Ok
            && child_of(node, "duration"@) is Ok
            && usize_of(child_of(node, "duration"@)->Ok_0, "min_elapsed_time"@) is Ok
            && child_of(node, "rc"@) is Ok
            && string_of(child_of(node, "rc"@)->Ok_0, "ok"@) is Ok
            && string_of(child_of(node, "rc"@)->Ok_0, "error"@) is Ok
            && child_of(node, "git"@) is Ok
            && string_of(child_of(node, "git"@)->Ok_0, "branch"@) is Ok
            && usize_of(child_of(node, "git"@)->Ok_0, "commit_ref_len"@) is Ok
        ),
        prompt_config_of(node) matches Ok(p) ==> ({
            let brk = child_of(node, "break"@)->Ok_0;
            let duration = child_of(node, "duration"@)->Ok_0;
            let rc = child_of(node, "rc"@)->Ok_0;
            let git = child_of(node, "git"@)->Ok_0;
            &&& string_of(node, "prompt_line"@) == Ok::<Seq<char>, ConfigErrorView>(p.prompt_line)
            &&& usize_of(node, "history_size"@) == Ok::<usize, ConfigErrorView>(p.history_size)
            &&& bool_of(node, "translate"@) == Ok::<bool, ConfigErrorView>(p.translate)
            &&& bool_of(brk, "enabled"@) == Ok::<bool, ConfigErrorView>(p.break_enabled)
            &&& string_of(brk, "with"@) == Ok::<Seq<char>, ConfigErrorView>(p.break_str)
            &&& usize_of(duration, "min_elapsed_time"@) == Ok::<usize, ConfigErrorView>(p.min_duration)
            &&& string_of(rc, "ok"@) == Ok::<Seq<char>, ConfigErrorView>(p.rc_ok)
            &&& string_of(rc, "error"@) == Ok::<Seq<char>, ConfigErrorView>(p.rc_err)
            &&& string_of(git, "branch"@) == Ok::<Seq<char>, ConfigErrorView>(p.git_branch)
            &&& usize_of(git, "commit_ref_len"@) == Ok::<usize, ConfigErrorView>(p.git_commit_ref)
        }),
{
}

/// The prompt of a configuration that is read is its document's `prompt`
/// section where there is one (so the line break is on exactly when that
/// section's `break.enabled` is true), and the default prompt where there is
/// none.
pub proof fn law_config_prompt_is_the_prompt_section(docs: Seq<YamlNode>)
    ensures
        config_of_documents(docs) matches Ok(c) ==> (match child_of(docs[0], "prompt"@) {
            Ok(node) => Ok::<PromptConfigView, ConfigErrorView>(c.prompt) == prompt_config_of(node)
                && Ok::<bool, ConfigErrorView>(c.prompt.break_enabled)
                    == bool_of(child_of(node, "break"@)->Ok_0, "enabled"@),
            Err(_) => c.prompt == default_prompt_view(),
        }),
{
    if config_of_documents(docs) is Ok {
        if child_of(docs[0], "prompt"@) is Ok {
            law_prompt_settings_are_the_document_values(child_of(docs[0], "prompt"@)->Ok_0);
        }
    }
}


/// The language and output settings of a configuration that is read are its
/// document's values: the `language` string, `ru` where it is missing; the
/// `output.translate` flag, on where `output` is missing.
pub proof fn law_config_language_and_output_are_the_document_values(docs: Seq<YamlNode>)
    ensures
        config_of_documents(docs) matches Ok(c) ==> (match child_of(docs[0], "language"@) {
            Ok(node) => node is String && c.language == node->String_0@,
            Err(_) => c.language == seq!['r', 'u'],
        }),
        config_of_documents(docs) matches Ok(c) ==> (match child_of(docs[0], "output"@) {
            Ok(node) => bool_of(node, "translate"@) == Ok::<bool, ConfigErrorView>(c.translate_output),
            Err(_) => c.translate_output,
        }),
{
}

} // verus!
