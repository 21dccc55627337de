use pyc_shell::config::configparser::ConfigParser;
use pyc_shell::config::yaml::YamlNode;
use pyc_shell::config::{Config, ConfigError, ConfigErrorCode, PromptConfig};

fn parse(text: &str) -> Result<Config, ConfigError> {
    Config::parse_config_str(&String::from(text)).unwrap()
}

#[test]
fn test_config_default() {
    let config: Config = Config::default();
    assert!(config.get_alias(&String::from("чд")).is_none());
    assert_eq!(config.output_config.translate_output, true);
    assert_eq!(config.language, String::from("ru"));
    let prompt_config: PromptConfig = config.prompt_config;
    assert_eq!(prompt_config.prompt_line, String::from("${USER}@${HOSTNAME}:${WRKDIR}$"));
    assert_eq!(prompt_config.break_enabled, false);
    assert_eq!(prompt_config.break_str, String::from("❯"));
    assert_eq!(prompt_config.git_branch, String::from("on "));
    assert_eq!(prompt_config.git_commit_ref, 8);
    assert_eq!(prompt_config.history_size, 256);
    assert_eq!(prompt_config.min_duration, 2000);
    assert_eq!(prompt_config.rc_err, String::from("✖"));
    assert_eq!(prompt_config.rc_ok, String::from("✔"));
    assert_eq!(prompt_config.translate, false);
}

#[test]
fn test_config_en_alias() {
    let config: String = String::from("alias:\n  - чд: \"cd\"\n  - пвд: \"pwd\"\n  - уич: \"which\"");
    match Config::parse_config_str(&config).unwrap() {
        Ok(config) => {
            assert_eq!(config.get_alias(&String::from("чд")).unwrap(), String::from("cd"));
            assert_eq!(config.get_alias(&String::from("пвд")).unwrap(), String::from("pwd"));
            assert_eq!(config.get_alias(&String::from("уич")).unwrap(), String::from("which"));
            assert!(config.get_alias(&String::from("thiskeydoesnotexist")).is_none());
        }
        Err(error) => panic!(
            "Parse_config should have returned OK, but returned {} ({:?})",
            error.message, error.code
        ),
    };
}

#[test]
fn test_config_no_alias() {
    let config: Config = parse("language: ru\n").ok().unwrap();
    assert!(config.get_alias(&String::from("чд")).is_none());
}

#[test]
fn test_alias_not_array() {
    assert_eq!(parse("alias: 5\n").err().unwrap().code, ConfigErrorCode::YamlSyntaxError);
}

#[test]
fn test_config_output_config() {
    let config: Config = parse("alias:\n  - чд: \"cd\"\n  - пвд: \"pwd\"\n  - уич: \"which\"").ok().unwrap();
    assert!(config.output_config.translate_output);
    let config: Config = parse("output:\n  translate: false\n").ok().unwrap();
    assert!(!config.output_config.translate_output);
}

#[test]
fn test_config_bad_output_config() {
    assert_eq!(parse("output: 5\n").err().unwrap().code, ConfigErrorCode::YamlSyntaxError);
    assert_eq!(parse("output:\n  translate: foobar\n").err().unwrap().code, ConfigErrorCode::YamlSyntaxError);
    assert_eq!(parse("output:\n  trsnlate: true\n").err().unwrap().code, ConfigErrorCode::YamlSyntaxError);
}

#[test]
fn test_config_language() {
    let config: Config = parse("language: bg\n").ok().unwrap();
    assert_eq!(config.language, String::from("bg"));
}

#[test]
fn test_config_language_missing() {
    let config: Config = parse("output:\n  translate: false\n").ok().unwrap();
    assert_eq!(config.language, String::from("ru"));
}

#[test]
#[should_panic]
fn test_config_language_badvalue() {
    assert!(parse("language:\n  name: ru\n").is_ok());
}

#[test]
fn test_config_prompt_default() {
    let config: Config = parse("language:\n  ru\n").ok().unwrap();
    let prompt_config: PromptConfig = config.prompt_config;
    assert_eq!(prompt_config.prompt_line, String::from("${USER}@${HOSTNAME}:${WRKDIR}$"));
    assert_eq!(prompt_config.break_enabled, false);
    assert_eq!(prompt_config.break_str, String::from("❯"));
    assert_eq!(prompt_config.git_branch, String::from("on "));
    assert_eq!(prompt_config.git_commit_ref, 8);
    assert_eq!(prompt_config.history_size, 256);
    assert_eq!(prompt_config.min_duration, 2000);
    assert_eq!(prompt_config.rc_err, String::from("✖"));
    assert_eq!(prompt_config.rc_ok, String::from("✔"));
    assert_eq!(prompt_config.translate, false);
}

const FULL_PROMPT: &str = "prompt:\n  prompt_line: \"${USER} on ${HOSTNAME} in ${WRKDIR} ${GIT_BRANCH} (${GIT_COMMIT}) ${CMD_TIME}\"\n  history_size: 1024\n  translate: true\n  break:\n    enabled: false\n    with: \">\"\n  duration:\n    min_elapsed_time: 5000\n  rc:\n    ok: \"^_^\"\n    error: \"x_x\"\n  git:\n    branch: \"on \"\n    commit_ref_len: 4\n";

#[test]
fn test_config_prompt() {
    let config: Config = parse(FULL_PROMPT).ok().unwrap();
    let prompt_config: PromptConfig = config.prompt_config;
    assert_eq!(prompt_config.prompt_line, String::from("${USER} on ${HOSTNAME} in ${WRKDIR} ${GIT_BRANCH} (${GIT_COMMIT}) ${CMD_TIME}"));
    assert_eq!(prompt_config.break_enabled, false);
    assert_eq!(prompt_config.break_str, String::from(">"));
    assert_eq!(prompt_config.git_branch, String::from("on "));
    assert_eq!(prompt_config.git_commit_ref, 4);
    assert_eq!(prompt_config.history_size, 1024);
    assert_eq!(prompt_config.min_duration, 5000);
    assert_eq!(prompt_config.rc_err, String::from("x_x"));
    assert_eq!(prompt_config.rc_ok, String::from("^_^"));
    assert_eq!(prompt_config.translate, true);
}

#[test]
fn test_config_prompt_bad() {
    // each key of the prompt configuration, misspelled in turn
    let misspelled: Vec<(&str, &str)> = vec![
        ("prompt_line:", "prompt_le:"),
        ("history_size:", "histosize:"),
        ("translate:", "trslate:"),
        ("break:", "bak:"),
        ("enabled:", "eled:"),
        ("with:", "th:"),
        ("duration:", "dution:"),
        ("min_elapsed_time:", "min_elapsime:"),
        ("rc:", "r:"),
        ("ok:", "o:"),
        ("error:", "err:"),
        ("git:", "gi:"),
        ("branch:", "brch:"),
        ("commit_ref_len:", "com_ref_len:"),
    ];
    for (good, bad) in misspelled {
        let config: String = FULL_PROMPT.replacen(good, bad, 1);
        assert!(parse(config.as_str()).is_err());
    }
}

#[test]
fn test_bad_syntax() {
    assert_eq!(parse("foobar: 5:\n").err().unwrap().code, ConfigErrorCode::YamlSyntaxError);
}

#[test]
fn test_empty_yaml() {
    assert_eq!(parse("\n").err().unwrap().code, ConfigErrorCode::YamlSyntaxError);
}

#[test]
fn test_error_display() {
    println!(
        "{};{};{}",
        ConfigErrorCode::CouldNotReadFile.to_string(),
        ConfigErrorCode::NoSuchFileOrDirectory.to_string(),
        ConfigErrorCode::YamlSyntaxError.to_string()
    );
    println!(
        "{}",
        ConfigError {
            code: ConfigErrorCode::NoSuchFileOrDirectory,
            message: String::from("No such file or directory ~/.config/pyc/pyc.yml")
        }
        .to_string()
    );
}

#[test]
fn error_messages() {
    assert_eq!(ConfigErrorCode::CouldNotReadFile.to_string(), String::from("CouldNotReadFile"));
    let err = ConfigError { code: ConfigErrorCode::YamlSyntaxError, message: String::from("bad") };
    assert_eq!(err.to_string(), String::from("bad (YamlSyntaxError)"));
    let err = ConfigError::file_error(true, &String::from("/tmp/x.yml"));
    assert_eq!(err.code, ConfigErrorCode::NoSuchFileOrDirectory);
    let err = ConfigError::file_error(false, &String::from("/tmp/x.yml"));
    assert_eq!(err.code, ConfigErrorCode::CouldNotReadFile);
}

#[test]
fn config_error_messages_of_sections() {
    assert_eq!(parse("alias: 5\n").err().unwrap().message, String::from("'alias' key is not an array"));
    assert_eq!(parse("language:\n  name: ru\n").err().unwrap().message, String::from("'language' is not a string"));
    assert_eq!(parse("output:\n  trsnlate: true\n").err().unwrap().message, String::from("Missing key 'translate'"));
    assert_eq!(parse("\n").err().unwrap().message, String::from("File does not contain any YAML document"));
}

#[test]
fn last_alias_of_a_name_wins() {
    let config: Config = parse("alias:\n  - ll: \"ls -l\"\n  - ll: \"ls -la\"\n").ok().unwrap();
    assert_eq!(config.get_alias(&String::from("ll")).unwrap(), String::from("ls -la"));
}

#[test]
fn malformed_alias_list_is_refused() {
    assert!(Config::parse_config_str(&String::from("alias:\n  - 5\n")).is_none());
    assert!(Config::parse_config_str(&String::from("alias:\n  - ll: 5\n")).is_none());
}

fn s(text: &str) -> YamlNode {
    YamlNode::String(String::from(text))
}

fn gen_sample_yaml() -> YamlNode {
    let sample = YamlNode::Hash(vec![
        (s("usize"), YamlNode::Integer(2048)),
        (s("bool"), YamlNode::Boolean(true)),
        (s("str"), s("foobar")),
        (s("array"), YamlNode::Array(vec![YamlNode::Integer(1), YamlNode::Integer(2), YamlNode::Integer(3)])),
        (s("map"), YamlNode::Hash(vec![(s("foo"), YamlNode::Boolean(true)), (s("bar"), s("pluto"))])),
    ]);
    YamlNode::Hash(vec![(s("sample"), sample)])
}

#[test]
fn test_configparser_yaml_parser() {
    let yaml_doc: YamlNode = gen_sample_yaml();
    let sample_doc: &YamlNode = ConfigParser::get_child(&yaml_doc, &String::from("sample")).ok().unwrap();
    assert_eq!(ConfigParser::get_usize(sample_doc, &String::from("usize")).ok().unwrap(), 2048);
    assert_eq!(ConfigParser::get_bool(sample_doc, &String::from("bool")).ok().unwrap(), true);
    assert_eq!(ConfigParser::get_string(sample_doc, &String::from("str")).ok().unwrap(), String::from("foobar"));
    assert!(ConfigParser::get_child(sample_doc, &String::from("array")).is_ok());
    assert!(ConfigParser::get_child(sample_doc, &String::from("map")).is_ok());
}

#[test]
fn test_configparser_yaml_bad_values() {
    let yaml_doc: YamlNode = gen_sample_yaml();
    let sample_doc: &YamlNode = ConfigParser::get_child(&yaml_doc, &String::from("sample")).ok().unwrap();
    assert!(ConfigParser::get_bool(sample_doc, &String::from("str")).is_err());
    assert!(ConfigParser::get_usize(sample_doc, &String::from("str")).is_err());
    assert!(ConfigParser::get_string(sample_doc, &String::from("array")).is_err());
    assert!(ConfigParser::get_child(sample_doc, &String::from("foobar")).is_err());
}

#[test]
fn configparser_messages() {
    let yaml_doc: YamlNode = gen_sample_yaml();
    let sample_doc: &YamlNode = ConfigParser::get_child(&yaml_doc, &String::from("sample")).ok().unwrap();
    assert_eq!(ConfigParser::get_bool(sample_doc, &String::from("str")).err().unwrap().message, String::from("'str' is not a bool"));
    assert_eq!(ConfigParser::get_child(sample_doc, &String::from("nope")).err().unwrap().message, String::from("Missing key 'nope'"));
}
