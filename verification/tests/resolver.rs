use minigrep::run;
use minigrep::Config;
use minigrep::ConfigError;

const POEM: &str = "\
I'm nobody! Who are you?
Are you nobody, too?
Then there's a pair of us - don't tell!
They'd banish us, you know.

How dreary to be somebody!
How public, like a frog
To tell your name the livelong day
To an admiring bog!
";

fn string_args(args: &[&str]) -> Vec<String> {
    args.iter().map(|a| a.to_string()).collect()
}

#[test]
fn cli_case_precedence_false() {
    let args = string_args(&["to", "poem.txt", "false"]);

    let config = Config::build(&args, true).unwrap();
    assert!(!config.ignore_case);
    let results = run(&config, POEM);

    assert_eq!(results.len(), 2);
}

#[test]
fn cli_case_precedence_true() {
    let args = string_args(&["to", "poem.txt", "true"]);

    let config = Config::build(&args, true).unwrap();
    assert!(config.ignore_case);
    let results = run(&config, POEM);

    assert_eq!(results.len(), 4);
}

#[test]
fn explicit_true_flag_overrides_unset_env() {
    let args = string_args(&["to", "poem.txt", "true"]);
    let config = Config::build(&args, false).unwrap();
    assert!(config.ignore_case);
}

#[test]
fn env_decides_when_no_flag_argument() {
    let args = string_args(&["to", "poem.txt"]);
    let with_env = Config::build(&args, true).unwrap();
    assert!(with_env.ignore_case);
    let without_env = Config::build(&args, false).unwrap();
    assert!(!without_env.ignore_case);
}

#[test]
fn no_arguments_is_missing_query() {
    let args: Vec<String> = Vec::new();
    let result = Config::build(&args, false);
    assert!(matches!(result, Err(ConfigError::MissingQuery)));
}

#[test]
fn one_argument_is_missing_file_path() {
    let args = string_args(&["to"]);
    let result = Config::build(&args, false);
    assert!(matches!(result, Err(ConfigError::MissingFilePath)));
}

#[test]
fn non_boolean_flag_is_invalid_case_flag() {
    let args = string_args(&["to", "poem.txt", "maybe"]);
    let result = Config::build(&args, false);
    match result {
        Err(ConfigError::InvalidCaseFlag(detail)) => assert_eq!(detail, "maybe"),
        _ => panic!("expected an invalid case-flag error"),
    }
}

#[test]
fn boolean_literals_are_exact_and_case_sensitive() {
    for bad in ["True", "FALSE", "1", "0", "yes", ""] {
        let args = string_args(&["to", "poem.txt", bad]);
        let result = Config::build(&args, false);
        assert!(matches!(result, Err(ConfigError::InvalidCaseFlag(_))));
    }
}

#[test]
fn query_and_file_path_are_taken_in_order() {
    let args = string_args(&["needle", "haystack.txt"]);
    let config = Config::build(&args, false).unwrap();
    assert_eq!(config.query, "needle");
    assert_eq!(config.file_path, "haystack.txt");
}

#[test]
fn arguments_beyond_the_third_are_ignored() {
    let args = string_args(&["to", "poem.txt", "true", "extra", "junk"]);
    let config = Config::build(&args, false).unwrap();
    assert!(config.ignore_case);
    assert_eq!(config.query, "to");
}

#[test]
fn run_picks_the_matcher_from_the_config() {
    let sensitive = Config::build(&string_args(&["to", "poem.txt", "false"]), true).unwrap();
    let insensitive = Config::build(&string_args(&["to", "poem.txt", "true"]), false).unwrap();
    assert_eq!(run(&sensitive, POEM), vec![
        "Are you nobody, too?",
        "How dreary to be somebody!"
    ]);
    assert_eq!(run(&insensitive, POEM), vec![
        "Are you nobody, too?",
        "How dreary to be somebody!",
        "To tell your name the livelong day",
        "To an admiring bog!"
    ]);
}
