//! Configuration resolution: turn positional arguments and an environment
//! flag into a validated search configuration, with a defined precedence
//! between the explicit case-flag argument and the environment.
use vstd::prelude::*;
use vstd::string::StringExecFns;

verus! {

/// The resolved, immutable inputs to one search run.
pub struct Config {
    /// The substring being searched for within each line.
    pub query: String,
    /// Path of the file whose content is searched; its existence is checked
    /// only when the file is opened, never during resolution.
    pub file_path: String,
    /// Whether matching folds case.
    pub ignore_case: bool,
}

/// Why resolution rejected the raw arguments.
#[derive(Debug)]
pub enum ConfigError {
    /// No query argument was supplied.
    MissingQuery,
    /// No file-path argument was supplied.
    MissingFilePath,
    /// A case-flag argument was supplied but is not a boolean literal; the
    /// field carries the offending argument text.
    InvalidCaseFlag(String),
}

/// The only textual forms accepted for the optional case-flag argument.
pub open spec fn is_bool_literal(s: Seq<char>) -> bool {
    s == "true"@ || s == "false"@
}

/// The views of a list of argument strings.
pub open spec fn arg_views(args: Seq<String>) -> Seq<Seq<char>> {
    args.map_values(|a: String| a@)
}

/// Resolution succeeds exactly when a query and a file path are present and
/// any case-flag argument is a boolean literal.
pub open spec fn resolve_ok(args: Seq<Seq<char>>) -> bool {
    args.len() >= 2 && (args.len() == 2 || is_bool_literal(args[2]))
}

/// The case mode a successful resolution yields: an explicit third argument
/// always wins over the environment flag; otherwise the environment decides.
pub open spec fn resolved_ignore_case(args: Seq<Seq<char>>, env_ignore_case: bool) -> bool {
    if args.len() >= 3 {
        args[2] == "true"@
    } else {
        env_ignore_case
    }
}

/// Parses exactly the literals `"true"` and `"false"`; anything else,
/// including other casings, is rejected.
fn parse_bool_literal(s: &String) -> (parsed: Option<bool>)
    ensures
        parsed == Some(true) <==> s@ == "true"@,
        parsed == Some(false) <==> s@ == "false"@,
        parsed is None <==> !is_bool_literal(s@),
{
    proof {
        reveal_strlit("true");
        reveal_strlit("false");
        assert("true"@.len() == 4);
        assert("false"@.len() == 5);
    }
    let true_literal: String = String::from_str("true");
    let false_literal: String = String::from_str("false");
    if s.eq(&true_literal) {
        Some(true)
    } else if s.eq(&false_literal) {
        Some(false)
    } else {
        None
    }
}

impl Config {
    /// Resolves a configuration from the positional arguments (query, file
    /// path, optional case-flag literal; anything beyond those is ignored)
    /// and the externally supplied environment flag.
    pub fn build(args: &Vec<String>, env_ignore_case: bool) -> (result: Result<Config, ConfigError>)
        ensures
            result is Ok <==> resolve_ok(arg_views(args@)),
            result matches Ok(config) ==> {
                &&& config.query@ == args@[0]@
                &&& config.file_path@ == args@[1]@
                &&& config.ignore_case == resolved_ignore_case(
                    arg_views(args@),
                    env_ignore_case,
                )
            },
            result matches Err(error) ==> match error {
                ConfigError::MissingQuery => args@.len() == 0,
                ConfigError::MissingFilePath => args@.len() == 1,
                ConfigError::InvalidCaseFlag(detail) => {
                    &&& args@.len() >= 3
                    &&& !is_bool_literal(args@[2]@)
                    &&& detail@ == args@[2]@
                },
            },
    {
        if args.len() == 0 {
            return Err(ConfigError::MissingQuery);
        }
        if args.len() == 1 {
            return Err(ConfigError::MissingFilePath);
        }
        let query = args[0].clone();
        let file_path = args[1].clone();
        let ignore_case = if args.len() >= 3 {
            match parse_bool_literal(&args[2]) {
                Some(explicit) => explicit,
                None => {
                    return Err(ConfigError::InvalidCaseFlag(args[2].clone()));
                },
            }
        } else {
            env_ignore_case
        };
        Ok(Config { query, file_path, ignore_case })
    }
}

/// An explicit boolean case-flag argument decides the case mode by itself:
/// the environment flag never influences the outcome when a third argument
/// is present.
pub proof fn lemma_explicit_flag_overrides_env(args: Seq<Seq<char>>, env_ignore_case: bool)
    requires
        args.len() >= 3,
    ensures
        resolved_ignore_case(args, env_ignore_case) == (args[2] == "true"@),
{
}

/// With no third argument, the environment flag alone decides the case mode.
pub proof fn lemma_env_decides_without_flag(args: Seq<Seq<char>>, env_ignore_case: bool)
    requires
        args.len() < 3,
    ensures
        resolved_ignore_case(args, env_ignore_case) == env_ignore_case,
{
}

/// Fewer than two positional arguments never resolve.
pub proof fn lemma_too_few_args_rejected(args: Seq<Seq<char>>)
    requires
        args.len() < 2,
    ensures
        !resolve_ok(args),
{
}

} // verus!
