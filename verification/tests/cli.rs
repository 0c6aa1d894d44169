use kno::cli::{Action, Cli, CliError, Command, NoteUse};
use kno::cli::{attached, git_may_run, max_depth_of, parse_number};

#[test]
fn test_cli_parses_hyphen_append() {
    let cli = Cli::parse_from(&["kno", "-a", "- my note"]).unwrap();
    assert_eq!(cli.append.as_deref(), Some("- my note"));
    assert!(cli.path.is_none());
}

#[test]
fn test_cli_parses_hyphen_append_with_path() {
    let cli = Cli::parse_from(&["kno", "sql/joins", "-a", "- todo item"]).unwrap();
    assert_eq!(cli.path.as_deref(), Some("sql/joins"));
    assert_eq!(cli.append.as_deref(), Some("- todo item"));
}

#[test]
fn test_cli_parses_list_subcommand() {
    let cli = Cli::parse_from(&["kno", "list"]).unwrap();
    assert!(matches!(
        cli.command,
        Some(Command::List { level: None, .. })
    ));
}

#[test]
fn test_cli_parses_list_with_level() {
    let cli = Cli::parse_from(&["kno", "list", "-L", "2"]).unwrap();
    assert!(matches!(
        cli.command,
        Some(Command::List { level: Some(2), .. })
    ));
}

#[test]
fn test_cli_parses_list_with_path() {
    let cli = Cli::parse_from(&["kno", "list", "sql"]).unwrap();
    match &cli.command {
        Some(Command::List { path, level, .. }) => {
            assert_eq!(path.as_deref(), Some("sql"));
            assert_eq!(*level, None);
        }
        _ => panic!("expected List command"),
    }
}

#[test]
fn test_cli_parses_git_subcommand() {
    let cli = Cli::parse_from(&["kno", "git", "status"]).unwrap();
    match &cli.command {
        Some(Command::Git { args }) => {
            assert_eq!(args, &["status"]);
        }
        _ => panic!("expected Git command"),
    }
}

#[test]
fn test_cli_parses_git_with_multiple_args() {
    let cli = Cli::parse_from(&["kno", "git", "log", "--oneline"]).unwrap();
    match &cli.command {
        Some(Command::Git { args }) => {
            assert_eq!(args, &["log", "--oneline"]);
        }
        _ => panic!("expected Git command"),
    }
}

#[test]
fn test_cli_parses_git_no_args() {
    let cli = Cli::parse_from(&["kno", "git"]).unwrap();
    match &cli.command {
        Some(Command::Git { args }) => {
            assert!(args.is_empty());
        }
        _ => panic!("expected Git command"),
    }
}

#[test]
fn cli_without_arguments_asks_for_the_daily_note() {
    let plain = Cli { path: None, print: false, append: None, command: None };
    assert_eq!(Cli::parse_from(&["kno"]), Ok(plain));
    let plain = Cli { path: None, print: false, append: None, command: None };
    assert_eq!(Cli::parse_from(&[]), Ok(plain));
}

#[test]
fn cli_parses_print_in_both_spellings() {
    let short = Cli::parse_from(&["kno", "-p", "sql/joins"]).unwrap();
    assert!(short.print);
    assert_eq!(short.path.as_deref(), Some("sql/joins"));
    let long = Cli::parse_from(&["kno", "sql/joins", "--print"]).unwrap();
    assert!(long.print);
    assert_eq!(long.path.as_deref(), Some("sql/joins"));
    assert_eq!(long.append, None);
    assert_eq!(long.command, None);
}

#[test]
fn cli_parses_long_append() {
    let cli = Cli::parse_from(&["kno", "--append", "--print"]).unwrap();
    assert_eq!(cli.append.as_deref(), Some("--print"));
    assert!(!cli.print);
}

#[test]
fn cli_takes_a_command_name_behind_an_option_as_path() {
    let cli = Cli::parse_from(&["kno", "-p", "list"]).unwrap();
    assert_eq!(cli.path.as_deref(), Some("list"));
    assert_eq!(cli.command, None);
}

#[test]
fn cli_parses_list_with_all_it_takes() {
    let cli = Cli::parse_from(&["kno", "list", "--show-notes", "sql", "--depth", "0"]).unwrap();
    assert_eq!(
        cli.command,
        Some(Command::List { path: Some("sql".to_string()), level: Some(0), show_notes: true })
    );
    let cli = Cli::parse_from(&["kno", "list", "--level", "12"]).unwrap();
    assert_eq!(cli.command, Some(Command::List { path: None, level: Some(12), show_notes: false }));
}

#[test]
fn cli_parses_init() {
    let cli = Cli::parse_from(&["kno", "init"]).unwrap();
    assert_eq!(cli.command, Some(Command::Init));
    assert_eq!(cli.path, None);
}

#[test]
fn cli_hands_options_behind_git_on() {
    let cli = Cli::parse_from(&["kno", "git", "-p", "list"]).unwrap();
    assert_eq!(
        cli.command,
        Some(Command::Git { args: vec!["-p".to_string(), "list".to_string()] })
    );
    assert!(!cli.print);
}

#[test]
fn cli_reports_a_missing_value() {
    assert_eq!(
        Cli::parse_from(&["kno", "foo", "-a"]),
        Err(CliError::MissingValue("-a".to_string()))
    );
    assert_eq!(
        Cli::parse_from(&["kno", "list", "--level"]),
        Err(CliError::MissingValue("--level".to_string()))
    );
}

#[test]
fn cli_reports_an_unknown_option() {
    assert_eq!(
        Cli::parse_from(&["kno", "--frobnicate"]),
        Err(CliError::UnknownOption("--frobnicate".to_string()))
    );
    assert_eq!(
        Cli::parse_from(&["kno", "list", "-p"]),
        Err(CliError::UnknownOption("-p".to_string()))
    );
}

#[test]
fn cli_reports_an_unexpected_argument() {
    assert_eq!(
        Cli::parse_from(&["kno", "foo", "bar"]),
        Err(CliError::UnexpectedArgument("bar".to_string()))
    );
    assert_eq!(
        Cli::parse_from(&["kno", "list", "sql", "daily"]),
        Err(CliError::UnexpectedArgument("daily".to_string()))
    );
    assert_eq!(
        Cli::parse_from(&["kno", "init", "now"]),
        Err(CliError::UnexpectedArgument("now".to_string()))
    );
}

#[test]
fn cli_reports_an_invalid_number() {
    assert_eq!(
        Cli::parse_from(&["kno", "list", "-L", "two"]),
        Err(CliError::InvalidNumber("two".to_string()))
    );
    assert_eq!(
        Cli::parse_from(&["kno", "list", "-L", "-1"]),
        Err(CliError::InvalidNumber("-1".to_string()))
    );
    assert_eq!(
        Cli::parse_from(&["kno", "list", "-L", "99999999999999999999999999"]),
        Err(CliError::InvalidNumber("99999999999999999999999999".to_string()))
    );
}

#[test]
fn parse_number_reads_digits_only() {
    assert_eq!(parse_number("0"), Some(0));
    assert_eq!(parse_number("007"), Some(7));
    assert_eq!(parse_number("1234"), Some(1234));
    assert_eq!(parse_number(&usize::MAX.to_string()), Some(usize::MAX));
    assert_eq!(parse_number(""), None);
    assert_eq!(parse_number("+1"), Some(1));
    assert_eq!(parse_number("+007"), Some(7));
    assert_eq!(parse_number("+"), None);
    assert_eq!(parse_number("++1"), None);
    assert_eq!(parse_number("1+"), None);
    assert_eq!(parse_number("-1"), None);
    assert_eq!(parse_number("+18446744073709551616000"), None);
    assert_eq!(parse_number("1 "), None);
    assert_eq!(parse_number("12a"), None);
    assert_eq!(parse_number("٣"), None);
    assert_eq!(parse_number("18446744073709551616000"), None);
}

#[test]
fn max_depth_is_one_level_unless_told() {
    assert_eq!(max_depth_of(None), Some(1));
    assert_eq!(max_depth_of(Some(0)), None);
    assert_eq!(max_depth_of(Some(1)), Some(1));
    assert_eq!(max_depth_of(Some(5)), Some(5));
}

#[test]
fn git_runs_outside_a_repository_only_to_init() {
    let init = vec!["init".to_string(), "--quiet".to_string()];
    let status = vec!["status".to_string()];
    let none: Vec<String> = Vec::new();
    assert!(git_may_run(&init, false));
    assert!(!git_may_run(&status, false));
    assert!(!git_may_run(&none, false));
    assert!(git_may_run(&init, true));
    assert!(git_may_run(&status, true));
    assert!(git_may_run(&none, true));
}

#[test]
fn action_puts_the_command_first() {
    let cli = Cli::parse_from(&["kno", "list", "sql", "-L", "0"]).unwrap();
    assert_eq!(
        cli.action(),
        Action::List { path: Some("sql".to_string()), max_depth: None, show_notes: false }
    );
    let cli = Cli::parse_from(&["kno", "list"]).unwrap();
    assert_eq!(cli.action(), Action::List { path: None, max_depth: Some(1), show_notes: false });
    let cli = Cli::parse_from(&["kno", "init"]).unwrap();
    assert_eq!(cli.action(), Action::Init);
    let cli = Cli::parse_from(&["kno", "git", "log"]).unwrap();
    assert_eq!(cli.action(), Action::Git { args: vec!["log".to_string()] });
}

#[test]
fn action_prefers_print_to_append_to_edit() {
    let cli = Cli::parse_from(&["kno", "foo", "-a", "text", "-p"]).unwrap();
    assert_eq!(cli.action(), Action::Open { path: Some("foo".to_string()), purpose: NoteUse::Print });
    let cli = Cli::parse_from(&["kno", "foo", "-a", "text"]).unwrap();
    assert_eq!(
        cli.action(),
        Action::Open {
            path: Some("foo".to_string()),
            purpose: NoteUse::Append { text: "text".to_string() }
        }
    );
    let cli = Cli::parse_from(&["kno"]).unwrap();
    assert_eq!(cli.action(), Action::Open { path: None, purpose: NoteUse::Edit });
}

#[test]
fn parse_number_agrees_with_the_parser_of_usize() {
    for text in ["", "0", "+0", "42", "+42", "-42", "+", "+-1", "4 2", "0x10", "١", "99999999999999999999"] {
        assert_eq!(parse_number(text), text.parse::<usize>().ok(), "{text:?}");
    }
}

#[test]
fn cli_takes_a_text_that_the_option_brings_along() {
    for args in [
        ["kno", "foo", "--append=- my note"],
        ["kno", "foo", "-a- my note"],
        ["kno", "foo", "-a=- my note"],
    ] {
        let cli = Cli::parse_from(&args).unwrap();
        assert_eq!(cli.append.as_deref(), Some("- my note"), "{args:?}");
        assert_eq!(cli.path.as_deref(), Some("foo"));
        assert!(!cli.print);
    }
    let cli = Cli::parse_from(&["kno", "--append="]).unwrap();
    assert_eq!(cli.append.as_deref(), Some(""));
    let cli = Cli::parse_from(&["kno", "-a=="]).unwrap();
    assert_eq!(cli.append.as_deref(), Some("="));
    let cli = Cli::parse_from(&["kno", "--append=a=b", "-p"]).unwrap();
    assert_eq!(cli.append.as_deref(), Some("a=b"));
    assert!(cli.print);
}

#[test]
fn cli_takes_a_level_that_the_option_brings_along() {
    for args in [
        ["kno", "list", "--level=2"],
        ["kno", "list", "--depth=2"],
        ["kno", "list", "-L2"],
        ["kno", "list", "-L=2"],
        ["kno", "list", "-L+2"],
        ["kno", "list", "--level=+2"],
    ] {
        let cli = Cli::parse_from(&args).unwrap();
        assert_eq!(
            cli.command,
            Some(Command::List { path: None, level: Some(2), show_notes: false }),
            "{args:?}"
        );
    }
    let cli = Cli::parse_from(&["kno", "list", "-L", "+1", "sql"]).unwrap();
    assert_eq!(
        cli.command,
        Some(Command::List { path: Some("sql".to_string()), level: Some(1), show_notes: false })
    );
}

#[test]
fn cli_reports_what_an_option_brings_along_and_is_no_number() {
    assert_eq!(
        Cli::parse_from(&["kno", "list", "--level=two"]),
        Err(CliError::InvalidNumber("two".to_string()))
    );
    assert_eq!(
        Cli::parse_from(&["kno", "list", "-Lx"]),
        Err(CliError::InvalidNumber("x".to_string()))
    );
    assert_eq!(
        Cli::parse_from(&["kno", "list", "--depth="]),
        Err(CliError::InvalidNumber(String::new()))
    );
}

#[test]
fn cli_refuses_what_it_does_not_take() {
    for option in ["-pa", "--print=yes", "--", "-h", "--help", "--appendix", "--levels=2", "-x"] {
        assert_eq!(
            Cli::parse_from(&["kno", option, "text"]),
            Err(CliError::UnknownOption(option.to_string())),
            "{option}"
        );
    }
    for option in ["--show-notes=yes", "-a", "--append=x", "--", "-l2"] {
        assert_eq!(
            Cli::parse_from(&["kno", "list", option]),
            Err(CliError::UnknownOption(option.to_string())),
            "{option}"
        );
    }
}

#[test]
fn attached_reads_what_stands_behind_the_option() {
    assert_eq!(attached("--append=x", "-a", "--append"), Some("x".to_string()));
    assert_eq!(attached("--append=", "-a", "--append"), Some(String::new()));
    assert_eq!(attached("--append", "-a", "--append"), None);
    assert_eq!(attached("--appendx", "-a", "--append"), None);
    assert_eq!(attached("-a", "-a", "--append"), None);
    assert_eq!(attached("-ax", "-a", "--append"), Some("x".to_string()));
    assert_eq!(attached("-a=x", "-a", "--append"), Some("x".to_string()));
    assert_eq!(attached("-a=", "-a", "--append"), Some(String::new()));
    assert_eq!(attached("-append", "-a", "--append"), Some("ppend".to_string()));
    assert_eq!(attached("a", "-a", "--append"), None);
    assert_eq!(attached("", "-a", "--append"), None);
    assert_eq!(attached("-é=ü", "-é", "--long"), Some("ü".to_string()));
}
