use shellcore::command::Command;
use shellcore::command::ParseError;
use shellcore::command::Redirection;
use shellcore::command::RedirectionChannel;
use shellcore::command::RedirectionKind;
use shellcore::numbers::parse_i32;
use shellcore::output::cat_missing_file_message;
use shellcore::output::cd_error_message;
use shellcore::output::command_not_found_message;
use shellcore::output::echo_line;
use shellcore::output::type_output;
use shellcore::parser::parse_command;
use shellcore::parser::parse_redirection;
use shellcore::parser::split_tokens;
use shellcore::router::route_chunk;
use shellcore::lexer::tokenize;
use shellcore::utils::expand_home_path;
use shellcore::utils::split_colon_list;

const HOME: &str = "/home/cdg";

fn stdout_redirection(kind: RedirectionKind) -> Option<Redirection> {
    Some(Redirection {
        kind,
        channel: RedirectionChannel::Stdout,
        file: "/tmp/out.txt".to_string(),
    })
}

#[test]
fn test_tokenize_collapses_tabs_and_spaces() {
    let input = "a\t b \t c";
    let expected = vec!["a".to_string(), "b".to_string(), "c".to_string()];
    assert_eq!(tokenize(input), expected);
}

#[test]
fn test_tokenize_double_quote_keeps_non_special_backslash() {
    let input = r#"echo "a\nb""#;
    let expected = vec!["echo".to_string(), r"a\nb".to_string()];
    assert_eq!(tokenize(input), expected);
}

#[test]
fn test_tokenize_double_quote_resolves_special_escapes() {
    let input = r#"echo "a\$b\`c\\d""#;
    let expected = vec!["echo".to_string(), r"a$b`c\d".to_string()];
    assert_eq!(tokenize(input), expected);
}

#[test]
fn test_tokenize_unquoted_backslash_escapes_space() {
    let input = r"echo a\ b";
    let expected = vec!["echo".to_string(), "a b".to_string()];
    assert_eq!(tokenize(input), expected);
}

#[test]
fn test_round_trip_plain_tokens() {
    let tokens = vec!["alpha".to_string(), "beta".to_string(), "gamma".to_string()];
    let joined = tokens.join(" ");
    assert_eq!(tokenize(&joined), tokens);
}

#[test]
fn test_split_tokens_without_operator() {
    let input = vec!["ls".to_string(), "-l".to_string()];
    let expected = (vec!["ls".to_string(), "-l".to_string()], vec![]);
    assert_eq!(split_tokens(input), expected);
}

#[test]
fn test_parse_redirection_append_stdout() {
    let input = vec![">>".to_string(), "/tmp/f".to_string()];
    let expected = Some(Redirection {
        kind: RedirectionKind::Append,
        channel: RedirectionChannel::Stdout,
        file: "/tmp/f".to_string(),
    });
    assert_eq!(parse_redirection(&input), Ok(expected));
}

#[test]
fn test_parse_redirection_stderr_operators() {
    let truncate = vec!["2>".to_string(), "/tmp/e".to_string()];
    let append = vec!["2>>".to_string(), "/tmp/e".to_string()];
    assert_eq!(
        parse_redirection(&truncate),
        Ok(Some(Redirection {
            kind: RedirectionKind::Redirect,
            channel: RedirectionChannel::Stderr,
            file: "/tmp/e".to_string(),
        }))
    );
    assert_eq!(
        parse_redirection(&append),
        Ok(Some(Redirection {
            kind: RedirectionKind::Append,
            channel: RedirectionChannel::Stderr,
            file: "/tmp/e".to_string(),
        }))
    );
}

#[test]
fn test_parse_redirection_empty_and_unrecognized() {
    assert_eq!(parse_redirection(&vec![]), Ok(None));
    let odd = vec!["x>".to_string(), "/tmp/f".to_string()];
    assert_eq!(parse_redirection(&odd), Ok(None));
}

#[test]
fn test_parse_redirection_missing_target() {
    let input = vec![">".to_string()];
    assert_eq!(
        parse_redirection(&input),
        Err(ParseError::MissingRedirectionTarget)
    );
}

#[test]
fn test_parse_command_empty_line() {
    assert_eq!(parse_command("", HOME), Err(ParseError::EmptyCommand));
    assert_eq!(parse_command("   ", HOME), Err(ParseError::EmptyCommand));
}

#[test]
fn test_parse_command_exit_without_code() {
    assert_eq!(parse_command("exit", HOME), Ok(Command::Exit { _arg: 0 }));
}

#[test]
fn test_parse_command_exit_negative_code() {
    assert_eq!(
        parse_command("exit -2147483648", HOME),
        Ok(Command::Exit { _arg: i32::MIN })
    );
}

#[test]
fn test_parse_command_exit_invalid_code() {
    assert_eq!(
        parse_command("exit abc", HOME),
        Err(ParseError::InvalidExitCode)
    );
    assert_eq!(
        parse_command("exit 2147483648", HOME),
        Err(ParseError::InvalidExitCode)
    );
}

#[test]
fn test_parse_command_type_without_argument() {
    assert_eq!(
        parse_command("type", HOME),
        Err(ParseError::MissingTypeArgument)
    );
}

#[test]
fn test_parse_command_cd_without_argument() {
    assert_eq!(parse_command("cd", HOME), Err(ParseError::MissingCdArgument));
}

#[test]
fn test_parse_command_redirection_without_target() {
    assert_eq!(
        parse_command("echo hi >", HOME),
        Err(ParseError::MissingRedirectionTarget)
    );
}

#[test]
fn test_parse_i32_accepts_signed_decimals() {
    assert_eq!(parse_i32("42"), Some(42));
    assert_eq!(parse_i32("+7"), Some(7));
    assert_eq!(parse_i32("-0"), Some(0));
    assert_eq!(parse_i32("2147483647"), Some(2147483647));
    assert_eq!(parse_i32("-2147483648"), Some(i32::MIN));
    assert_eq!(parse_i32("0000000000000005"), Some(5));
}

#[test]
fn test_parse_i32_rejects_malformed_or_out_of_range() {
    assert_eq!(parse_i32(""), None);
    assert_eq!(parse_i32("-"), None);
    assert_eq!(parse_i32("4x"), None);
    assert_eq!(parse_i32(" 4"), None);
    assert_eq!(parse_i32("2147483648"), None);
    assert_eq!(parse_i32("99999999999999999999"), None);
}

#[test]
fn test_is_builtin_membership() {
    for name in ["echo", "exit", "type", "pwd", "cd"] {
        assert!(Command::is_builtin(name));
    }
    for name in ["cat", "ls", "echoo", ""] {
        assert!(!Command::is_builtin(name));
    }
}

#[test]
fn test_expand_home_path_tilde_prefix() {
    assert_eq!(expand_home_path("~/Documents", HOME), "/home/cdg/Documents");
    assert_eq!(expand_home_path("~", HOME), "/home/cdg");
    assert_eq!(expand_home_path("/var/log", HOME), "/var/log");
    assert_eq!(expand_home_path("a~b", HOME), "a~b");
}

#[test]
fn test_split_colon_list_keeps_empty_pieces() {
    assert_eq!(
        split_colon_list("/usr/bin:/bin::/opt"),
        vec![
            "/usr/bin".to_string(),
            "/bin".to_string(),
            "".to_string(),
            "/opt".to_string(),
        ]
    );
    assert_eq!(split_colon_list(""), vec!["".to_string()]);
}

#[test]
fn test_echo_line_joins_with_spaces() {
    let args = vec!["hello".to_string(), "world".to_string()];
    assert_eq!(echo_line(&args), "hello world\n");
    assert_eq!(echo_line(&vec![]), "\n");
    assert_eq!(echo_line(&vec!["solo".to_string()]), "solo\n");
}

#[test]
fn test_type_output_builtin_ignores_lookup() {
    assert_eq!(type_output("echo", &None), "echo is a shell builtin\n");
    let lookup = Some("/bin/echo".to_string());
    assert_eq!(type_output("echo", &lookup), "echo is a shell builtin\n");
}

#[test]
fn test_type_output_resolved_and_missing() {
    let lookup = Some("/bin/ls".to_string());
    assert_eq!(type_output("ls", &lookup), "ls is /bin/ls\n");
    assert_eq!(type_output("nope", &None), "nope: not found\n");
}

#[test]
fn test_error_messages() {
    assert_eq!(command_not_found_message("frob"), "frob: command not found\n");
    assert_eq!(
        cat_missing_file_message("/tmp/x"),
        "cat: /tmp/x: No such file or directory\n"
    );
    assert_eq!(
        cd_error_message("/tmp/x"),
        "cd: /tmp/x: No such file or directory\n"
    );
}

#[test]
fn test_route_without_redirection_prints() {
    let (file, terminal) = route_chunk("hi\n", &None, true, Some("kept".to_string()));
    assert_eq!(file, Some("kept".to_string()));
    assert_eq!(terminal, Some("hi\n".to_string()));
}

#[test]
fn test_route_truncate_idempotent() {
    let redirection = stdout_redirection(RedirectionKind::Redirect);
    let (file, terminal) = route_chunk("data\n", &redirection, true, None);
    assert_eq!(file, Some("data\n".to_string()));
    assert_eq!(terminal, None);
    let (file, terminal) = route_chunk("data\n", &redirection, true, file);
    assert_eq!(file, Some("data\n".to_string()));
    assert_eq!(terminal, None);
}

#[test]
fn test_route_append_creates_missing_file() {
    let redirection = stdout_redirection(RedirectionKind::Append);
    let (file, terminal) = route_chunk("oops\n", &redirection, false, None);
    assert_eq!(file, Some("".to_string()));
    assert_eq!(terminal, Some("oops\n".to_string()));
    let (file, terminal) = route_chunk("line\n", &redirection, true, file);
    assert_eq!(file, Some("line\n".to_string()));
    assert_eq!(terminal, None);
}

#[test]
fn test_route_append_does_not_retruncate() {
    let redirection = stdout_redirection(RedirectionKind::Append);
    let existing = Some("first\n".to_string());
    let (file, terminal) = route_chunk("second\n", &redirection, true, existing);
    assert_eq!(file, Some("first\nsecond\n".to_string()));
    assert_eq!(terminal, None);
}

#[test]
fn test_route_channel_mismatch_passthrough() {
    let redirection = stdout_redirection(RedirectionKind::Append);
    let existing = Some("keep".to_string());
    let (file, terminal) = route_chunk("error\n", &redirection, false, existing);
    assert_eq!(file, Some("keep".to_string()));
    assert_eq!(terminal, Some("error\n".to_string()));
}
