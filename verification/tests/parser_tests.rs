use shellcore::command::Command;
use shellcore::command::Redirection;
use shellcore::command::RedirectionChannel;
use shellcore::command::RedirectionKind;
use shellcore::parser::parse;
use shellcore::parser::parse_command;
use shellcore::parser::parse_redirection;
use shellcore::parser::split_tokens;
use shellcore::lexer::tokenize;

const HOME: &str = "/home/cdg";

#[test]
fn test_tokenize_echo_hello_world_simple() {
    let input = "echo hello world";
    let expected = vec!["echo".to_string(), "hello".to_string(), "world".to_string()];

    let result = tokenize(input);
    assert_eq!(result, expected);
}

#[test]
fn test_tokenize_echo_hello_world_with_spaces() {
    let input = "echo hello    world";
    let expected = vec!["echo".to_string(), "hello".to_string(), "world".to_string()];

    let result = tokenize(input);
    assert_eq!(result, expected);
}

#[test]
fn test_tokenize_type_echo() {
    let input = "type echo";
    let expected = vec!["type".to_string(), "echo".to_string()];

    let result = tokenize(input);
    assert_eq!(result, expected);
}

#[test]
fn test_tokenize_ls() {
    let input = "ls";
    let expected = vec!["ls".to_string()];

    let result = tokenize(input);
    assert_eq!(result, expected);
}

#[test]
fn test_tokenize_cd() {
    let input = "cd ~/Documents";
    let expected = vec!["cd".to_string(), "~/Documents".to_string()];

    let result = tokenize(input);
    assert_eq!(result, expected);
}

#[test]
fn test_tokenize_command_with_single_quote() {
    let input = "echo 'world     test'";
    let expected = vec!["echo".to_string(), "world     test".to_string()];

    let result = tokenize(input);
    assert_eq!(result, expected);
}

#[test]
fn test_tokenize_command_with_double_quote() {
    let input = r#"echo "bar    bar"  "shell's"  "foo""#;
    let expected = vec![
        "echo".to_string(),
        "bar    bar".to_string(),
        "shell's".to_string(),
        "foo".to_string(),
    ];

    let result = tokenize(input);
    assert_eq!(result, expected);
}

#[test]
fn test_tokenize_non_quoted_backslash() {
    let input = r"echo hello\ \ \ \ \ \ world";
    let expected = vec!["echo".to_string(), "hello      world".to_string()];

    let result = tokenize(input);
    assert_eq!(result, expected);
}

#[test]
fn test_tokenize_with_backslash_inside_double_quotes() {
    let input = r#"echo "hello\"insidequotes"script\""#;
    let expected = vec![
        "echo".to_string(),
        "hello\"insidequotesscript\"".to_string(),
    ];

    let result = tokenize(input);
    assert_eq!(result, expected);
}

#[test]
fn test_tokenize_with_backslash_inside_single_quotes_inside_double_quotes() {
    let input = r#"echo "hello'script'\\n'world""#;
    let expected = vec!["echo".to_string(), r"hello'script'\n'world".to_string()];

    let result = tokenize(input);
    assert_eq!(result, expected);
}

#[test]
fn test_tokenize_with_redirection() {
    let input = "ls /tmp/baz > /tmp/foo/baz.md";
    let expected = vec![
        "ls".to_string(),
        "/tmp/baz".to_string(),
        ">".to_string(),
        "/tmp/foo/baz.md".to_string(),
    ];

    let result = tokenize(input);
    assert_eq!(result, expected);
}

#[test]
fn test_split_token_with_redirection() {
    let input = vec![
        "ls".to_string(),
        "/tmp/baz".to_string(),
        ">".to_string(),
        "/tmp/foo/baz.md".to_string(),
    ];
    let expected = (
        vec!["ls".to_string(), "/tmp/baz".to_string()],
        vec![">".to_string(), "/tmp/foo/baz.md".to_string()],
    );

    let result = split_tokens(input);
    assert_eq!(result, expected);
}

#[test]
fn test_parse_redirection_tokens() {
    let input = vec![">".to_string(), "/tmp/foo/baz.md".to_string()];
    let expected = Some(Redirection {
        kind: RedirectionKind::Redirect,
        channel: RedirectionChannel::Stdout,
        file: String::from("/tmp/foo/baz.md"),
    });

    let result = parse_redirection(&input);
    assert_eq!(result, Ok(expected));
}

#[test]
fn test_parse_with_redirection() {
    let command_tokens = vec!["ls".to_string(), "/tmp/baz".to_string()];
    let redirection = Some(Redirection {
        kind: RedirectionKind::Redirect,
        channel: RedirectionChannel::Stdout,
        file: String::from("/tmp/foo/baz.md"),
    });
    let expected = Command::External {
        name: "ls".to_string(),
        args: vec!["/tmp/baz".to_string()],
        redirection: Some(Redirection {
            kind: RedirectionKind::Redirect,
            channel: RedirectionChannel::Stdout,
            file: "/tmp/foo/baz.md".to_string(),
        }),
    };

    let result = parse(&command_tokens, redirection, HOME);
    assert_eq!(result, Ok(expected));
}

#[test]
fn test_parse_command_echo_hello_world() {
    let input = "echo hello     world";
    let expected = Command::Echo {
        args: vec!["hello".to_string(), "world".to_string()],
        redirection: None,
    };

    let result = parse_command(input, HOME);
    assert_eq!(result, Ok(expected));
}

#[test]
fn test_parse_command_exit() {
    let input = "exit 0";
    let expected = Command::Exit { _arg: 0 };

    let result = parse_command(input, HOME);
    assert_eq!(result, Ok(expected));
}

#[test]
fn test_parse_command_type_echo() {
    let input = "type echo";
    let expected = Command::Type {
        arg: "echo".to_string(),
        redirection: None,
    };

    let result = parse_command(input, HOME);
    assert_eq!(result, Ok(expected));
}

#[test]
fn test_parse_command_ls() {
    let input = "ls";
    let expected = Command::External {
        name: "ls".to_string(),
        args: vec![],
        redirection: None,
    };

    let result = parse_command(input, HOME);
    assert_eq!(result, Ok(expected));
}

#[test]
fn test_parse_command_cd() {
    let input = "cd ~/Documents";
    let expected = Command::Cd {
        arg: "/home/cdg/Documents".to_string(),
    };

    let result = parse_command(input, HOME);
    assert_eq!(result, Ok(expected));
}

#[test]
fn test_parse_command_cat_with_quoted_file_names() {
    let input = r#"cat "/tmp/bar/f\n41" "/tmp/bar/f\10" "/tmp/bar/f'\'62""#;
    let expected = Command::Cat {
        args: vec![
            r"/tmp/bar/f\n41".to_string(),
            r"/tmp/bar/f\10".to_string(),
            r"/tmp/bar/f'\'62".to_string(),
        ],
        redirection: None,
    };

    let result = parse_command(input, HOME);
    assert_eq!(result, Ok(expected));
}

#[test]
fn test_parse_command_echo_with_redirection() {
    let input = "echo 'Hello World' 1> /tmp/foo/bar.md";
    let expected = Command::Echo {
        args: vec!["Hello World".to_string()],
        redirection: Some(Redirection {
            kind: RedirectionKind::Redirect,
            channel: RedirectionChannel::Stdout,
            file: "/tmp/foo/bar.md".to_string(),
        }),
    };

    let result = parse_command(input, HOME);
    assert_eq!(result, Ok(expected));
}
