//! From a raw line to a `Command`: tokenize, split off the trailing
//! redirection clause, interpret it, and build the command variant.

use vstd::prelude::*;

use crate::chars::str_eq;
use crate::command::Command;
use crate::command::CommandModel;
use crate::command::ParseError;
use crate::command::Redirection;
use crate::command::RedirectionChannel;
use crate::command::RedirectionKind;
use crate::command::RedirectionModel;
use crate::lexer::spec_tokenize;
use crate::lexer::tokenize;
use crate::numbers::parse_i32;
use crate::numbers::spec_parse_i32;
use crate::utils::expand_home_path;
use crate::utils::spec_expand_home;

verus! {

/// The six redirection operators, recognized only as standalone tokens.
pub open spec fn is_redirect_operator(t: Seq<char>) -> bool {
    ||| t == ">"@
    ||| t == "1>"@
    ||| t == "2>"@
    ||| t == ">>"@
    ||| t == "1>>"@
    ||| t == "2>>"@
}

/// Decides `is_redirect_operator` on a concrete token.
pub fn redirect_operator(t: &str) -> (r: bool)
    ensures
        r == is_redirect_operator(t@),
{
    str_eq(t, ">") || str_eq(t, "1>") || str_eq(t, "2>") || str_eq(t, ">>") || str_eq(t, "1>>")
        || str_eq(t, "2>>")
}

/// The position of the first redirection operator, or the sequence's length
/// when none occurs.
pub open spec fn spec_first_operator(ts: Seq<Seq<char>>) -> int
    decreases ts.len(),
{
    if ts.len() == 0 {
        0
    } else if is_redirect_operator(ts[0]) {
        0
    } else {
        1 + spec_first_operator(ts.skip(1))
    }
}

/// `spec_first_operator` is the unique position with no operator before it
/// and, when it is not the length, an operator at it.
proof fn lemma_first_operator_at(ts: Seq<Seq<char>>, k: int)
    requires
        0 <= k <= ts.len(),
        forall|j: int| 0 <= j < k ==> !is_redirect_operator(ts[j]),
        k < ts.len() ==> is_redirect_operator(ts[k]),
    ensures
        spec_first_operator(ts) == k,
    decreases ts.len(),
{
    if ts.len() == 0 {
    } else if k == 0 {
    } else {
        assert(!is_redirect_operator(ts[0]));
        assert(forall|j: int| 0 <= j < k - 1 ==> ts.skip(1)[j] == ts[j + 1]);
        lemma_first_operator_at(ts.skip(1), k - 1);
    }
}

/// Without any redirection operator among the tokens, the whole sequence is
/// the command and the redirection clause is empty.
pub proof fn lemma_split_no_operator(ts: Seq<Seq<char>>)
    requires
        forall|i: int| 0 <= i < ts.len() ==> !is_redirect_operator(#[trigger] ts[i]),
    ensures
        spec_first_operator(ts) == ts.len(),
        ts.take(spec_first_operator(ts)) == ts,
        ts.skip(spec_first_operator(ts)) == Seq::<Seq<char>>::empty(),
{
    lemma_first_operator_at(ts, ts.len() as int);
    assert(ts.take(ts.len() as int) =~= ts);
    assert(ts.skip(ts.len() as int) =~= Seq::<Seq<char>>::empty());
}

/// Partitions a token sequence at the first redirection operator: everything
/// before it is the command, the operator and everything after it form the
/// redirection clause.  Without an operator the command is the whole
/// sequence and the clause is empty.
pub fn split_tokens(tokens: Vec<String>) -> (r: (Vec<String>, Vec<String>))
    ensures
        r.0.deep_view() == tokens.deep_view().take(spec_first_operator(tokens.deep_view())),
        r.1.deep_view() == tokens.deep_view().skip(spec_first_operator(tokens.deep_view())),
{
    let ghost ts = tokens.deep_view();
    let n = tokens.len();
    let mut k: usize = 0;
    while k < n && !redirect_operator(tokens[k].as_str())
        invariant
            k <= n,
            n == tokens.len(),
            ts == tokens.deep_view(),
            forall|j: int| 0 <= j < k ==> !is_redirect_operator(ts[j]),
        decreases n - k,
    {
        k = k + 1;
    }
    proof {
        lemma_first_operator_at(ts, k as int);
    }
    let mut command_tokens: Vec<String> = Vec::new();
    let mut j: usize = 0;
    proof {
        assert(command_tokens.deep_view() =~= ts.take(0));
    }
    while j < k
        invariant
            j <= k <= n,
            n == tokens.len(),
            ts == tokens.deep_view(),
            command_tokens.deep_view() == ts.take(j as int),
        decreases k - j,
    {
        let ghost before = command_tokens.deep_view();
        command_tokens.push(tokens[j].clone());
        proof {
            assert(command_tokens.deep_view() =~= before.push(ts[j as int]));
            assert(before.push(ts[j as int]) =~= ts.take(j as int + 1));
        }
        j = j + 1;
    }
    let mut redirection_tokens: Vec<String> = Vec::new();
    let mut j = k;
    proof {
        assert(redirection_tokens.deep_view() =~= ts.skip(k as int).take(0));
    }
    while j < n
        invariant
            k <= j <= n,
            n == tokens.len(),
            ts == tokens.deep_view(),
            redirection_tokens.deep_view() == ts.skip(k as int).take(j - k),
        decreases n - j,
    {
        let ghost before = redirection_tokens.deep_view();
        redirection_tokens.push(tokens[j].clone());
        proof {
            assert(redirection_tokens.deep_view() =~= before.push(ts[j as int]));
            assert(before.push(ts[j as int]) =~= ts.skip(k as int).take(j - k + 1));
        }
        j = j + 1;
    }
    proof {
        assert(ts.skip(k as int).take(n - k) =~= ts.skip(k as int));
    }
    (command_tokens, redirection_tokens)
}

/// What the redirection clause means: nothing when it is empty or its first
/// token is no operator; otherwise the operator fixes mode and channel and
/// the second token is the destination path, which must be present.
pub open spec fn spec_parse_redirection(ts: Seq<Seq<char>>) -> Result<
    Option<RedirectionModel>,
    ParseError,
> {
    if ts.len() == 0 {
        Ok(None)
    } else if ts[0] == ">"@ || ts[0] == "1>"@ {
        if ts.len() < 2 {
            Err(ParseError::MissingRedirectionTarget)
        } else {
            Ok(
                Some(
                    RedirectionModel {
                        kind: RedirectionKind::Redirect,
                        channel: RedirectionChannel::Stdout,
                        file: ts[1],
                    },
                ),
            )
        }
    } else if ts[0] == "2>"@ {
        if ts.len() < 2 {
            Err(ParseError::MissingRedirectionTarget)
        } else {
            Ok(
                Some(
                    RedirectionModel {
                        kind: RedirectionKind::Redirect,
                        channel: RedirectionChannel::Stderr,
                        file: ts[1],
                    },
                ),
            )
        }
    } else if ts[0] == ">>"@ || ts[0] == "1>>"@ {
        if ts.len() < 2 {
            Err(ParseError::MissingRedirectionTarget)
        } else {
            Ok(
                Some(
                    RedirectionModel {
                        kind: RedirectionKind::Append,
                        channel: RedirectionChannel::Stdout,
                        file: ts[1],
                    },
                ),
            )
        }
    } else if ts[0] == "2>>"@ {
        if ts.len() < 2 {
            Err(ParseError::MissingRedirectionTarget)
        } else {
            Ok(
                Some(
                    RedirectionModel {
                        kind: RedirectionKind::Append,
                        channel: RedirectionChannel::Stderr,
                        file: ts[1],
                    },
                ),
            )
        }
    } else {
        Ok(None)
    }
}

/// Interprets the redirection clause `split_tokens` produced.  An operator
/// with no destination path after it is a recoverable line-level error.
pub fn parse_redirection(redirection_tokens: &Vec<String>) -> (r: Result<
    Option<Redirection>,
    ParseError,
>)
    ensures
        match r {
            Ok(rd) => spec_parse_redirection(redirection_tokens.deep_view()) == Ok::<Option<RedirectionModel>, ParseError>(rd.deep_view()),
            Err(e) => spec_parse_redirection(redirection_tokens.deep_view()) == Err::<Option<RedirectionModel>, ParseError>(e),
        },
{
    let ghost ts = redirection_tokens.deep_view();
    if redirection_tokens.len() == 0 {
        return Ok(None);
    }
    let first = &redirection_tokens[0];
    if str_eq(first.as_str(), ">") || str_eq(first.as_str(), "1>") {
        if redirection_tokens.len() < 2 {
            Err(ParseError::MissingRedirectionTarget)
        } else {
            Ok(
                Some(
                    Redirection {
                        kind: RedirectionKind::Redirect,
                        channel: RedirectionChannel::Stdout,
                        file: redirection_tokens[1].clone(),
                    },
                ),
            )
        }
    } else if str_eq(first.as_str(), "2>") {
        if redirection_tokens.len() < 2 {
            Err(ParseError::MissingRedirectionTarget)
        } else {
            Ok(
                Some(
                    Redirection {
                        kind: RedirectionKind::Redirect,
                        channel: RedirectionChannel::Stderr,
                        file: redirection_tokens[1].clone(),
                    },
                ),
            )
        }
    } else if str_eq(first.as_str(), ">>") || str_eq(first.as_str(), "1>>") {
        if redirection_tokens.len() < 2 {
            Err(ParseError::MissingRedirectionTarget)
        } else {
            Ok(
                Some(
                    Redirection {
                        kind: RedirectionKind::Append,
                        channel: RedirectionChannel::Stdout,
                        file: redirection_tokens[1].clone(),
                    },
                ),
            )
        }
    } else if str_eq(first.as_str(), "2>>") {
        if redirection_tokens.len() < 2 {
            Err(ParseError::MissingRedirectionTarget)
        } else {
            Ok(
                Some(
                    Redirection {
                        kind: RedirectionKind::Append,
                        channel: RedirectionChannel::Stderr,
                        file: redirection_tokens[1].clone(),
                    },
                ),
            )
        }
    } else {
        Ok(None)
    }
}

/// What building a command from its tokens means.  The first token picks the
/// variant; `exit`, `type` and `cd` demand a well-formed argument, and an
/// empty token sequence is no command at all.
pub open spec fn spec_build(
    ts: Seq<Seq<char>>,
    rd: Option<RedirectionModel>,
    home: Seq<char>,
) -> Result<CommandModel, ParseError> {
    if ts.len() == 0 {
        Err(ParseError::EmptyCommand)
    } else if ts[0] == "echo"@ {
        Ok(CommandModel::Echo { args: ts.skip(1), redirection: rd })
    } else if ts[0] == "exit"@ {
        if ts.len() > 1 {
            match spec_parse_i32(ts[1]) {
                Some(v) => Ok(CommandModel::Exit { _arg: v }),
                None => Err(ParseError::InvalidExitCode),
            }
        } else {
            Ok(CommandModel::Exit { _arg: 0 })
        }
    } else if ts[0] == "type"@ {
        if ts.len() > 1 {
            Ok(CommandModel::Type { arg: ts[1], redirection: rd })
        } else {
            Err(ParseError::MissingTypeArgument)
        }
    } else if ts[0] == "pwd"@ {
        Ok(CommandModel::Pwd { redirection: rd })
    } else if ts[0] == "cd"@ {
        if ts.len() > 1 {
            Ok(CommandModel::Cd { arg: spec_expand_home(ts[1], home) })
        } else {
            Err(ParseError::MissingCdArgument)
        }
    } else if ts[0] == "cat"@ {
        Ok(
            CommandModel::Cat {
                args: ts.skip(1).map_values(|p: Seq<char>| spec_expand_home(p, home)),
                redirection: rd,
            },
        )
    } else {
        Ok(CommandModel::External { name: ts[0], args: ts.skip(1), redirection: rd })
    }
}

/// Clones the tokens after the command name, as a command's argument list.
fn tail_args(tokens: &Vec<String>) -> (r: Vec<String>)
    requires
        tokens.len() >= 1,
    ensures
        r.deep_view() == tokens.deep_view().skip(1),
{
    let ghost ts = tokens.deep_view();
    let mut args: Vec<String> = Vec::new();
    let mut j: usize = 1;
    proof {
        assert(args.deep_view() =~= ts.skip(1).take(0));
    }
    while j < tokens.len()
        invariant
            1 <= j <= tokens.len(),
            ts == tokens.deep_view(),
            args.deep_view() == ts.skip(1).take(j - 1),
        decreases tokens.len() - j,
    {
        let ghost before = args.deep_view();
        args.push(tokens[j].clone());
        proof {
            assert(args.deep_view() =~= before.push(ts[j as int]));
            assert(before.push(ts[j as int]) =~= ts.skip(1).take(j as int));
        }
        j = j + 1;
    }
    proof {
        assert(ts.skip(1).take(tokens.len() - 1) =~= ts.skip(1));
    }
    args
}

/// Builds the command the tokens describe, attaching the redirection; `cd`
/// and `cat` arguments go through home expansion.
pub fn parse(command_tokens: &Vec<String>, redirection: Option<Redirection>, home: &str) -> (r:
    Result<Command, ParseError>)
    ensures
        match r {
            Ok(c) => spec_build(command_tokens.deep_view(), redirection.deep_view(), home@) == Ok::<CommandModel, ParseError>(
                c@,
            ),
            Err(e) => spec_build(command_tokens.deep_view(), redirection.deep_view(), home@) == Err::<CommandModel, ParseError>(
                e,
            ),
        },
{
    let ghost ts = command_tokens.deep_view();
    if command_tokens.len() == 0 {
        return Err(ParseError::EmptyCommand);
    }
    let head = &command_tokens[0];
    if str_eq(head.as_str(), "echo") {
        Ok(Command::Echo { args: tail_args(command_tokens), redirection })
    } else if str_eq(head.as_str(), "exit") {
        if command_tokens.len() > 1 {
            match parse_i32(command_tokens[1].as_str()) {
                Some(v) => Ok(Command::Exit { _arg: v }),
                None => Err(ParseError::InvalidExitCode),
            }
        } else {
            Ok(Command::Exit { _arg: 0 })
        }
    } else if str_eq(head.as_str(), "type") {
        if command_tokens.len() > 1 {
            Ok(Command::Type { arg: command_tokens[1].clone(), redirection })
        } else {
            Err(ParseError::MissingTypeArgument)
        }
    } else if str_eq(head.as_str(), "pwd") {
        Ok(Command::Pwd { redirection })
    } else if str_eq(head.as_str(), "cd") {
        if command_tokens.len() > 1 {
            Ok(Command::Cd { arg: expand_home_path(command_tokens[1].as_str(), home) })
        } else {
            Err(ParseError::MissingCdArgument)
        }
    } else if str_eq(head.as_str(), "cat") {
        let mut args: Vec<String> = Vec::new();
        let mut j: usize = 1;
        let ghost expanded = ts.skip(1).map_values(|p: Seq<char>| spec_expand_home(p, home@));
        proof {
            assert(args.deep_view() =~= expanded.take(0));
        }
        while j < command_tokens.len()
            invariant
                1 <= j <= command_tokens.len(),
                ts == command_tokens.deep_view(),
                expanded == ts.skip(1).map_values(|p: Seq<char>| spec_expand_home(p, home@)),
                args.deep_view() == expanded.take(j - 1),
            decreases command_tokens.len() - j,
        {
            let ghost before = args.deep_view();
            args.push(expand_home_path(command_tokens[j].as_str(), home));
            proof {
                assert(args.deep_view() =~= before.push(expanded[j - 1]));
                assert(before.push(expanded[j - 1]) =~= expanded.take(j as int));
            }
            j = j + 1;
        }
        proof {
            assert(expanded.take(command_tokens.len() - 1) =~= expanded);
        }
        Ok(Command::Cat { args, redirection })
    } else {
        Ok(Command::External { name: head.clone(), args: tail_args(command_tokens), redirection })
    }
}

/// What parsing one raw line means, from characters to command.
pub open spec fn spec_parse_command(line: Seq<char>, home: Seq<char>) -> Result<
    CommandModel,
    ParseError,
> {
    let toks = spec_tokenize(line);
    let k = spec_first_operator(toks);
    match spec_parse_redirection(toks.skip(k)) {
        Ok(rd) => spec_build(toks.take(k), rd, home),
        Err(e) => Err(e),
    }
}

/// Reads one raw input line into a command: tokenize, split off the trailing
/// redirection clause, interpret it, and build the command variant.
pub fn parse_command(line: &str, home: &str) -> (r: Result<Command, ParseError>)
    ensures
        match r {
            Ok(c) => spec_parse_command(line@, home@) == Ok::<CommandModel, ParseError>(c@),
            Err(e) => spec_parse_command(line@, home@) == Err::<CommandModel, ParseError>(e),
        },
{
    let tokens = tokenize(line);
    let (command_tokens, redirection_tokens) = split_tokens(tokens);
    match parse_redirection(&redirection_tokens) {
        Ok(redirection) => parse(&command_tokens, redirection, home),
        Err(e) => Err(e),
    }
}

} // verus!
