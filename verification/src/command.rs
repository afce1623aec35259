//! The command data model: the redirection directive, the closed sum of
//! command variants, the recoverable errors a malformed line yields, and the
//! membership test for builtin names.

use vstd::prelude::*;

use crate::chars::str_eq;

verus! {

/// The logical output stream a piece of text belongs to, independent of where
/// it is ultimately written.
#[derive(Clone, Copy, PartialEq, Eq, Structural, Debug)]
pub enum RedirectionChannel {
    Stdout,
    Stderr,
}

/// Whether a redirection replaces the file's contents or appends to them.
#[derive(Clone, Copy, PartialEq, Eq, Structural, Debug)]
pub enum RedirectionKind {
    Redirect,
    Append,
}

/// A parsed redirection clause: which channel is captured, whether the file
/// is truncated or appended, and the destination path.
#[derive(PartialEq, Eq, Debug)]
pub struct Redirection {
    pub kind: RedirectionKind,
    pub channel: RedirectionChannel,
    pub file: String,
}

/// The mathematical value of a `Redirection`.
pub struct RedirectionModel {
    pub kind: RedirectionKind,
    pub channel: RedirectionChannel,
    pub file: Seq<char>,
}

impl View for Redirection {
    type V = RedirectionModel;

    open spec fn view(&self) -> RedirectionModel {
        RedirectionModel { kind: self.kind, channel: self.channel, file: self.file@ }
    }
}

impl DeepView for Redirection {
    type V = RedirectionModel;

    open spec fn deep_view(&self) -> RedirectionModel {
        self@
    }
}

/// One parsed command line: a builtin with its arguments, or an external
/// program, with the optional redirection clause attached.
#[derive(PartialEq, Eq, Debug)]
pub enum Command {
    Echo { args: Vec<String>, redirection: Option<Redirection> },
    Exit { _arg: i32 },
    Type { arg: String, redirection: Option<Redirection> },
    External { name: String, args: Vec<String>, redirection: Option<Redirection> },
    Pwd { redirection: Option<Redirection> },
    Cd { arg: String },
    Cat { args: Vec<String>, redirection: Option<Redirection> },
}

/// The mathematical value of a `Command`.
pub enum CommandModel {
    Echo { args: Seq<Seq<char>>, redirection: Option<RedirectionModel> },
    Exit { _arg: int },
    Type { arg: Seq<char>, redirection: Option<RedirectionModel> },
    External { name: Seq<char>, args: Seq<Seq<char>>, redirection: Option<RedirectionModel> },
    Pwd { redirection: Option<RedirectionModel> },
    Cd { arg: Seq<char> },
    Cat { args: Seq<Seq<char>>, redirection: Option<RedirectionModel> },
}

impl View for Command {
    type V = CommandModel;

    open spec fn view(&self) -> CommandModel {
        match self {
            Command::Echo { args, redirection } => CommandModel::Echo {
                args: args.deep_view(),
                redirection: redirection.deep_view(),
            },
            Command::Exit { _arg } => CommandModel::Exit { _arg: *_arg as int },
            Command::Type { arg, redirection } => CommandModel::Type {
                arg: arg@,
                redirection: redirection.deep_view(),
            },
            Command::External { name, args, redirection } => CommandModel::External {
                name: name@,
                args: args.deep_view(),
                redirection: redirection.deep_view(),
            },
            Command::Pwd { redirection } => CommandModel::Pwd {
                redirection: redirection.deep_view(),
            },
            Command::Cd { arg } => CommandModel::Cd { arg: arg@ },
            Command::Cat { args, redirection } => CommandModel::Cat {
                args: args.deep_view(),
                redirection: redirection.deep_view(),
            },
        }
    }
}

/// A malformed builtin invocation, recoverable at the line level: the command
/// is not run, the read-eval loop goes on.
#[derive(Clone, Copy, PartialEq, Eq, Structural, Debug)]
pub enum ParseError {
    /// The line held no token at all.
    EmptyCommand,
    /// `exit` was given an argument that is not a valid 32-bit integer.
    InvalidExitCode,
    /// `type` was given no name to look up.
    MissingTypeArgument,
    /// `cd` was given no path.
    MissingCdArgument,
    /// A redirection operator stood last on the line, with no destination.
    MissingRedirectionTarget,
}

/// The names handled inside the interpreter itself.
pub open spec fn spec_is_builtin(name: Seq<char>) -> bool {
    ||| name == "echo"@
    ||| name == "exit"@
    ||| name == "type"@
    ||| name == "pwd"@
    ||| name == "cd"@
}

impl Command {
    /// Membership test against the builtin names; the `type` builtin uses it
    /// to short-circuit path lookup.
    pub fn is_builtin(arg: &str) -> (r: bool)
        ensures
            r == spec_is_builtin(arg@),
    {
        str_eq(arg, "echo") || str_eq(arg, "exit") || str_eq(arg, "type") || str_eq(arg, "pwd")
            || str_eq(arg, "cd")
    }
}

/// The interface the command executor implements: running a command performs
/// its effects (spawning, filesystem access, terminal output), which stand
/// outside this library.
pub trait Executable {
    fn execute(&self);
}

} // verus!
