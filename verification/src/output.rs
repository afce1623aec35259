//! The text commands produce: the `echo` line, the `type` report, and the
//! error messages of the recoverable failures.

use vstd::prelude::*;

use crate::command::Command;
use crate::command::spec_is_builtin;

verus! {

/// The arguments joined with single spaces, in order.
pub open spec fn spec_join_spaces(ts: Seq<Seq<char>>) -> Seq<char>
    decreases ts.len(),
{
    if ts.len() == 0 {
        Seq::empty()
    } else if ts.len() == 1 {
        ts[0]
    } else {
        ts[0] + seq![' '] + spec_join_spaces(ts.skip(1))
    }
}

/// Joining one more word appends a space and the word.
proof fn lemma_join_spaces_push(ts: Seq<Seq<char>>, w: Seq<char>)
    ensures
        spec_join_spaces(ts.push(w)) == if ts.len() == 0 {
            w
        } else {
            spec_join_spaces(ts) + seq![' '] + w
        },
    decreases ts.len(),
{
    if ts.len() == 0 {
        assert(ts.push(w)[0] == w);
    } else if ts.len() == 1 {
        assert(ts.push(w)[0] == ts[0]);
        assert(ts.push(w).skip(1) =~= seq![w]);
        assert(spec_join_spaces(seq![w]) == w);
    } else {
        assert(ts.push(w)[0] == ts[0]);
        assert(ts.push(w).skip(1) =~= ts.skip(1).push(w));
        lemma_join_spaces_push(ts.skip(1), w);
        assert(ts[0] + seq![' '] + (spec_join_spaces(ts.skip(1)) + seq![' '] + w) =~= (ts[0]
            + seq![' '] + spec_join_spaces(ts.skip(1))) + seq![' '] + w);
    }
}

/// What `echo` prints: its arguments joined with single spaces, then a
/// newline.
pub fn echo_line(args: &Vec<String>) -> (r: String)
    ensures
        r@ == spec_join_spaces(args.deep_view()).push('\n'),
{
    let ghost ts = args.deep_view();
    let mut out = String::new();
    let mut i: usize = 0;
    proof {
        assert(ts.take(0) =~= Seq::<Seq<char>>::empty());
    }
    while i < args.len()
        invariant
            i <= args.len(),
            ts == args.deep_view(),
            out@ == spec_join_spaces(ts.take(i as int)),
        decreases args.len() - i,
    {
        if i > 0 {
            out.push(' ');
        }
        out.append(args[i].as_str());
        proof {
            lemma_join_spaces_push(ts.take(i as int), ts[i as int]);
            assert(ts.take(i as int).push(ts[i as int]) =~= ts.take(i as int + 1));
            if i > 0 {
                assert(spec_join_spaces(ts.take(i as int)).push(' ') + ts[i as int]
                    =~= spec_join_spaces(ts.take(i as int)) + seq![' '] + ts[i as int]);
            } else {
                assert(spec_join_spaces(ts.take(0int)) + ts[0int] =~= ts[0int]);
            }
        }
        i = i + 1;
    }
    proof {
        assert(ts.take(args.len() as int) =~= ts);
    }
    out.push('\n');
    out
}

/// What `type` reports for a name: a builtin is named as such without any
/// path lookup; otherwise the resolved path decides between the full
/// location and a not-found report.
pub open spec fn spec_type_output(name: Seq<char>, resolved: Option<Seq<char>>) -> Seq<char> {
    if spec_is_builtin(name) {
        name + " is a shell builtin\n"@
    } else {
        match resolved {
            Some(path) => name + " is "@ + path + "\n"@,
            None => name + ": not found\n"@,
        }
    }
}

/// A builtin name is reported as a shell builtin whatever any path search
/// would have said: the lookup result cannot change the report.
pub proof fn lemma_type_builtin_ignores_lookup(
    name: Seq<char>,
    r1: Option<Seq<char>>,
    r2: Option<Seq<char>>,
)
    requires
        spec_is_builtin(name),
    ensures
        spec_type_output(name, r1) == spec_type_output(name, r2),
{
}

/// Builds the `type` builtin's report from the name and the path-search
/// result the caller supplies; a builtin name never needs that result.
pub fn type_output(arg: &str, resolved: &Option<String>) -> (r: String)
    ensures
        r@ == spec_type_output(arg@, resolved.deep_view()),
{
    let mut out = String::from_str(arg);
    if Command::is_builtin(arg) {
        out.append(" is a shell builtin\n");
        out
    } else {
        match resolved {
            Some(path) => {
                out.append(" is ");
                out.append(path.as_str());
                out.append("\n");
                out
            },
            None => {
                out.append(": not found\n");
                out
            },
        }
    }
}

/// The report for a name that resolves to no program: `<name>: command not
/// found`.
pub fn command_not_found_message(name: &str) -> (r: String)
    ensures
        r@ == name@ + ": command not found\n"@,
{
    let mut out = String::from_str(name);
    out.append(": command not found\n");
    out
}

/// The report for a `cat` target that does not exist:
/// `cat: <file>: No such file or directory`.
pub fn cat_missing_file_message(path: &str) -> (r: String)
    ensures
        r@ == "cat: "@ + path@ + ": No such file or directory\n"@,
{
    let mut out = String::from_str("cat: ");
    out.append(path);
    out.append(": No such file or directory\n");
    out
}

/// The report for a `cd` into a directory that does not exist:
/// `cd: <path>: No such file or directory`.
pub fn cd_error_message(path: &str) -> (r: String)
    ensures
        r@ == "cd: "@ + path@ + ": No such file or directory\n"@,
{
    let mut out = String::from_str("cd: ");
    out.append(path);
    out.append(": No such file or directory\n");
    out
}

} // verus!
