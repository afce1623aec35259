//! The output router: given a chunk of command output, the channel it
//! belongs to, and the optional redirection directive, decide what the
//! redirection's target file holds afterwards and what reaches the terminal.
//!
//! The file is modelled as `Option<Seq<char>>`: `None` when it does not
//! exist, `Some(content)` when it does.  The router never touches a disk;
//! the caller applies the decision.

use vstd::prelude::*;

use crate::command::Redirection;
use crate::command::RedirectionChannel;
use crate::command::RedirectionKind;
use crate::command::RedirectionModel;

verus! {

/// Whether a chunk belongs to the channel the redirection captures: stdout
/// output of a successful command, or stderr output of a failed one.
pub open spec fn chunk_matches(rd: RedirectionModel, success: bool) -> bool {
    ||| success && rd.channel == RedirectionChannel::Stdout
    ||| !success && rd.channel == RedirectionChannel::Stderr
}

/// The target file's content right after the ensure-exists step: truncate
/// mode empties it, and append mode creates it empty when it is absent.
pub open spec fn ensured_content(rd: RedirectionModel, file: Option<Seq<char>>) -> Seq<char> {
    if rd.kind == RedirectionKind::Redirect || file is None {
        Seq::empty()
    } else {
        file->0
    }
}

/// One routing decision: the target file's new state and what is printed to
/// the terminal.  Without a redirection the chunk goes to the terminal and no
/// file is touched.  With one, the file is first ensured to exist; a chunk on
/// the captured channel is written to it (replacing in truncate mode,
/// extending in append mode), and a chunk on the other channel still reaches
/// the terminal.
pub open spec fn spec_route(
    text: Seq<char>,
    redirection: Option<RedirectionModel>,
    success: bool,
    file: Option<Seq<char>>,
) -> (Option<Seq<char>>, Option<Seq<char>>) {
    match redirection {
        None => (file, Some(text)),
        Some(rd) => {
            let base = ensured_content(rd, file);
            if chunk_matches(rd, success) {
                (Some(base + text), None)
            } else {
                (Some(base), Some(text))
            }
        },
    }
}

/// Routes one output chunk: hands back the target file's new state and the
/// text for the terminal, exactly as `spec_route` decides.
pub fn route_chunk(output: &str, redirection: &Option<Redirection>, success: bool, file: Option<
    String,
>) -> (r: (Option<String>, Option<String>))
    ensures
        (r.0.deep_view(), r.1.deep_view()) == spec_route(
            output@,
            redirection.deep_view(),
            success,
            file.deep_view(),
        ),
{
    match redirection {
        None => (file, Some(output.to_owned())),
        Some(rd) => {
            let base: String = if rd.kind == RedirectionKind::Redirect {
                String::new()
            } else {
                match file {
                    None => String::new(),
                    Some(content) => content,
                }
            };
            let captured = (success && rd.channel == RedirectionChannel::Stdout) || (!success
                && rd.channel == RedirectionChannel::Stderr);
            if captured {
                (Some(base.concat(output)), None)
            } else {
                (Some(base), Some(output.to_owned()))
            }
        },
    }
}

/// Routing the same chunk twice in truncate mode leaves the file holding the
/// chunk's text exactly once: the second run truncates before it writes.
pub proof fn lemma_route_truncate_idempotent(
    text: Seq<char>,
    rd: RedirectionModel,
    success: bool,
    file: Option<Seq<char>>,
)
    requires
        rd.kind == RedirectionKind::Redirect,
        chunk_matches(rd, success),
    ensures
        spec_route(text, Some(rd), success, file).0 == Some(text),
        spec_route(
            text,
            Some(rd),
            success,
            spec_route(text, Some(rd), success, file).0,
        ).0 == Some(text),
{
    assert(Seq::<char>::empty() + text =~= text);
}

/// Append mode against a missing file first creates it empty: even a chunk
/// on the other channel leaves an (empty) file behind.
pub proof fn lemma_append_creates_empty(text: Seq<char>, rd: RedirectionModel, success: bool)
    requires
        rd.kind == RedirectionKind::Append,
        !chunk_matches(rd, success),
    ensures
        spec_route(text, Some(rd), success, None).0 == Some(Seq::<char>::empty()),
{
}

/// Append mode against an existing file never re-truncates: a matching chunk
/// extends the present content.
pub proof fn lemma_append_no_retruncate(
    text: Seq<char>,
    rd: RedirectionModel,
    success: bool,
    content: Seq<char>,
)
    requires
        rd.kind == RedirectionKind::Append,
        chunk_matches(rd, success),
    ensures
        spec_route(text, Some(rd), success, Some(content)).0 == Some(content + text),
{
}

/// A chunk on the channel the redirection does not capture is printed to the
/// terminal as if no redirection existed, and contributes nothing to the
/// file: the file holds exactly what the ensure-exists step left, and in
/// append mode against an existing file that is the old content unchanged.
pub proof fn lemma_mismatch_passthrough(
    text: Seq<char>,
    rd: RedirectionModel,
    success: bool,
    file: Option<Seq<char>>,
)
    requires
        !chunk_matches(rd, success),
    ensures
        spec_route(text, Some(rd), success, file).1 == Some(text),
        spec_route(text, Some(rd), success, file).0 == Some(ensured_content(rd, file)),
        rd.kind == RedirectionKind::Append && file is Some ==> spec_route(
            text,
            Some(rd),
            success,
            file,
        ).0 == file,
{
}

} // verus!
