//! The tokenizer: turns one raw input line into shell-syntax words, resolving
//! single quotes, double quotes and backslash escapes.
//!
//! The meaning of a line is given by a small character-at-a-time state
//! machine, `lex_step`, threaded over the trimmed input by `lex_run`.  The
//! executable `tokenize` is proved to return exactly what the machine yields.

use vstd::prelude::*;

use crate::chars::is_shell_space;
use crate::chars::shell_space;

verus! {

/// Relies on `String::push`: appends the given character to the end of the
/// string.
pub assume_specification[ String::push ](s: &mut String, ch: char)
    ensures
        final (s)@ == old(s)@.push(ch),
;

/// The lexer's state between two characters: the words already finished, the
/// word being accumulated, whether the scan stands inside single or double
/// quotes, and whether a backslash is waiting for the character it escapes.
pub struct LexState {
    pub done: Seq<Seq<char>>,
    pub word: Seq<char>,
    pub in_single: bool,
    pub in_double: bool,
    pub escape: bool,
}

/// The state before any character has been read.
pub open spec fn lex_init() -> LexState {
    LexState {
        done: Seq::empty(),
        word: Seq::empty(),
        in_single: false,
        in_double: false,
        escape: false,
    }
}

/// One character of lexing, in the rules' priority order: a pending escape
/// consumes the character (inside double quotes only `"`, `\`, `` ` ``, `$`
/// drop the backslash; elsewhere every character does); an unescaped quote
/// toggles its mode; a backslash outside single quotes starts an escape;
/// unquoted whitespace finishes the current word; anything else joins it.
pub open spec fn lex_step(st: LexState, c: char) -> LexState {
    if st.escape {
        if st.in_double && (c == '"' || c == '\\' || c == '`' || c == '$') {
            LexState { word: st.word.push(c), escape: false, ..st }
        } else if st.in_double {
            LexState { word: st.word.push('\\').push(c), escape: false, ..st }
        } else {
            LexState { word: st.word.push(c), escape: false, ..st }
        }
    } else if c == '\'' && !st.in_double {
        LexState { in_single: !st.in_single, ..st }
    } else if c == '"' && !st.in_single {
        LexState { in_double: !st.in_double, ..st }
    } else if c == '\\' && !st.in_single {
        LexState { escape: true, ..st }
    } else if is_shell_space(c) && !st.in_single && !st.in_double {
        if st.word.len() > 0 {
            LexState { done: st.done.push(st.word), word: Seq::empty(), ..st }
        } else {
            st
        }
    } else {
        LexState { word: st.word.push(c), ..st }
    }
}

/// The machine run over a whole character sequence.
pub open spec fn lex_run(st: LexState, s: Seq<char>) -> LexState
    decreases s.len(),
{
    if s.len() == 0 {
        st
    } else {
        lex_run(lex_step(st, s[0]), s.skip(1))
    }
}

/// After the scan a non-empty trailing word is flushed; unterminated quotes
/// and a trailing unresolved escape are accepted permissively.
pub open spec fn lex_finish(st: LexState) -> Seq<Seq<char>> {
    if st.word.len() > 0 {
        st.done.push(st.word)
    } else {
        st.done
    }
}

/// The input without its leading whitespace.
pub open spec fn drop_leading_space(s: Seq<char>) -> Seq<char>
    decreases s.len(),
{
    if s.len() > 0 && is_shell_space(s[0]) {
        drop_leading_space(s.skip(1))
    } else {
        s
    }
}

/// The input without its trailing whitespace.
pub open spec fn drop_trailing_space(s: Seq<char>) -> Seq<char>
    decreases s.len(),
{
    if s.len() > 0 && is_shell_space(s.last()) {
        drop_trailing_space(s.take(s.len() - 1))
    } else {
        s
    }
}

/// The input without leading and trailing whitespace.
pub open spec fn spec_trim(s: Seq<char>) -> Seq<char> {
    drop_trailing_space(drop_leading_space(s))
}

/// What tokenizing a raw line yields: the machine run over the trimmed line,
/// with the trailing word flushed.
pub open spec fn spec_tokenize(s: Seq<char>) -> Seq<Seq<char>> {
    lex_finish(lex_run(lex_init(), spec_trim(s)))
}

/// Running the machine one character further is one more step.
proof fn lemma_lex_run_push(st: LexState, s: Seq<char>, c: char)
    ensures
        lex_run(st, s.push(c)) == lex_step(lex_run(st, s), c),
    decreases s.len(),
{
    assert(s.push(c).len() == s.len() + 1);
    if s.len() == 0 {
        assert(s.push(c)[0] == c);
        assert(s.push(c).skip(1) =~= Seq::<char>::empty());
        assert(lex_run(st, s.push(c)) == lex_run(lex_step(st, c), Seq::<char>::empty()));
        assert(lex_run(st, s) == st);
    } else {
        assert(s.push(c)[0] == s[0]);
        assert(s.push(c).skip(1) =~= s.skip(1).push(c));
        assert(lex_run(st, s.push(c)) == lex_run(lex_step(st, s[0]), s.skip(1).push(c)));
        lemma_lex_run_push(lex_step(st, s[0]), s.skip(1), c);
        assert(lex_run(st, s) == lex_run(lex_step(st, s[0]), s.skip(1)));
    }
}

/// Splits one raw input line into its shell-syntax words.
pub fn tokenize(input: &str) -> (tokens: Vec<String>)
    ensures
        tokens.deep_view() == spec_tokenize(input@),
{
    let len = input.unicode_len();

    let mut start: usize = 0;
    proof {
        assert(input@.skip(0) =~= input@);
    }
    while start < len && shell_space(input.get_char(start))
        invariant
            start <= len,
            len == input@.len(),
            drop_leading_space(input@) == drop_leading_space(input@.skip(start as int)),
        decreases len - start,
    {
        proof {
            assert(input@.skip(start as int).skip(1) =~= input@.skip(start as int + 1));
        }
        start = start + 1;
    }
    proof {
        if start < len {
            assert(drop_leading_space(input@.skip(start as int)) == input@.skip(start as int));
        } else {
            assert(input@.skip(start as int) =~= Seq::<char>::empty());
        }
        assert(drop_leading_space(input@) == input@.skip(start as int));
    }

    let mut end: usize = len;
    while end > start && shell_space(input.get_char(end - 1))
        invariant
            start <= end <= len,
            len == input@.len(),
            drop_leading_space(input@) == input@.skip(start as int),
            drop_trailing_space(input@.skip(start as int)) == drop_trailing_space(
                input@.subrange(start as int, end as int),
            ),
        decreases end,
    {
        proof {
            let t = input@.subrange(start as int, end as int);
            assert(t.last() == input@[end - 1]);
            assert(t.take(t.len() - 1) =~= input@.subrange(start as int, end as int - 1));
        }
        end = end - 1;
    }
    proof {
        let t = input@.subrange(start as int, end as int);
        if end > start {
            assert(t.last() == input@[end - 1]);
            assert(drop_trailing_space(t) == t);
        } else {
            assert(t =~= Seq::<char>::empty());
        }
        assert(input@.skip(start as int) =~= input@.subrange(start as int, len as int));
        assert(spec_trim(input@) == input@.subrange(start as int, end as int));
    }

    let ghost trimmed = input@.subrange(start as int, end as int);
    let mut tokens: Vec<String> = Vec::new();
    let mut word = String::new();
    let mut in_single = false;
    let mut in_double = false;
    let mut escape = false;
    let mut i = start;
    proof {
        assert(input@.subrange(start as int, start as int) =~= Seq::<char>::empty());
        assert(tokens.deep_view() =~= Seq::<Seq<char>>::empty());
    }
    while i < end
        invariant
            start <= i <= end <= len,
            len == input@.len(),
            trimmed == input@.subrange(start as int, end as int),
            ({
                let st = lex_run(lex_init(), input@.subrange(start as int, i as int));
                &&& tokens.deep_view() == st.done
                &&& word@ == st.word
                &&& in_single == st.in_single
                &&& in_double == st.in_double
                &&& escape == st.escape
            }),
        decreases end - i,
    {
        let ghost prefix = input@.subrange(start as int, i as int);
        let ghost st = lex_run(lex_init(), prefix);
        let c = input.get_char(i);
        proof {
            lemma_lex_run_push(lex_init(), prefix, c);
            assert(prefix.push(c) =~= input@.subrange(start as int, i as int + 1));
        }
        if escape {
            if in_double && (c == '"' || c == '\\' || c == '`' || c == '$') {
                word.push(c);
                escape = false;
            } else if in_double {
                word.push('\\');
                word.push(c);
                escape = false;
            } else {
                word.push(c);
                escape = false;
            }
        } else if c == '\'' && !in_double {
            in_single = !in_single;
        } else if c == '"' && !in_single {
            in_double = !in_double;
        } else if c == '\\' && !in_single {
            escape = true;
        } else if shell_space(c) && !in_single && !in_double {
            if !word.as_str().is_empty() {
                let ghost old_tokens = tokens.deep_view();
                tokens.push(word);
                word = String::new();
                proof {
                    assert(tokens.deep_view() =~= old_tokens.push(st.word));
                }
            }
        } else {
            word.push(c);
        }
        i = i + 1;
    }
    if !word.as_str().is_empty() {
        let ghost old_tokens = tokens.deep_view();
        let ghost st = lex_run(lex_init(), trimmed);
        tokens.push(word);
        proof {
            assert(tokens.deep_view() =~= old_tokens.push(st.word));
        }
    }
    tokens
}

} // verus!
