//! What the tokenizer guarantees, proved against the lexing machine: plain
//! input is whitespace splitting, quoting and escaping resolve exactly as the
//! rules say, and joining plain words with spaces round-trips.

use vstd::prelude::*;

use crate::chars::is_shell_space;
use crate::lexer::LexState;
use crate::lexer::drop_leading_space;
use crate::lexer::drop_trailing_space;
use crate::lexer::lex_finish;
use crate::lexer::lex_init;
use crate::lexer::lex_run;
use crate::lexer::lex_step;
use crate::lexer::spec_tokenize;
use crate::lexer::spec_trim;
use crate::output::spec_join_spaces;

verus! {

/// No quote and no escape character anywhere: the lexer's special characters
/// are absent.
pub open spec fn is_plain(s: Seq<char>) -> bool {
    forall|i: int| 0 <= i < s.len() ==> s[i] != '\'' && s[i] != '"' && s[i] != '\\'
}

/// No whitespace character anywhere.
pub open spec fn no_space(s: Seq<char>) -> bool {
    forall|i: int| 0 <= i < s.len() ==> !is_shell_space(s[i])
}

/// The position of the first whitespace character, or the length when none
/// occurs.
pub open spec fn first_space(s: Seq<char>) -> int
    decreases s.len(),
{
    if s.len() == 0 {
        0
    } else if is_shell_space(s[0]) {
        0
    } else {
        1 + first_space(s.skip(1))
    }
}

/// `first_space` lies between 0 and the length, sees no whitespace before
/// itself, and whitespace at itself when it is not the length.
proof fn lemma_first_space_props(s: Seq<char>)
    ensures
        0 <= first_space(s) <= s.len(),
        forall|j: int| 0 <= j < first_space(s) ==> !is_shell_space(s[j]),
        first_space(s) < s.len() ==> is_shell_space(s[first_space(s)]),
    decreases s.len(),
{
    if s.len() > 0 && !is_shell_space(s[0]) {
        lemma_first_space_props(s.skip(1));
        assert forall|j: int| 0 <= j < first_space(s) implies !is_shell_space(s[j]) by {
            if j >= 1 {
                assert(s.skip(1)[j - 1] == s[j]);
                assert(!is_shell_space(s.skip(1)[j - 1]));
            }
        }
        if first_space(s) < s.len() {
            assert(s.skip(1)[first_space(s.skip(1))] == s[first_space(s)]);
        }
    }
}

/// In a no-whitespace word followed by whitespace (or nothing), the first
/// whitespace position is the word's length.
proof fn lemma_first_space_concat(w: Seq<char>, r: Seq<char>)
    requires
        no_space(w),
        r.len() == 0 || is_shell_space(r[0]),
    ensures
        first_space(w + r) == w.len(),
    decreases w.len(),
{
    if w.len() == 0 {
        assert(w + r =~= r);
    } else {
        assert((w + r)[0] == w[0]);
        assert((w + r).skip(1) =~= w.skip(1) + r);
        assert(no_space(w.skip(1)));
        lemma_first_space_concat(w.skip(1), r);
    }
}

/// The whitespace-split words of a line: leading whitespace is dropped, and
/// otherwise the word up to the next whitespace comes first.  Runs of
/// whitespace collapse and yield no empty words.
pub open spec fn ws_split(s: Seq<char>) -> Seq<Seq<char>>
    decreases s.len(),
    via ws_split_decreases
{
    if s.len() == 0 {
        Seq::empty()
    } else if is_shell_space(s[0]) {
        ws_split(s.skip(1))
    } else {
        seq![s.take(first_space(s))] + ws_split(s.skip(first_space(s)))
    }
}

#[via_fn]
proof fn ws_split_decreases(s: Seq<char>) {
    if s.len() > 0 && !is_shell_space(s[0]) {
        lemma_first_space_props(s);
    }
}

/// Splitting a no-whitespace word followed by whitespace (or nothing) yields
/// the word, then the split of the rest.
proof fn lemma_ws_split_word(w: Seq<char>, r: Seq<char>)
    requires
        no_space(w),
        w.len() > 0,
        r.len() == 0 || is_shell_space(r[0]),
    ensures
        ws_split(w + r) == seq![w] + ws_split(r),
{
    lemma_first_space_concat(w, r);
    assert((w + r)[0] == w[0]);
    assert((w + r).take(w.len() as int) =~= w);
    assert((w + r).skip(w.len() as int) =~= r);
}

/// The lexer on special-character-free input: starting outside all quoting
/// with a no-whitespace word in progress, it finishes with the words already
/// done, then the whitespace-split words of the in-progress word glued to
/// the rest of the input.
proof fn lemma_lex_plain_run(st: LexState, s: Seq<char>)
    requires
        !st.in_single,
        !st.in_double,
        !st.escape,
        is_plain(s),
        no_space(st.word),
    ensures
        lex_finish(lex_run(st, s)) == st.done + ws_split(st.word + s),
    decreases s.len(),
{
    if s.len() == 0 {
        assert(st.word + s =~= st.word);
        if st.word.len() == 0 {
            assert(ws_split(st.word) =~= Seq::<Seq<char>>::empty());
            assert(st.done + ws_split(st.word) =~= st.done);
        } else {
            lemma_ws_split_word(st.word, Seq::empty());
            assert(st.word + Seq::<char>::empty() =~= st.word);
            assert(ws_split(Seq::<char>::empty()) =~= Seq::<Seq<char>>::empty());
            assert(seq![st.word] + ws_split(Seq::<char>::empty()) =~= seq![st.word]);
            assert(st.done + ws_split(st.word) =~= st.done.push(st.word));
        }
    } else {
        let c = s[0];
        let rest = s.skip(1);
        let st1 = lex_step(st, c);
        assert(is_plain(rest) && forall|j: int| 0 <= j < rest.len() ==> rest[j] == s[j + 1]);
        assert(c != '\'' && c != '"' && c != '\\');
        if is_shell_space(c) {
            if st.word.len() > 0 {
                lemma_lex_plain_run(st1, rest);
                lemma_ws_split_word(st.word, seq![c] + rest);
                assert((seq![c] + rest)[0] == c);
                assert((seq![c] + rest).skip(1) =~= rest);
                assert(ws_split(seq![c] + rest) == ws_split(rest));
                assert(st.word + s =~= st.word + (seq![c] + rest));
                assert(st1.word + rest =~= rest);
                assert(Seq::<char>::empty() + rest =~= rest);
                assert(st.done + ws_split(st.word + s) =~= st.done.push(st.word) + ws_split(rest));
            } else {
                lemma_lex_plain_run(st1, rest);
                assert(st.word + s =~= s);
                assert(ws_split(s) == ws_split(rest));
                assert(st1.word + rest =~= rest);
            }
        } else {
            lemma_lex_plain_run(st1, rest);
            assert(st1.word == st.word.push(c));
            assert(no_space(st1.word)) by {
                assert(forall|j: int|
                    0 <= j < st.word.len() ==> st.word.push(c)[j] == st.word[j]);
            }
            assert(st.word + s =~= st.word.push(c) + rest);
        }
    }
}

/// Dropping leading whitespace keeps the special characters absent.
proof fn lemma_drop_leading_plain(s: Seq<char>)
    requires
        is_plain(s),
    ensures
        is_plain(drop_leading_space(s)),
    decreases s.len(),
{
    if s.len() > 0 && is_shell_space(s[0]) {
        assert(forall|j: int| 0 <= j < s.skip(1).len() ==> s.skip(1)[j] == s[j + 1]);
        lemma_drop_leading_plain(s.skip(1));
    }
}

/// Dropping trailing whitespace keeps the special characters absent.
proof fn lemma_drop_trailing_plain(s: Seq<char>)
    requires
        is_plain(s),
    ensures
        is_plain(drop_trailing_space(s)),
    decreases s.len(),
{
    if s.len() > 0 && is_shell_space(s.last()) {
        assert(forall|j: int|
            0 <= j < s.take(s.len() - 1).len() ==> s.take(s.len() - 1)[j] == s[j]);
        lemma_drop_trailing_plain(s.take(s.len() - 1));
    }
}

/// Whitespace at the end changes nothing about the split.
proof fn lemma_ws_split_append_space(t: Seq<char>, c: char)
    requires
        is_shell_space(c),
    ensures
        ws_split(t.push(c)) == ws_split(t),
    decreases t.len(),
{
    if t.len() == 0 {
        assert(t.push(c)[0] == c);
        assert(t.push(c).skip(1) =~= Seq::<char>::empty());
        assert(ws_split(t.push(c)) == ws_split(Seq::<char>::empty()));
        assert(ws_split(Seq::<char>::empty()) == Seq::<Seq<char>>::empty());
        assert(t =~= Seq::<char>::empty());
    } else if is_shell_space(t[0]) {
        assert(t.push(c)[0] == t[0]);
        assert(t.push(c).skip(1) =~= t.skip(1).push(c));
        lemma_ws_split_append_space(t.skip(1), c);
        assert(ws_split(t.push(c)) == ws_split(t.skip(1).push(c)));
        assert(ws_split(t) == ws_split(t.skip(1)));
    } else {
        lemma_first_space_props(t);
        let k = first_space(t);
        assert(first_space(t.push(c)) == k) by {
            let w = t.take(k);
            assert(no_space(w)) by {
                assert(forall|j: int| 0 <= j < k ==> w[j] == t[j]);
            }
            if k < t.len() {
                assert(t.push(c) =~= w + t.skip(k).push(c));
                assert(t.skip(k).push(c)[0] == t[k]);
                lemma_first_space_concat(w, t.skip(k).push(c));
            } else {
                assert(t.push(c) =~= w + seq![c]);
                lemma_first_space_concat(w, seq![c]);
            }
        }
        assert(t.push(c)[0] == t[0]);
        assert(t.push(c).take(k) =~= t.take(k));
        assert(t.push(c).skip(k) =~= t.skip(k).push(c));
        lemma_ws_split_append_space(t.skip(k), c);
        assert(ws_split(t.push(c)) == seq![t.push(c).take(first_space(t.push(c)))] + ws_split(
            t.push(c).skip(first_space(t.push(c))),
        ));
        assert(ws_split(t) == seq![t.take(k)] + ws_split(t.skip(k)));
    }
}

/// Dropping leading whitespace changes nothing about the split.
proof fn lemma_ws_split_drop_leading(s: Seq<char>)
    ensures
        ws_split(drop_leading_space(s)) == ws_split(s),
    decreases s.len(),
{
    if s.len() > 0 && is_shell_space(s[0]) {
        lemma_ws_split_drop_leading(s.skip(1));
    }
}

/// Dropping trailing whitespace changes nothing about the split.
proof fn lemma_ws_split_drop_trailing(s: Seq<char>)
    ensures
        ws_split(drop_trailing_space(s)) == ws_split(s),
    decreases s.len(),
{
    if s.len() > 0 && is_shell_space(s.last()) {
        let t = s.take(s.len() - 1);
        lemma_ws_split_drop_trailing(t);
        lemma_ws_split_append_space(t, s.last());
        assert(t.push(s.last()) =~= s);
    }
}

/// Running the machine over two pieces is running it over the first, then
/// the second.
proof fn lemma_lex_run_concat(st: LexState, a: Seq<char>, b: Seq<char>)
    ensures
        lex_run(st, a + b) == lex_run(lex_run(st, a), b),
    decreases a.len(),
{
    if a.len() == 0 {
        assert(a + b =~= b);
    } else {
        assert((a + b)[0] == a[0]);
        assert((a + b).skip(1) =~= a.skip(1) + b);
        lemma_lex_run_concat(lex_step(st, a[0]), a.skip(1), b);
    }
}

/// Running the machine over one character is one step.
proof fn lemma_lex_run_one(st: LexState, c: char)
    ensures
        lex_run(st, seq![c]) == lex_step(st, c),
{
    assert(seq![c].len() == 1);
    assert(seq![c][0] == c);
    assert(seq![c].skip(1) =~= Seq::<char>::empty());
    assert(lex_run(lex_step(st, c), Seq::<char>::empty()) == lex_step(st, c));
}

/// Inside single quotes every character is taken verbatim: whitespace,
/// backslashes and double quotes included; only a single quote can end the
/// mode.
proof fn lemma_in_single_run(st: LexState, w: Seq<char>)
    requires
        st.in_single,
        !st.in_double,
        !st.escape,
        forall|i: int| 0 <= i < w.len() ==> w[i] != '\'',
    ensures
        lex_run(st, w) == (LexState { word: st.word + w, ..st }),
    decreases w.len(),
{
    if w.len() == 0 {
        assert(st.word + w =~= st.word);
    } else {
        let st1 = lex_step(st, w[0]);
        assert(st1 == (LexState { word: st.word.push(w[0]), ..st }));
        assert(forall|j: int| 0 <= j < w.skip(1).len() ==> w.skip(1)[j] == w[j + 1]);
        lemma_in_single_run(st1, w.skip(1));
        assert(st.word.push(w[0]) + w.skip(1) =~= st.word + w);
    }
}

/// Single-quoted content is emitted verbatim as one word, embedded
/// whitespace and backslashes included; the quotes themselves are not
/// emitted.
pub proof fn lemma_single_quotes_verbatim(w: Seq<char>)
    requires
        w.len() > 0,
        forall|i: int| 0 <= i < w.len() ==> w[i] != '\'',
    ensures
        spec_tokenize(seq!['\''] + w + seq!['\'']) == seq![w],
{
    let q = seq!['\''];
    let s = q + w + q;
    assert(s[0] == '\'');
    assert(s.last() == '\'');
    assert(!is_shell_space('\''));
    assert(drop_leading_space(s) == s);
    assert(drop_trailing_space(s) == s);
    assert(s =~= q + (w + q));
    lemma_lex_run_concat(lex_init(), q, w + q);
    let st1 = lex_step(lex_init(), '\'');
    lemma_lex_run_one(lex_init(), '\'');
    assert(st1.in_single && !st1.in_double && !st1.escape);
    lemma_lex_run_concat(st1, w, q);
    lemma_in_single_run(st1, w);
    let st2 = lex_run(st1, w);
    assert(st2.word =~= w);
    let st3 = lex_step(st2, '\'');
    lemma_lex_run_one(st2, '\'');
    assert(lex_finish(st3) =~= seq![w]);
}

/// Inside double quotes a backslash escapes only `"`, `\`, `` ` `` and `$`;
/// before any other character the backslash itself is kept.
pub proof fn lemma_double_quote_escape(st: LexState, c: char)
    requires
        st.in_double,
        !st.in_single,
        !st.escape,
    ensures
        lex_run(st, seq!['\\', c]) == (LexState {
            word: if c == '"' || c == '\\' || c == '`' || c == '$' {
                st.word.push(c)
            } else {
                st.word.push('\\').push(c)
            },
            ..st
        }),
{
    let s = seq!['\\', c];
    assert(s =~= seq!['\\'] + seq![c]);
    lemma_lex_run_concat(st, seq!['\\'], seq![c]);
    let st1 = lex_step(st, '\\');
    lemma_lex_run_one(st, '\\');
    assert(st1.escape);
    lemma_lex_run_one(st1, c);
    assert(lex_run(st, s) == lex_step(st1, c));
}

/// Outside all quoting a backslash escapes whatever character follows, a
/// quote or whitespace included: the character joins the word literally.
pub proof fn lemma_unquoted_backslash(st: LexState, c: char)
    requires
        !st.in_single,
        !st.in_double,
        !st.escape,
    ensures
        lex_run(st, seq!['\\', c]) == (LexState { word: st.word.push(c), ..st }),
{
    let s = seq!['\\', c];
    assert(s =~= seq!['\\'] + seq![c]);
    lemma_lex_run_concat(st, seq!['\\'], seq![c]);
    let st1 = lex_step(st, '\\');
    lemma_lex_run_one(st, '\\');
    assert(st1.escape);
    lemma_lex_run_one(st1, c);
    assert(lex_run(st, s) == lex_step(st1, c));
}

/// On a line without quote or escape characters, tokenizing is exactly
/// whitespace splitting: runs of whitespace collapse and the words come in
/// order.
pub proof fn lemma_tokenize_plain(s: Seq<char>)
    requires
        is_plain(s),
    ensures
        spec_tokenize(s) == ws_split(s),
{
    lemma_drop_leading_plain(s);
    lemma_drop_trailing_plain(drop_leading_space(s));
    lemma_lex_plain_run(lex_init(), spec_trim(s));
    assert(lex_init().word + spec_trim(s) =~= spec_trim(s));
    assert(lex_init().done + ws_split(spec_trim(s)) =~= ws_split(spec_trim(s)));
    lemma_ws_split_drop_trailing(drop_leading_space(s));
    lemma_ws_split_drop_leading(s);
}

/// Joining words that hold no special characters with spaces yields a line
/// that holds none either.
proof fn lemma_join_plain(ts: Seq<Seq<char>>)
    requires
        forall|i: int| 0 <= i < ts.len() ==> is_plain(#[trigger] ts[i]),
    ensures
        is_plain(spec_join_spaces(ts)),
    decreases ts.len(),
{
    if ts.len() <= 1 {
    } else {
        assert(forall|i: int| 0 <= i < ts.skip(1).len() ==> ts.skip(1)[i] == ts[i + 1]);
        lemma_join_plain(ts.skip(1));
        let joined = ts[0] + seq![' '] + spec_join_spaces(ts.skip(1));
        assert forall|i: int| 0 <= i < joined.len() implies joined[i] != '\'' && joined[i] != '"'
            && joined[i] != '\\' by {
            if i < ts[0].len() {
                assert(joined[i] == ts[0][i]);
            } else if i == ts[0].len() {
                assert(joined[i] == ' ');
            } else {
                assert(joined[i] == spec_join_spaces(ts.skip(1))[i - ts[0].len() - 1]);
            }
        }
    }
}

/// Whitespace splitting undoes a space-join of non-empty, whitespace-free
/// words.
proof fn lemma_ws_split_join(ts: Seq<Seq<char>>)
    requires
        forall|i: int| 0 <= i < ts.len() ==> (#[trigger] ts[i]).len() > 0 && no_space(ts[i]),
    ensures
        ws_split(spec_join_spaces(ts)) == ts,
    decreases ts.len(),
{
    if ts.len() == 0 {
        assert(ws_split(spec_join_spaces(ts)) =~= ts);
    } else if ts.len() == 1 {
        lemma_ws_split_word(ts[0], Seq::empty());
        assert(ts[0] + Seq::<char>::empty() =~= ts[0]);
        assert(ws_split(Seq::<char>::empty()) =~= Seq::<Seq<char>>::empty());
        assert(seq![ts[0]] + ws_split(Seq::<char>::empty()) =~= ts);
    } else {
        let r = seq![' '] + spec_join_spaces(ts.skip(1));
        assert(spec_join_spaces(ts) =~= ts[0] + r);
        assert(r[0] == ' ');
        lemma_ws_split_word(ts[0], r);
        assert(r.skip(1) =~= spec_join_spaces(ts.skip(1)));
        assert(ws_split(r) == ws_split(spec_join_spaces(ts.skip(1))));
        assert(forall|i: int| 0 <= i < ts.skip(1).len() ==> ts.skip(1)[i] == ts[i + 1]);
        lemma_ws_split_join(ts.skip(1));
        assert(seq![ts[0]] + ts.skip(1) =~= ts);
    }
}

/// The round trip: any list of non-empty words that hold no whitespace, no
/// quote and no escape characters is returned unchanged by tokenizing its
/// space-joined reconstruction.
pub proof fn lemma_round_trip(ts: Seq<Seq<char>>)
    requires
        forall|i: int|
            0 <= i < ts.len() ==> (#[trigger] ts[i]).len() > 0 && no_space(ts[i]) && is_plain(
                ts[i],
            ),
    ensures
        spec_tokenize(spec_join_spaces(ts)) == ts,
{
    lemma_join_plain(ts);
    lemma_tokenize_plain(spec_join_spaces(ts));
    lemma_ws_split_join(ts);
}

} // verus!
