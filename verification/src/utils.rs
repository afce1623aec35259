//! Small path helpers: `~`-expansion against a given home directory, and
//! splitting a colon-separated directory list as a `PATH`-like variable
//! holds it.

use vstd::prelude::*;

verus! {

/// A path whose first character is `~` has that character replaced by the
/// home directory; any other path is unchanged.
pub open spec fn spec_expand_home(path: Seq<char>, home: Seq<char>) -> Seq<char> {
    if path.len() > 0 && path[0] == '~' {
        home + path.skip(1)
    } else {
        path
    }
}

/// Expands a leading `~` to the given home directory, preserving the
/// remainder of the path unchanged.
pub fn expand_home_path(path: &str, home: &str) -> (r: String)
    ensures
        r@ == spec_expand_home(path@, home@),
{
    let len = path.unicode_len();
    if len > 0 && path.get_char(0) == '~' {
        let mut out = String::from_str(home);
        let rest = path.substring_char(1, len);
        out.append(rest);
        out
    } else {
        path.to_owned()
    }
}

/// The pieces of a colon-separated list: every `:` ends a piece, and the
/// trailing piece is kept even when it is empty.
pub open spec fn colon_split_from(done: Seq<Seq<char>>, piece: Seq<char>, s: Seq<char>) -> Seq<
    Seq<char>,
>
    decreases s.len(),
{
    if s.len() == 0 {
        done.push(piece)
    } else if s[0] == ':' {
        colon_split_from(done.push(piece), Seq::empty(), s.skip(1))
    } else {
        colon_split_from(done, piece.push(s[0]), s.skip(1))
    }
}

/// The directories a `PATH`-like variable lists, in order.
pub open spec fn spec_split_colon(s: Seq<char>) -> Seq<Seq<char>> {
    colon_split_from(Seq::empty(), Seq::empty(), s)
}

/// Splits a colon-separated directory list into its pieces, in listed order.
pub fn split_colon_list(s: &str) -> (r: Vec<String>)
    ensures
        r.deep_view() == spec_split_colon(s@),
{
    let len = s.unicode_len();
    let mut done: Vec<String> = Vec::new();
    let mut piece = String::new();
    let mut i: usize = 0;
    proof {
        assert(done.deep_view() =~= Seq::<Seq<char>>::empty());
        assert(s@.skip(0) =~= s@);
    }
    while i < len
        invariant
            i <= len,
            len == s@.len(),
            colon_split_from(done.deep_view(), piece@, s@.skip(i as int)) == spec_split_colon(s@),
        decreases len - i,
    {
        let c = s.get_char(i);
        proof {
            assert(s@.skip(i as int)[0] == s@[i as int]);
            assert(s@.skip(i as int).skip(1) =~= s@.skip(i as int + 1));
        }
        if c == ':' {
            let ghost old_done = done.deep_view();
            let ghost old_piece = piece@;
            done.push(piece);
            piece = String::new();
            proof {
                assert(done.deep_view() =~= old_done.push(old_piece));
            }
        } else {
            piece.push(c);
        }
        i = i + 1;
    }
    proof {
        assert(s@.skip(len as int) =~= Seq::<char>::empty());
    }
    let ghost old_done = done.deep_view();
    let ghost old_piece = piece@;
    done.push(piece);
    proof {
        assert(done.deep_view() =~= old_done.push(old_piece));
    }
    done
}

} // verus!
