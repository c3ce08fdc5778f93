//! Splitting a line of input on whitespace into tokens. Whitespace here is
//! the ASCII set: space, tab, line feed and carriage return. Tokens are the
//! maximal runs of non-whitespace characters, in order; delimiters never
//! appear in a token and a line of only whitespace yields no tokens.

use vstd::prelude::*;

use crate::semantics::tok_views;

verus! {

/// The characters that separate tokens.
pub open spec fn is_space(c: char) -> bool {
    c == ' ' || c == '\t' || c == '\n' || c == '\r'
}

/// The tokens of `s` after the tokens already cut, with `cur` the partial
/// token whose characters were read but not yet closed.
pub open spec fn tokenize_from(s: Seq<char>, cur: Seq<char>) -> Seq<Seq<char>>
    decreases s.len(),
{
    if s.len() == 0 {
        if cur.len() == 0 {
            Seq::empty()
        } else {
            seq![cur]
        }
    } else if is_space(s[0]) {
        if cur.len() == 0 {
            tokenize_from(s.skip(1), Seq::empty())
        } else {
            seq![cur] + tokenize_from(s.skip(1), Seq::empty())
        }
    } else {
        tokenize_from(s.skip(1), cur.push(s[0]))
    }
}

/// The whitespace-delimited tokens of `s`, in order.
pub open spec fn spec_tokenize(s: Seq<char>) -> Seq<Seq<char>> {
    tokenize_from(s, Seq::empty())
}

/// Decides whether `c` separates tokens.
fn is_space_char(c: char) -> (r: bool)
    ensures
        r == is_space(c),
{
    c == ' ' || c == '\t' || c == '\n' || c == '\r'
}

/// Splits `s` on whitespace into its tokens, exactly as `spec_tokenize`
/// describes them.
#[verifier::loop_isolation(false)]
pub fn tokenize(s: &str) -> (tokens: Vec<String>)
    ensures
        tok_views(tokens@) == spec_tokenize(s@),
{
    let n = s.unicode_len();
    let mut tokens: Vec<String> = Vec::new();
    let mut start: usize = 0;
    let mut i: usize = 0;
    proof {
        assert(s@.skip(0) =~= s@);
        assert(s@.subrange(0, 0) =~= Seq::<char>::empty());
        assert(tok_views(tokens@) =~= Seq::<Seq<char>>::empty());
    }
    while i < n
        invariant
            0 <= start <= i <= n,
            n == s@.len(),
            tok_views(tokens@) + tokenize_from(s@.skip(i as int), s@.subrange(start as int, i as int))
                =~= spec_tokenize(s@),
        decreases n - i,
    {
        let ghost cur = s@.subrange(start as int, i as int);
        proof {
            assert(s@.skip(i as int)[0] == s@[i as int]);
            assert(s@.skip(i as int).skip(1) =~= s@.skip(i + 1));
        }
        let c = s.get_char(i);
        if is_space_char(c) {
            if start < i {
                let t = s.substring_char(start, i);
                tokens.push(t.to_owned());
                proof {
                    assert(tok_views(tokens@) =~= tok_views(tokens@.drop_last()) + seq![cur]);
                }
            }
            i += 1;
            start = i;
            proof {
                assert(s@.subrange(start as int, i as int) =~= Seq::<char>::empty());
            }
        } else {
            i += 1;
            proof {
                assert(s@.subrange(start as int, i as int) =~= cur.push(s@[i - 1]));
            }
        }
    }
    proof {
        assert(s@.skip(n as int) =~= Seq::<char>::empty());
    }
    if start < n {
        let t = s.substring_char(start, n);
        tokens.push(t.to_owned());
        proof {
            assert(tok_views(tokens@) =~= tok_views(tokens@.drop_last()) + seq![
                s@.subrange(start as int, n as int),
            ]);
        }
    }
    tokens
}

} // verus!
