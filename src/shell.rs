//! Shell text built from plain values.
use vstd::prelude::*;

verus! {

/// The text that stands for one character inside single quotes.
pub open spec fn quoted_char(c: char) -> Seq<char> {
    if c == '\'' {
        seq!['\'', '\\', '\'', '\'']
    } else {
        seq![c]
    }
}

/// The characters of `s`, each as it stands inside single quotes.
pub open spec fn quoted_body(s: Seq<char>) -> Seq<char>
    decreases s.len(),
{
    if s.len() == 0 {
        seq![]
    } else {
        quoted_body(s.drop_last()) + quoted_char(s.last())
    }
}

/// `s` as one single-quoted shell word.
pub open spec fn single_quoted(s: Seq<char>) -> Seq<char> {
    seq!['\''] + quoted_body(s) + seq!['\'']
}

/// `s` as one single-quoted shell word, so that the shell reads it
/// literally.
pub fn shell_quote(s: &str) -> (r: String)
    ensures
        r@ == single_quoted(s@),
{
    let n = s.unicode_len();
    let mut r = String::from_str("'");
    proof {
        reveal_strlit("'");
        assert(s@.subrange(0, 0) =~= Seq::<char>::empty());
        assert(r@ =~= seq!['\''] + quoted_body(s@.subrange(0, 0)));
    }
    let mut i: usize = 0;
    while i < n
        invariant
            n == s@.len(),
            i <= n,
            r@ == seq!['\''] + quoted_body(s@.subrange(0, i as int)),
        decreases n - i,
    {
        if s.get_char(i) == '\'' {
            r.append("'\\''");
            proof {
                reveal_strlit("'\\''");
            }
        } else {
            r.append(s.substring_char(i, i + 1));
        }
        proof {
            assert(s@.subrange(0, i + 1).drop_last() =~= s@.subrange(0, i as int));
            assert(s@.subrange(0, i + 1).last() == s@[i as int]);
            assert(r@ =~= seq!['\''] + quoted_body(s@.subrange(0, i + 1)));
        }
        i = i + 1;
    }
    r.append("'");
    proof {
        reveal_strlit("'");
        assert(s@.subrange(0, n as int) =~= s@);
        assert(r@ =~= single_quoted(s@));
    }
    r
}

} // verus!
