//! Quoting of values that are placed into a remote shell command line.
use vstd::prelude::*;

verus! {

/// What one character of a value becomes inside single quotes: a quote
/// closes the quoting, is written inside double quotes, and reopens it.
pub open spec fn escape_piece(c: char) -> Seq<char> {
    if c == '\'' {
        seq!['\'', '"', '\'', '"', '\'']
    } else {
        seq![c]
    }
}

pub open spec fn escaped(s: Seq<char>) -> Seq<char>
    decreases s.len(),
{
    if s.len() == 0 {
        Seq::empty()
    } else {
        escaped(s.drop_last()) + escape_piece(s.last())
    }
}

/// `s` as one single-quoted shell word: the shell reads it back as exactly
/// `s`, with no expansion of any character.
pub open spec fn quoted(s: Seq<char>) -> Seq<char> {
    seq!['\''] + escaped(s) + seq!['\'']
}

/// Writes `s` as one single-quoted shell word.
pub fn shell_quote(s: &str) -> (r: String)
    ensures
        r@ == quoted(s@),
{
    proof {
        reveal_strlit("'");
    }
    let mut out = String::from_str("'");
    let n = s.unicode_len();
    let mut i: usize = 0;
    while i < n
        invariant
            n == s@.len(),
            i <= n,
            out@ == seq!['\''] + escaped(s@.subrange(0, i as int)),
        decreases n - i,
    {
        let c = s.get_char(i);
        let ghost pre = s@.subrange(0, i as int);
        let ghost next = s@.subrange(0, i as int + 1);
        assert(next.drop_last() =~= pre);
        assert(next.last() == c);
        assert(escaped(next) == escaped(pre) + escape_piece(c));
        if c == '\'' {
            proof {
                reveal_strlit(r#"'"'"'"#);
            }
            out.append(r#"'"'"'"#);
        } else {
            let one = s.substring_char(i, i + 1);
            assert(one@ =~= seq![c]);
            out.append(one);
        }
        assert(out@ =~= seq!['\''] + escaped(next));
        i = i + 1;
    }
    assert(s@.subrange(0, n as int) =~= s@);
    out.append("'");
    assert(out@ =~= quoted(s@));
    out
}

} // verus!
