//! Glob-style pattern matching for the policy rule lists.
//!
//! A pattern matches a whole field.  The character `*` matches any
//! (possibly empty) sequence of characters; every other character
//! matches only itself.

use vstd::prelude::*;

verus! {

/// `p` matches `s` under glob semantics: `*` matches any sequence,
/// any other character matches itself, and the whole of `s` must be
/// consumed.
pub open spec fn glob_matches(p: Seq<char>, s: Seq<char>) -> bool
    decreases p.len() + s.len(),
{
    if p.len() == 0 {
        s.len() == 0
    } else if p[0] == '*' {
        glob_matches(p.drop_first(), s) || (s.len() > 0 && glob_matches(p, s.drop_first()))
    } else {
        s.len() > 0 && p[0] == s[0] && glob_matches(p.drop_first(), s.drop_first())
    }
}

fn glob_from(p: &str, i: usize, s: &str, j: usize) -> (r: bool)
    requires
        i <= p@.len(),
        j <= s@.len(),
    ensures
        r == glob_matches(p@.skip(i as int), s@.skip(j as int)),
    decreases p@.len() - i + s@.len() - j,
{
    let np: usize = p.unicode_len();
    let ns: usize = s.unicode_len();
    proof {
        assert(p@.skip(i as int).len() == np - i);
        assert(s@.skip(j as int).len() == ns - j);
    }
    if i == np {
        return j == ns;
    }
    let pc = p.get_char(i);
    proof {
        assert(p@.skip(i as int)[0] == p@[i as int]);
        assert(p@.skip(i as int).drop_first() =~= p@.skip(i as int + 1));
    }
    if pc == '*' {
        if glob_from(p, i + 1, s, j) {
            return true;
        }
        if j < ns {
            proof {
                assert(s@.skip(j as int).drop_first() =~= s@.skip(j as int + 1));
            }
            return glob_from(p, i, s, j + 1);
        }
        return false;
    }
    if j == ns {
        return false;
    }
    let sc = s.get_char(j);
    proof {
        assert(s@.skip(j as int)[0] == s@[j as int]);
        assert(s@.skip(j as int).drop_first() =~= s@.skip(j as int + 1));
    }
    if pc != sc {
        return false;
    }
    glob_from(p, i + 1, s, j + 1)
}

/// Runtime glob matcher, exact against `glob_matches`.
pub fn glob_match(p: &str, s: &str) -> (r: bool)
    ensures
        r == glob_matches(p@, s@),
{
    proof {
        assert(p@.skip(0) =~= p@);
        assert(s@.skip(0) =~= s@);
    }
    glob_from(p, 0, s, 0)
}

} // verus!
