//! The node-name alphabet and helpers on dotted node paths.
//!
//! A STARS node name is a non-empty run of ASCII letters, digits,
//! underscore, dot or hyphen.  A dotted path such as `Devices.PumpA`
//! addresses a sub-component of the node named by its first segment.

use vstd::prelude::*;

verus! {

/// The characters allowed in a node name or dotted node path.
pub open spec fn is_name_char(c: char) -> bool {
    ('a' <= c && c <= 'z') || ('A' <= c && c <= 'Z') || ('0' <= c && c <= '9') || c == '_' || c
        == '.' || c == '-'
}

/// Runtime test for membership in the name alphabet.
pub fn name_char(c: char) -> (r: bool)
    ensures
        r == is_name_char(c),
{
    ('a' <= c && c <= 'z') || ('A' <= c && c <= 'Z') || ('0' <= c && c <= '9') || c == '_' || c
        == '.' || c == '-'
}

/// Index of the first `.` in `s`, or `s.len()` if there is none.
pub open spec fn first_dot(s: Seq<char>) -> int
    decreases s.len(),
{
    if s.len() == 0 {
        0
    } else if s[0] == '.' {
        0
    } else {
        1 + first_dot(s.drop_first())
    }
}

/// The first dotted segment of a path: everything before the first `.`,
/// or the whole path if it has no dot.
pub open spec fn head_of(s: Seq<char>) -> Seq<char> {
    s.subrange(0, first_dot(s))
}

pub proof fn lemma_first_dot_bounds(s: Seq<char>)
    ensures
        0 <= first_dot(s) <= s.len(),
        forall|k: int| 0 <= k < first_dot(s) ==> s[k] != '.',
        first_dot(s) < s.len() ==> s[first_dot(s)] == '.',
    decreases s.len(),
{
    if s.len() != 0 && s[0] != '.' {
        lemma_first_dot_bounds(s.drop_first());
        assert(forall|k: int|
            1 <= k < first_dot(s) ==> s[k] == s.drop_first()[k - 1] && s.drop_first()[k - 1]
                != '.');
    }
}

/// A scan that stopped at the first dot (or the end) found `first_dot`.
pub proof fn lemma_first_dot_at(s: Seq<char>, i: int)
    requires
        0 <= i <= s.len(),
        forall|k: int| 0 <= k < i ==> s[k] != '.',
        i < s.len() ==> s[i] == '.',
    ensures
        first_dot(s) == i,
    decreases s.len(),
{
    if s.len() != 0 && s[0] != '.' {
        assert(s[0] != '.');
        assert(i >= 1);
        assert(forall|k: int| 0 <= k < i - 1 ==> s.drop_first()[k] == s[k + 1] && s[k + 1] != '.');
        lemma_first_dot_at(s.drop_first(), i - 1);
    }
}

/// The first dotted segment of `s`, as an owned string.
pub fn head(s: &str) -> (r: String)
    ensures
        r@ == head_of(s@),
{
    let n: usize = s.unicode_len();
    let mut i: usize = 0;
    while i < n
        invariant
            0 <= i <= n,
            n == s@.len(),
            forall|k: int| 0 <= k < i ==> s@[k] != '.',
        decreases n - i,
    {
        if s.get_char(i) == '.' {
            proof {
                lemma_first_dot_at(s@, i as int);
            }
            return String::from_str(s.substring_char(0, i));
        }
        i = i + 1;
    }
    proof {
        lemma_first_dot_at(s@, n as int);
        assert(head_of(s@) =~= s@);
    }
    String::from_str(s.substring_char(0, n))
}

/// Character-by-character string equality, usable on string slices.
pub fn str_eq(a: &str, b: &str) -> (r: bool)
    ensures
        r == (a@ == b@),
{
    let na: usize = a.unicode_len();
    let nb: usize = b.unicode_len();
    if na != nb {
        assert(a@ != b@);
        return false;
    }
    let mut i: usize = 0;
    while i < na
        invariant
            0 <= i <= na,
            na == a@.len(),
            na == b@.len(),
            forall|k: int| 0 <= k < i ==> a@[k] == b@[k],
        decreases na - i,
    {
        if a.get_char(i) != b.get_char(i) {
            return false;
        }
        i = i + 1;
    }
    proof {
        assert(a@ =~= b@);
    }
    true
}

} // verus!
