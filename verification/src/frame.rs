//! The line framer and the frame parser.
//!
//! Bytes from a socket, decoded to text, are cut into frames at each
//! `\n`; a run of `\r` just before the `\n` is discarded, and a
//! trailing piece without a newline is kept for the next read.  A
//! frame is then parsed into an optional originator override
//! (`name>`, taken at the first place it occurs), a destination
//! address, and the payload.

use vstd::prelude::*;

use crate::name::is_name_char;
use crate::name::name_char;
use crate::text::has_prefix_nocase;
use crate::text::is_space;
use crate::text::spec_remove_all;
use crate::text::remove_all;
use crate::text::starts_with_nocase;

verus! {

/// A frame that asks to leave: `exit` or `quit`, without regard to
/// case, at the start of the frame; trailing text is allowed.
pub open spec fn is_exit_frame(s: Seq<char>) -> bool {
    has_prefix_nocase(s, "exit"@) || has_prefix_nocase(s, "quit"@)
}

/// Runtime test for an exit frame.
pub fn exit_frame(s: &str) -> (r: bool)
    ensures
        r == is_exit_frame(s@),
{
    starts_with_nocase(s, "exit") || starts_with_nocase(s, "quit")
}

/// Index of the first `\n`, or `s.len()` if there is none.
pub open spec fn first_lf(s: Seq<char>) -> int
    decreases s.len(),
{
    if s.len() == 0 {
        0
    } else if s[0] == '\n' {
        0
    } else {
        1 + first_lf(s.drop_first())
    }
}

pub proof fn lemma_first_lf_bounds(s: Seq<char>)
    ensures
        0 <= first_lf(s) <= s.len(),
    decreases s.len(),
{
    if s.len() != 0 && s[0] != '\n' {
        lemma_first_lf_bounds(s.drop_first());
    }
}

/// A scan that stopped at the first `\n` (or the end) found
/// `first_lf`.
pub proof fn lemma_first_lf_at(s: Seq<char>, i: int)
    requires
        0 <= i <= s.len(),
        forall|k: int| 0 <= k < i ==> s[k] != '\n',
        i < s.len() ==> s[i] == '\n',
    ensures
        first_lf(s) == i,
    decreases s.len(),
{
    if s.len() != 0 && s[0] != '\n' {
        assert(i >= 1);
        assert(forall|k: int| 0 <= k < i - 1 ==> s.drop_first()[k] == s[k + 1] && s[k + 1] != '\n');
        lemma_first_lf_at(s.drop_first(), i - 1);
    }
}

/// `s` without its trailing run of `\r`.
pub open spec fn strip_cr(s: Seq<char>) -> Seq<char>
    decreases s.len(),
{
    if s.len() > 0 && s.last() == '\r' {
        strip_cr(s.drop_last())
    } else {
        s
    }
}

/// A backward scan over `\r` found `strip_cr`.
pub proof fn lemma_strip_cr_at(s: Seq<char>, b: int)
    requires
        0 <= b <= s.len(),
        forall|k: int| b <= k < s.len() ==> s[k] == '\r',
        b > 0 ==> s[b - 1] != '\r',
    ensures
        strip_cr(s) =~= s.subrange(0, b),
    decreases s.len(),
{
    if s.len() > 0 && s.last() == '\r' {
        assert(b < s.len());
        lemma_strip_cr_at(s.drop_last(), b);
        assert(s.drop_last().subrange(0, b) =~= s.subrange(0, b));
    } else {
        assert(b == s.len());
        assert(s.subrange(0, s.len() as int) =~= s);
    }
}

/// The complete frames in a buffer: each newline-terminated piece,
/// with its trailing `\r` run discarded.
pub open spec fn spec_frames(s: Seq<char>) -> Seq<Seq<char>>
    decreases s.len(),
    via spec_frames_decreases
{
    if first_lf(s) == s.len() {
        Seq::empty()
    } else {
        seq![strip_cr(s.subrange(0, first_lf(s)))] + spec_frames(s.skip(first_lf(s) + 1))
    }
}

#[via_fn]
proof fn spec_frames_decreases(s: Seq<char>) {
    lemma_first_lf_bounds(s);
}

/// The unterminated tail of a buffer, held for the next read.
pub open spec fn spec_rest(s: Seq<char>) -> Seq<char>
    decreases s.len(),
    via spec_rest_decreases
{
    if first_lf(s) == s.len() {
        s
    } else {
        spec_rest(s.skip(first_lf(s) + 1))
    }
}

#[via_fn]
proof fn spec_rest_decreases(s: Seq<char>) {
    lemma_first_lf_bounds(s);
}

/// Cuts a buffer into its complete frames and the unterminated tail.
#[verifier::loop_isolation(false)]
pub fn split_frames(s: &str) -> (r: (Vec<String>, String))
    ensures
        r.0.deep_view() == spec_frames(s@),
        r.1@ == spec_rest(s@),
{
    let n: usize = s.unicode_len();
    let mut out: Vec<String> = Vec::new();
    let mut pos: usize = 0;
    proof {
        assert(s@.skip(0) =~= s@);
    }
    while pos < n
        invariant
            0 <= pos <= n,
            n == s@.len(),
            out.deep_view() + spec_frames(s@.skip(pos as int)) =~= spec_frames(s@),
            spec_rest(s@.skip(pos as int)) == spec_rest(s@),
        decreases n - pos,
    {
        let mut j: usize = pos;
        while j < n && s.get_char(j) != '\n'
            invariant
                pos <= j <= n,
                forall|k: int| pos <= k < j ==> s@[k] != '\n',
            decreases n - j,
        {
            j = j + 1;
        }
        let ghost t = s@.skip(pos as int);
        proof {
            assert(forall|k: int| 0 <= k < j - pos ==> t[k] == s@[k + pos]);
            if j < n {
                assert(t[j - pos] == s@[j as int]);
            }
            lemma_first_lf_at(t, j as int - pos);
        }
        if j == n {
            break ;
        }
        let mut b: usize = j;
        while b > pos && s.get_char(b - 1) == '\r'
            invariant
                pos <= b <= j,
                forall|k: int| b <= k < j ==> s@[k] == '\r',
            decreases b,
        {
            b = b - 1;
        }
        proof {
            let line = t.subrange(0, j as int - pos);
            assert(forall|k: int| 0 <= k < line.len() ==> line[k] == s@[k + pos]);
            lemma_strip_cr_at(line, b as int - pos);
            assert(line.subrange(0, b as int - pos) =~= s@.subrange(pos as int, b as int));
            assert(t.skip(j as int - pos + 1) =~= s@.skip(j as int + 1));
        }
        let piece = String::from_str(s.substring_char(pos, b));
        let ghost old_out = out.deep_view();
        out.push(piece);
        proof {
            assert(out.deep_view() =~= old_out + seq![s@.subrange(pos as int, b as int)]);
        }
        pos = j + 1;
    }
    proof {
        if pos < n {
            // left by `break`: no newline remains from `pos`
        } else {
            assert(s@.skip(pos as int) =~= s@.skip(n as int));
        }
    }
    let rest = String::from_str(s.substring_char(pos, n));
    proof {
        let t = s@.skip(pos as int);
        assert(t =~= s@.subrange(pos as int, n as int));
        assert(spec_frames(t) =~= Seq::<Seq<char>>::empty());
        assert(out.deep_view() =~= spec_frames(s@));
        assert(spec_rest(t) == t);
    }
    (out, rest)
}

/// Index of the first `>` that closes an originator override: a `>`
/// just after a name character.  `s.len()` if there is none.
pub open spec fn first_gt_at(s: Seq<char>, j: int) -> int
    decreases s.len() - j,
{
    if j < 0 || j >= s.len() {
        s.len() as int
    } else if s[j] == '>' && j >= 1 && is_name_char(s[j - 1]) {
        j
    } else {
        first_gt_at(s, j + 1)
    }
}

/// Index of the first feasible `>` in `s`.
pub open spec fn first_gt(s: Seq<char>) -> int {
    first_gt_at(s, 0)
}

/// The first feasible `>` really is the first: nothing before it
/// closes an override, and it does.
pub proof fn lemma_first_gt_props(s: Seq<char>, j: int)
    requires
        0 <= j <= s.len(),
    ensures
        j <= first_gt_at(s, j) <= s.len(),
        first_gt_at(s, j) < s.len() ==> {
            let g = first_gt_at(s, j);
            s[g] == '>' && g >= 1 && is_name_char(s[g - 1])
        },
        forall|k: int|
            j <= k < first_gt_at(s, j) && k < s.len() ==> !(#[trigger] s[k] == '>' && k >= 1
                && is_name_char(s[k - 1])),
    decreases s.len() - j,
{
    if j < s.len() && !(s[j] == '>' && j >= 1 && is_name_char(s[j - 1])) {
        lemma_first_gt_props(s, j + 1);
    }
}

/// Start of the maximal run of name characters ending just before
/// position `j`.
pub open spec fn run_start(s: Seq<char>, j: int) -> int
    decreases j,
{
    if j <= 0 {
        0
    } else if is_name_char(s[j - 1]) {
        run_start(s, j - 1)
    } else {
        j
    }
}

/// The run really is maximal: all name characters, preceded by none.
pub proof fn lemma_run_start_props(s: Seq<char>, j: int)
    requires
        0 <= j <= s.len(),
    ensures
        0 <= run_start(s, j) <= j,
        forall|k: int| run_start(s, j) <= k < j ==> is_name_char(s[k]),
        run_start(s, j) > 0 ==> !is_name_char(s[run_start(s, j) - 1]),
    decreases j,
{
    if j > 0 && is_name_char(s[j - 1]) {
        lemma_run_start_props(s, j - 1);
    }
}

/// The originator override of a frame, if the frame holds one: the
/// maximal name-character run ending at the first feasible `>`.
pub open spec fn spec_from_name(s: Seq<char>) -> Option<Seq<char>> {
    if first_gt(s) == s.len() {
        None
    } else {
        Some(s.subrange(run_start(s, first_gt(s)), first_gt(s)))
    }
}

/// The frame after override removal: every occurrence of `name>` is
/// removed, scanning left to right without overlap, as
/// `str::replace` with an empty replacement does.
pub open spec fn spec_after_from(s: Seq<char>) -> Seq<char> {
    match spec_from_name(s) {
        None => s,
        Some(name) => spec_remove_all(s, name + ">"@),
    }
}

/// Extracts the originator override, returning it (if any) and the
/// frame with the `name>` text removed.
#[verifier::loop_isolation(false)]
pub fn parse_from(s: &str) -> (r: (Option<String>, String))
    ensures
        match spec_from_name(s@) {
            None => r.0 is None,
            Some(name) => r.0 matches Some(f) && f@ == name,
        },
        r.1@ == spec_after_from(s@),
{
    let n: usize = s.unicode_len();
    let mut j: usize = 0;
    while j < n
        invariant
            0 <= j <= n,
            n == s@.len(),
            first_gt(s@) == first_gt_at(s@, j as int),
        decreases n - j,
    {
        let c = s.get_char(j);
        if c == '>' && j >= 1 && name_char(s.get_char(j - 1)) {
            let mut i: usize = j;
            while i > 0 && name_char(s.get_char(i - 1))
                invariant
                    0 <= i <= j,
                    run_start(s@, j as int) == run_start(s@, i as int),
                decreases i,
            {
                i = i - 1;
            }
            assert(run_start(s@, j as int) == i);
            let name = String::from_str(s.substring_char(i, j));
            let pat = name.clone().concat(">");
            let rest = remove_all(s, pat.as_str());
            proof {
                assert(first_gt(s@) == j);
                assert(pat@ =~= s@.subrange(i as int, j as int) + ">"@);
            }
            return (Some(name), rest);
        }
        j = j + 1;
    }
    assert(first_gt(s@) == n);
    (None, String::from_str(s))
}

/// Index of the end of the leading name-character run.
pub open spec fn name_end(s: Seq<char>) -> int
    decreases s.len(),
{
    if s.len() == 0 {
        0
    } else if !is_name_char(s[0]) {
        0
    } else {
        1 + name_end(s.drop_first())
    }
}

pub proof fn lemma_name_end_at(s: Seq<char>, i: int)
    requires
        0 <= i <= s.len(),
        forall|k: int| 0 <= k < i ==> is_name_char(s[k]),
        i < s.len() ==> !is_name_char(s[i]),
    ensures
        name_end(s) == i,
    decreases s.len(),
{
    if s.len() != 0 && is_name_char(s[0]) {
        assert(i >= 1);
        assert(forall|k: int|
            0 <= k < i - 1 ==> s.drop_first()[k] == s[k + 1] && is_name_char(s[k + 1]));
        lemma_name_end_at(s.drop_first(), i - 1);
    }
}

/// Length of the leading whitespace run.
pub open spec fn space_run(s: Seq<char>) -> int
    decreases s.len(),
{
    if s.len() == 0 {
        0
    } else if is_space(s[0]) {
        1 + space_run(s.drop_first())
    } else {
        0
    }
}

pub proof fn lemma_space_run_at(s: Seq<char>, i: int)
    requires
        0 <= i <= s.len(),
        forall|k: int| 0 <= k < i ==> is_space(s[k]),
        i < s.len() ==> !is_space(s[i]),
    ensures
        space_run(s) == i,
    decreases s.len(),
{
    if s.len() != 0 && is_space(s[0]) {
        assert(i >= 1);
        assert(forall|k: int| 0 <= k < i - 1 ==> s.drop_first()[k] == s[k + 1] && is_space(s[k + 1]));
        lemma_space_run_at(s.drop_first(), i - 1);
    }
}

/// The destination address and payload of a frame after override
/// removal: the leading name-character run is the address; the
/// whitespace run after it is dropped; the rest is the payload.  A
/// frame that does not start with a name character has no address.
pub open spec fn spec_parse_to(s: Seq<char>) -> Option<(Seq<char>, Seq<char>)> {
    if s.len() > 0 && is_name_char(s[0]) {
        let e = name_end(s);
        Some((s.subrange(0, e), s.skip(e + space_run(s.skip(e)))))
    } else {
        None
    }
}

/// Splits a frame into destination address and payload.
#[verifier::loop_isolation(false)]
pub fn parse_to(s: &str) -> (r: Option<(String, String)>)
    ensures
        match spec_parse_to(s@) {
            None => r is None,
            Some(tp) => r matches Some(e) && e.0@ == tp.0 && e.1@ == tp.1,
        },
{
    let n: usize = s.unicode_len();
    if n == 0 || !name_char(s.get_char(0)) {
        return None;
    }
    let mut e: usize = 0;
    while e < n && name_char(s.get_char(e))
        invariant
            0 <= e <= n,
            forall|k: int| 0 <= k < e ==> is_name_char(s@[k]),
        decreases n - e,
    {
        e = e + 1;
    }
    proof {
        lemma_name_end_at(s@, e as int);
    }
    let mut p: usize = e;
    while p < n && crate::text::space_char(s.get_char(p))
        invariant
            e <= p <= n,
            forall|k: int| e <= k < p ==> is_space(s@[k]),
        decreases n - p,
    {
        p = p + 1;
    }
    proof {
        let t = s@.skip(e as int);
        assert(forall|k: int| 0 <= k < p - e ==> t[k] == s@[k + e]);
        if p < n {
            assert(t[p - e] == s@[p as int]);
        }
        lemma_space_run_at(t, p as int - e);
        assert(t.skip(p as int - e) =~= s@.skip(p as int));
        assert(s@.skip(p as int) =~= s@.subrange(p as int, n as int));
    }
    let to = String::from_str(s.substring_char(0, e));
    let payload = String::from_str(s.substring_char(p, n));
    Some((to, payload))
}

} // verus!
